# mcp

Turn any MCP server into a command line tool. A remote server is registered once and
authorized in the browser; then each of its tools is a command that prints JSON.

```console
$ mcp add linear --url https://mcp.linear.app/mcp
$ mcp linear auth
$ mcp linear list_issues --team ENG --limit 10 | jq '.[].title'
```

## Layout

`src/` is a library in Verus. Every function in it states what it returns, and Verus
proves it.

| module | what it is about |
| --- | --- |
| `text`, `numeral`, `table`, `error` | texts, numbers, ordered tables, errors |
| `json` | JSON values, read and printed by `serde_json` |
| `flags` | tool arguments from `--key value` flags and from JSON |
| `output`, `tools` | printing results, listing and explaining tools |
| `commands` | what the command line asks for |
| `http`, `rpc`, `sse`, `client` | headers, JSON-RPC messages, event streams, sessions |
| `session` | opening a session, with refreshed tokens where needed |
| `config`, `cache` | stored servers and credentials, cached tool schemas |
| `address`, `discovery`, `oauth`, `callback`, `login` | the OAuth flow |

Calls into other crates stand behind small functions marked
`#[verifier::external_body]`, each with the contract that is taken from that crate.
Where the result of such a call has no short description, it has a name: a
specification function without a body.

`app/` is the program around the library: arguments, files, the network. `tests/` runs
the library.

## Behaviour

- Results go to the output stream. What a tool reports as an error goes to the error
  stream, and the program then exits with a failure.
- Tool schemas are cached for a day. `--refresh` reads them anew, for a listing and for
  any call. `MCP_CACHE_TTL` sets the lifetime in seconds; zero turns the cache off.
- Credentials are kept in a file that only its owner can read. Tokens are refreshed
  from a minute before they expire, and once more when the server refuses them.
- `auth`, `login`, `logout`, `tools`, `help` and `call` behind the name of a server are
  commands, whatever words follow; `call` reaches a tool that has such a name.
- The value of a flag has the type that the tool asks for, or the call is refused.
- Clearing the cache removes every file in its directory whose name ends in `.json`.
- `MCP_CONFIG_DIR` names the directory for all files.
