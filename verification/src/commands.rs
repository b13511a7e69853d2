//! What the command line asks for.

use vstd::prelude::*;
use vstd::string::*;

use crate::address::{url_complaint, url_error};
use crate::client::{CallError, Unauthorized};
use crate::config::{grants, Config, Credentials, Grant, Registration, Server};
use crate::error::{because, plain, Error, Fault};
use crate::flags::{
    flags_object, json_argument, parse_flags, parse_json_argument, reads_stdin,
};
use crate::http::{put_text, texts};
use crate::json::{
    all_wf, json_views, members_view, object_view, object_wf, outcome, parsed_json, Json, JsonV,
};
use crate::table::{
    ascending, key_is_first, keys, lookup, on_values_commutes, place_is_first, put, put_keeps_order,
    put_then_lookup, without, without_keeps_order, without_then_lookup, Table,
};
use crate::text::{
    a_beginning_is_a_prefix, a_text_is_split_at_the_first_sign, begins, byte_len, bytes_in,
    chars_of, concat, concat3, join, joined, lower_text, opt_str, opt_view, pad, padded, quote,
    quoted, same, split_at_first, split_first, starts_with, string_of, trim, trimmed, views,
};
use crate::tools::{
    a_found_tool_bears_its_name, has_tool, input_schema, is_unknown_tool, says_unknown, schema_of,
    tool_named, Page, Printed,
};

verus! {

// ---------------------------------------------------------------------------
// Registering servers
// ---------------------------------------------------------------------------

/// The name and the value in a text such as `Name: value`.
pub open spec fn header_in(text: Seq<char>) -> Result<(Seq<char>, Seq<char>), Fault> {
    match split_at_first(text, ':') {
        Some((name, value)) => Ok((trim(name), trim(value))),
        None => Err(
            plain("invalid header "@ + quoted(text) + ", expected 'Name: value'"@),
        ),
    }
}

/// The headers in texts such as `Name: value`, one after another.
pub open spec fn headers_in(headers: Seq<Seq<char>>) -> Result<Seq<(Seq<char>, Seq<char>)>, Fault>
    decreases headers.len(),
{
    if headers.len() == 0 {
        Ok(seq![])
    } else {
        match headers_in(headers.drop_last()) {
            Err(e) => Err(e),
            Ok(before) => match header_in(headers.last()) {
                Err(e) => Err(e),
                Ok((name, value)) => Ok(put(before, name, value)),
            },
        }
    }
}

/// The server that an address and headers describe. `complaint` is that about
/// the address, if there is one.
pub open spec fn server_in(
    complaint: Option<Seq<char>>,
    url: Seq<char>,
    headers: Seq<Seq<char>>,
) -> Result<Registration, Fault> {
    match complaint {
        Some(e) => Err(because("invalid URL: "@ + url, e)),
        None => match headers_in(headers) {
            Ok(headers) => Ok(Registration { url, headers }),
            Err(e) => Err(e),
        },
    }
}

proof fn first_bad_header_counts(headers: Seq<Seq<char>>, n: int)
    requires
        0 <= n <= headers.len(),
        headers_in(headers.take(n)) is Err,
    ensures
        headers_in(headers) == headers_in(headers.take(n)),
    decreases headers.len() - n,
{
    if n == headers.len() {
        assert(headers.take(n) =~= headers);
    } else {
        assert(headers.take(n + 1).drop_last() =~= headers.take(n));
        first_bad_header_counts(headers, n + 1);
    }
}

/// Reads headers such as `Name: value`.
pub fn parse_headers(headers: &Vec<String>) -> (r: Result<Table<String>, Error>)
    ensures
        match r {
            Ok(table) => table.wf() && headers_in(views(headers@)) == Ok::<
                Seq<(Seq<char>, Seq<char>)>,
                Fault,
            >(texts(table@)),
            Err(e) => headers_in(views(headers@)) == Err::<Seq<(Seq<char>, Seq<char>)>, Fault>(e@),
        },
{
    let ghost all = views(headers@);
    let mut table: Table<String> = Table::new();
    let mut i: usize = 0;
    assert(texts(table@) =~= seq![]);
    assert(all.take(0) =~= seq![]);
    while i < headers.len()
        invariant
            all == views(headers@),
            i <= headers@.len(),
            table.wf(),
            headers_in(all.take(i as int)) == Ok::<Seq<(Seq<char>, Seq<char>)>, Fault>(texts(table@)),
        decreases headers@.len() - i,
    {
        assert(all.take(i + 1).drop_last() =~= all.take(i as int));
        let header = headers[i].as_str();
        let chars = chars_of(header);
        match split_first(chars.as_slice(), ':') {
            Some((name, value)) => {
                let name = string_of(trimmed(name));
                let value = string_of(trimmed(value));
                put_text(&mut table, name.as_str(), value);
            },
            None => {
                let e = Error::plain(
                    concat3("invalid header ", quote(header).as_str(), ", expected 'Name: value'"),
                );
                proof {
                    first_bad_header_counts(all, i + 1);
                }
                return Err(e);
            },
        }
        i += 1;
    }
    assert(all.take(i as int) =~= all);
    Ok(table)
}

/// The view of a server that may not be known.
pub open spec fn server_view(r: Result<Server, Error>) -> Result<Registration, Fault> {
    match r {
        Ok(server) => Ok(server@),
        Err(e) => Err(e@),
    }
}

/// The server that an address and headers describe, from the complaint about the
/// address, if there is one.
pub fn server_with(complaint: Option<String>, url: &str, headers: &Vec<String>) -> (r: Result<
    Server,
    Error,
>)
    ensures
        server_view(r) == server_in(opt_view(complaint), url@, views(headers@)),
        r matches Ok(server) ==> server.wf(),
{
    if let Some(e) = complaint {
        return Err(Error::because(concat("invalid URL: ", url), e));
    }
    match parse_headers(headers) {
        Ok(headers) => Ok(Server { url: url.to_owned(), headers }),
        Err(e) => Err(e),
    }
}

/// The server that an address and headers describe.
pub fn parse_server(url: &str, headers: &Vec<String>) -> (r: Result<Server, Error>)
    ensures
        server_view(r) == server_in(url_complaint(url@), url@, views(headers@)),
        r matches Ok(server) ==> server.wf(),
{
    server_with(url_error(url), url, headers)
}

impl Config {
    /// Registers a server, in the place of one that had its name.
    pub fn add(&mut self, name: &str, server: Server)
        requires
            old(self).wf(),
            server.wf(),
        ensures
            final(self).wf(),
            final(self)@ == put(old(self)@, name@, server@),
    {
        let ghost before = self.servers@;
        proof {
            on_values_commutes(before, |s: Server| s@, name@, server);
            place_is_first(before, name@, 0);
        }
        self.servers.insert(name.to_owned(), server);
        proof {
            let after = self.servers@;
            assert forall|i: int| 0 <= i < after.len() implies (#[trigger] after[i]).1.wf() by {
                let p = crate::table::place_from(before, name@, 0);
                if p < before.len() && before[p].0 == name@ {
                    if i != p {
                        assert(after[i] == before[i]);
                    }
                } else if i < p {
                    assert(after[i] == before[i]);
                } else if i > p {
                    assert(after[i] == before[i - 1]);
                }
            }
        }
    }

    /// Forgets a server, and says whether there was one of that name.
    pub fn forget(&mut self, name: &str) -> (r: bool)
        requires
            old(self).wf(),
        ensures
            final(self).wf(),
            final(self)@ == without(old(self)@, name@),
            r == (lookup(old(self)@, name@) is Some),
    {
        let ghost before = self.servers@;
        proof {
            on_values_commutes(before, |s: Server| s@, name@, arbitrary());
            key_is_first(before, name@, 0);
        }
        let removed = self.servers.remove(name);
        proof {
            let after = self.servers@;
            assert forall|i: int| 0 <= i < after.len() implies (#[trigger] after[i]).1.wf() by {
                match crate::table::key_from(before, name@, 0) {
                    Some(p) => {
                        if i < p {
                            assert(after[i] == before[i]);
                        } else {
                            assert(after[i] == before[i + 1]);
                        }
                    },
                    None => {},
                }
            }
        }
        removed.is_some()
    }
}

/// The error that a server to be removed is not registered.
pub open spec fn not_registered(name: Seq<char>) -> Fault {
    plain("no such server: "@ + name)
}

/// Forgets a server.
pub fn remove(config: &mut Config, name: &str) -> (r: Result<(), Error>)
    requires
        old(config).wf(),
    ensures
        final(config).wf(),
        match lookup(old(config)@, name@) {
            Some(_) => r is Ok && final(config)@ == without(old(config)@, name@),
            None => r matches Err(e) && e@ == not_registered(name@) && final(config)@
                == old(config)@,
        },
{
    proof {
        key_is_first(config@, name@, 0);
    }
    if config.forget(name) {
        Ok(())
    } else {
        Err(Error::plain(concat("no such server: ", name)))
    }
}

/// The error that there is no server of a name.
pub open spec fn no_such_server(name: Seq<char>, known: Seq<Seq<char>>) -> Fault {
    if known.len() == 0 {
        plain("no such server: "@ + name + ". Add one with: mcp add "@ + name + " --url <url>"@)
    } else {
        plain("no such server: "@ + name + ". Known servers: "@ + joined(known, ", "@))
    }
}

/// The server of a name.
pub fn lookup_server(config: &Config, name: &str) -> (r: Result<Server, Error>)
    requires
        config.wf(),
    ensures
        match lookup(config@, name@) {
            Some(server) => r matches Ok(found) && found@ == server && found.wf(),
            None => r matches Err(e) && e@ == no_such_server(name@, keys(config@)),
        },
{
    proof {
        on_values_commutes(config.servers@, |s: Server| s@, name@, arbitrary());
        key_is_first(config.servers@, name@, 0);
    }
    match config.servers.get(name) {
        Some(server) => Ok(server.clone()),
        None => {
            let known = config.servers.keys();
            assert(views(known@).len() == known@.len());
            if known.len() == 0 {
                let mut headline = concat3("no such server: ", name, ". Add one with: mcp add ");
                headline.append(name);
                headline.append(" --url <url>");
                Err(Error::plain(headline))
            } else {
                let mut headline = concat3("no such server: ", name, ". Known servers: ");
                headline.append(join(&known, ", ").as_str());
                Err(Error::plain(headline))
            }
        },
    }
}

// ---------------------------------------------------------------------------
// Listing servers
// ---------------------------------------------------------------------------

/// Whether a server can be used, for the user.
pub open spec fn status(server: Registration, grant: Option<Grant>, now: u64) -> Seq<char> {
    let live = match grant {
        Some(grant) => if grant.access_token is Some {
            Some(grant)
        } else {
            None
        },
        None => None,
    };
    match live {
        Some(grant) => if !grant.expired_at(now) {
            "authenticated"@
        } else if grant.refresh_token is Some {
            "authenticated (expired, will refresh)"@
        } else {
            "expired"@
        },
        None => if server.headers.len() > 0 {
            "static headers"@
        } else {
            "not authenticated"@
        },
    }
}

/// How many bytes the longest of some names takes.
pub open spec fn widest(names: Seq<Seq<char>>) -> nat
    decreases names.len(),
{
    if names.len() == 0 {
        0
    } else {
        let before = widest(names.drop_last());
        if bytes_in(names.last()) > before {
            bytes_in(names.last())
        } else {
            before
        }
    }
}

/// The line that shows a server.
pub open spec fn server_line(
    name: Seq<char>,
    server: Registration,
    grant: Option<Grant>,
    now: u64,
    width: nat,
) -> Seq<char> {
    padded(name, width) + "  "@ + server.url + "  ["@ + status(server, grant, now) + "]"@
}

/// The lines that show servers.
pub open spec fn server_lines(
    servers: Seq<(Seq<char>, Registration)>,
    credentials: Seq<(Seq<char>, Grant)>,
    now: u64,
    width: nat,
) -> Seq<Seq<char>> {
    servers.map_values(
        |s: (Seq<char>, Registration)|
            server_line(s.0, s.1, lookup(credentials, s.0), now, width),
    )
}

/// The list of servers, for the user.
pub open spec fn servers_page(
    servers: Seq<(Seq<char>, Registration)>,
    credentials: Seq<(Seq<char>, Grant)>,
    now: u64,
) -> Page {
    if servers.len() == 0 {
        Page {
            out: seq![],
            err: seq!["No servers yet. Add one with: mcp add <name> --url <url>"@],
        }
    } else {
        Page {
            out: server_lines(servers, credentials, now, widest(keys(servers))),
            err: seq![],
        }
    }
}

fn width_of(names: &Vec<String>) -> (r: usize)
    ensures
        r == widest(views(names@)),
{
    let ghost all = views(names@);
    let mut width: usize = 0;
    let mut i: usize = 0;
    while i < names.len()
        invariant
            all == views(names@),
            i <= names@.len(),
            width == widest(all.take(i as int)),
        decreases names@.len() - i,
    {
        assert(all.take(i + 1).drop_last() =~= all.take(i as int));
        let n = byte_len(names[i].as_str());
        if n > width {
            width = n;
        }
        i += 1;
    }
    assert(all.take(i as int) =~= all);
    width
}

/// Whether a server can be used, for the user.
pub fn server_status(server: &Server, credentials: Option<&Credentials>, now: u64) -> (r: &'static str)
    ensures
        r@ == status(
            server@,
            match credentials {
                Some(c) => Some(c@),
                None => None,
            },
            now,
        ),
{
    if let Some(c) = credentials {
        if c.access_token.is_some() {
            return if !c.is_expired_at(now) {
                "authenticated"
            } else if c.refresh_token.is_some() {
                "authenticated (expired, will refresh)"
            } else {
                "expired"
            };
        }
    }
    assert(server@.headers.len() == server.headers.entries@.len());
    if server.headers.entries.len() > 0 {
        "static headers"
    } else {
        "not authenticated"
    }
}

/// The list of servers, for the user.
pub fn list(config: &Config, credentials: &Table<Credentials>, now: u64) -> (r: Printed)
    ensures
        r@ == servers_page(config@, grants(credentials@), now),
{
    let mut out: Vec<String> = Vec::new();
    let mut err: Vec<String> = Vec::new();
    let ghost servers = config@;
    let ghost known = grants(credentials@);
    assert(views(out@) =~= seq![]);
    assert(views(err@) =~= seq![]);
    if config.servers.entries.len() == 0 {
        err.push("No servers yet. Add one with: mcp add <name> --url <url>".to_owned());
        assert(views(err@) =~= seq!["No servers yet. Add one with: mcp add <name> --url <url>"@]);
        return Printed { out, err };
    }
    proof {
        on_values_commutes(config.servers@, |s: Server| s@, seq![], arbitrary());
    }
    let width = width_of(&config.servers.keys());
    let mut i: usize = 0;
    while i < config.servers.entries.len()
        invariant
            servers == config@,
            known == grants(credentials@),
            width == widest(keys(servers)),
            i <= config.servers.entries@.len(),
            out@.len() == i,
            forall|k: int|
                0 <= k < i ==> (#[trigger] out@[k])@ == server_lines(
                    servers,
                    known,
                    now,
                    width as nat,
                )[k],
        decreases config.servers.entries@.len() - i,
    {
        let name = config.servers.entries[i].0.as_str();
        let server = &config.servers.entries[i].1;
        assert(servers[i as int] == (name@, server@));
        proof {
            on_values_commutes(credentials@, |c: Credentials| c@, name@, arbitrary());
        }
        let status = server_status(server, credentials.get(name), now);
        let mut line = concat3(pad(name, width).as_str(), "  ", server.url.as_str());
        line.append("  [");
        line.append(status);
        line.append("]");
        out.push(line);
        i += 1;
    }
    assert(views(out@) =~= server_lines(servers, known, now, width as nat));
    Printed { out, err }
}

// ---------------------------------------------------------------------------
// Words on the command line
// ---------------------------------------------------------------------------

/// The words without a given one.
pub open spec fn dropped(words: Seq<Seq<char>>, word: Seq<char>) -> Seq<Seq<char>>
    decreases words.len(),
{
    if words.len() == 0 {
        seq![]
    } else if words.last() == word {
        dropped(words.drop_last(), word)
    } else {
        dropped(words.drop_last(), word).push(words.last())
    }
}

/// Whether a word is among others.
fn has_word(words: &Vec<String>, word: &str) -> (r: bool)
    ensures
        r == views(words@).contains(word@),
{
    let mut i: usize = 0;
    while i < words.len()
        invariant
            i <= words@.len(),
            forall|k: int| 0 <= k < i ==> (#[trigger] views(words@)[k]) != word@,
        decreases words@.len() - i,
    {
        if same(words[i].as_str(), word) {
            assert(views(words@)[i as int] == word@);
            return true;
        }
        i += 1;
    }
    false
}

fn drop_word(words: &Vec<String>, word: &str) -> (r: Vec<String>)
    ensures
        views(r@) == dropped(views(words@), word@),
{
    let ghost all = views(words@);
    let mut out: Vec<String> = Vec::new();
    let mut i: usize = 0;
    assert(views(out@) =~= seq![]);
    while i < words.len()
        invariant
            all == views(words@),
            i <= words@.len(),
            views(out@) == dropped(all.take(i as int), word@),
        decreases words@.len() - i,
    {
        assert(all.take(i + 1).drop_last() =~= all.take(i as int));
        let ghost before = views(out@);
        if !same(words[i].as_str(), word) {
            out.push(words[i].clone());
            assert(views(out@) =~= before.push(words@[i as int]@));
        }
        i += 1;
    }
    assert(all.take(i as int) =~= all);
    out
}

fn words_from(words: &Vec<String>, from: usize) -> (r: Vec<String>)
    requires
        from <= words@.len(),
    ensures
        views(r@) == views(words@).skip(from as int),
{
    let ghost all = views(words@).skip(from as int);
    let mut out: Vec<String> = Vec::new();
    let mut i: usize = from;
    while i < words.len()
        invariant
            all == views(words@).skip(from as int),
            from <= i <= words@.len(),
            views(out@) =~= all.take(i - from),
        decreases words@.len() - i,
    {
        let ghost before = views(out@);
        out.push(words[i].clone());
        assert(views(out@) =~= before.push(all[i - from]));
        assert(all.take(i + 1 - from) =~= all.take(i - from).push(all[i - from]));
        i += 1;
    }
    assert(all.take(i - from) =~= all);
    out
}

// ---------------------------------------------------------------------------
// Commands for a server
// ---------------------------------------------------------------------------

/// What is to be done with a server: the mathematical model of [`Plan`].
pub enum Task {
    List(bool),
    ListJson(bool),
    Auth(bool),
    Logout,
    Help(bool),
    Call(Seq<char>, Seq<Seq<char>>, bool),
    Misuse(Fault),
}

/// What is to be done with a server.
#[derive(Debug, PartialEq)]
pub enum Plan {
    /// List its tools, read anew or not.
    List(bool),
    /// List its tools as JSON, read anew or not.
    ListJson(bool),
    /// Authorize, without a browser or with one.
    Auth(bool),
    /// Forget its credentials.
    Logout,
    /// Explain the commands and list its tools, read anew or not.
    Help(bool),
    /// Call a tool with arguments, with the tools read anew or not.
    Call(String, Vec<String>, bool),
    /// The command is incomplete.
    Misuse(Error),
}

impl View for Plan {
    type V = Task;

    open spec fn view(&self) -> Task {
        match self {
            Plan::List(refresh) => Task::List(*refresh),
            Plan::ListJson(refresh) => Task::ListJson(*refresh),
            Plan::Auth(no_browser) => Task::Auth(*no_browser),
            Plan::Logout => Task::Logout,
            Plan::Help(refresh) => Task::Help(*refresh),
            Plan::Call(tool, args, refresh) => Task::Call(tool@, views(args@), *refresh),
            Plan::Misuse(e) => Task::Misuse(e@),
        }
    }
}

/// What is to be done with a server, from the words behind its name without
/// `--refresh`.
pub open spec fn task(name: Seq<char>, rest: Seq<Seq<char>>, refresh: bool) -> Task {
    if rest.len() == 0 {
        Task::List(refresh)
    } else {
        let first = rest[0];
        if first == "auth"@ || first == "login"@ {
            Task::Auth(rest.contains("--no-browser"@))
        } else if first == "logout"@ {
            Task::Logout
        } else if first == "tools"@ {
            Task::ListJson(refresh)
        } else if first == "--help"@ || first == "-h"@ || first == "help"@ {
            Task::Help(refresh)
        } else if first == "call"@ {
            if rest.len() > 1 {
                Task::Call(rest[1], rest.skip(2), refresh)
            } else {
                Task::Misuse(plain("usage: mcp "@ + name + " call <tool> [json]"@))
            }
        } else {
            Task::Call(first, rest.skip(1), refresh)
        }
    }
}

/// What is to be done with a server, from the words behind its name.
pub open spec fn task_of(name: Seq<char>, words: Seq<Seq<char>>) -> Task {
    task(name, dropped(words, "--refresh"@), words.contains("--refresh"@))
}

/// What is to be done with a server: its name, and the plan.
pub fn server(args: &Vec<String>) -> (r: (String, Plan))
    requires
        args@.len() > 0,
    ensures
        r.0@ == views(args@)[0],
        r.1@ == task_of(views(args@)[0], views(args@).skip(1)),
{
    let name = args[0].clone();
    let words = words_from(args, 1);
    let refresh = has_word(&words, "--refresh");
    let rest = drop_word(&words, "--refresh");
    assert(views(rest@).len() == rest@.len());
    if rest.len() == 0 {
        return (name, Plan::List(refresh));
    }
    assert(views(rest@)[0] == rest@[0]@);
    let first = rest[0].as_str();
    let plan = if same(first, "auth") || same(first, "login") {
        Plan::Auth(has_word(&rest, "--no-browser"))
    } else if same(first, "logout") {
        Plan::Logout
    } else if same(first, "tools") {
        Plan::ListJson(refresh)
    } else if same(first, "--help") || same(first, "-h") || same(first, "help") {
        Plan::Help(refresh)
    } else if same(first, "call") {
        if rest.len() > 1 {
            Plan::Call(rest[1].clone(), words_from(&rest, 2), refresh)
        } else {
            Plan::Misuse(
                Error::plain(concat3("usage: mcp ", name.as_str(), " call <tool> [json]")),
            )
        }
    } else {
        Plan::Call(rest[0].clone(), words_from(&rest, 1), refresh)
    };
    (name, plan)
}

/// The lines that explain the commands for a server.
pub open spec fn usage_lines(name: Seq<char>) -> Seq<Seq<char>> {
    seq![
        "usage: mcp "@ + name + " [tool] [json | --key value]\n"@,
        "  mcp "@ + name + "            list the server's tools"@,
        "  mcp "@ + name + " tools      the same list as raw JSON"@,
        "  mcp "@ + name + " auth       authorize via the browser"@,
        "  mcp "@ + name + " logout     forget the stored credentials"@,
        "  mcp "@ + name + " --refresh  re-read the tool schemas, ignoring the cache\n"@,
    ]
}

/// The lines that explain the commands for a server.
pub fn help_lines(name: &str) -> (r: Vec<String>)
    ensures
        views(r@) == usage_lines(name@),
{
    let mut out: Vec<String> = Vec::new();
    out.push(concat3("usage: mcp ", name, " [tool] [json | --key value]\n"));
    out.push(concat3("  mcp ", name, "            list the server's tools"));
    out.push(concat3("  mcp ", name, " tools      the same list as raw JSON"));
    out.push(concat3("  mcp ", name, " auth       authorize via the browser"));
    out.push(concat3("  mcp ", name, " logout     forget the stored credentials"));
    out.push(concat3("  mcp ", name, " --refresh  re-read the tool schemas, ignoring the cache\n"));
    assert(views(out@) =~= usage_lines(name@));
    out
}

// ---------------------------------------------------------------------------
// Calls of tools
// ---------------------------------------------------------------------------

/// What the arguments of a call are: the mathematical model of [`Input`].
pub enum Given {
    Help,
    Nothing,
    Argument(Seq<char>),
    Flags(Seq<Seq<char>>),
}

/// What the arguments of a call are.
#[derive(Debug, PartialEq)]
pub enum Input {
    /// The call asks for help.
    Help,
    /// There are none.
    Nothing,
    /// One text that is JSON, or says that JSON comes on the input stream.
    Argument(String),
    /// Flags.
    Flags(Vec<String>),
}

impl View for Input {
    type V = Given;

    open spec fn view(&self) -> Given {
        match self {
            Input::Help => Given::Help,
            Input::Nothing => Given::Nothing,
            Input::Argument(text) => Given::Argument(text@),
            Input::Flags(args) => Given::Flags(views(args@)),
        }
    }
}

/// What the arguments of a call are, without `--raw`.
pub open spec fn given(args: Seq<Seq<char>>) -> Given {
    if args.contains("--help"@) || args.contains("-h"@) {
        Given::Help
    } else if args.len() == 0 {
        Given::Nothing
    } else if args.len() == 1 && !begins(args[0], "--"@) {
        Given::Argument(args[0])
    } else {
        Given::Flags(args)
    }
}

/// Whether the words behind a tool ask for the result as it is.
pub open spec fn is_raw(words: Seq<Seq<char>>) -> bool {
    words.contains("--raw"@)
}

/// The arguments that the words behind a tool give, without the word that asks for the
/// result as it is.
pub open spec fn given_behind(words: Seq<Seq<char>>) -> Given {
    given(dropped(words, "--raw"@))
}

/// Whether the result of a call is wanted raw, and what its arguments are.
pub fn call_input(args: &Vec<String>) -> (r: (bool, Input))
    ensures
        r.0 == is_raw(views(args@)),
        r.1@ == given_behind(views(args@)),
{
    let raw = has_word(args, "--raw");
    let rest = drop_word(args, "--raw");
    assert(views(rest@).len() == rest@.len());
    if has_word(&rest, "--help") || has_word(&rest, "-h") {
        return (raw, Input::Help);
    }
    if rest.len() == 0 {
        return (raw, Input::Nothing);
    }
    assert(views(rest@)[0] == rest@[0]@);
    if rest.len() == 1 && !starts_with(rest[0].as_str(), "--") {
        (raw, Input::Argument(rest[0].clone()))
    } else {
        (raw, Input::Flags(rest))
    }
}

/// Where the tools for a call come from.
#[derive(Debug, PartialEq, Eq, Structural, Clone, Copy)]
pub enum ToolSource {
    /// They are not needed.
    Nowhere,
    /// The cache, or the server when it does not have the tool.
    Cache,
    /// The server.
    Server,
}

/// Where the tools for a call come from. They are needed to read flags, and read anew
/// whenever that is asked for.
pub open spec fn source_for(input: Given, refresh: bool) -> ToolSource {
    if refresh {
        ToolSource::Server
    } else if input is Flags {
        ToolSource::Cache
    } else {
        ToolSource::Nowhere
    }
}

/// Where the tools for a call come from.
pub fn tool_source(input: &Input, refresh: bool) -> (r: ToolSource)
    ensures
        r == source_for(input@, refresh),
{
    if refresh {
        return ToolSource::Server;
    }
    match input {
        Input::Flags(_) => ToolSource::Cache,
        _ => ToolSource::Nowhere,
    }
}

/// The cached tools if they may be used: not when they are to be read anew, nor when
/// the tool that is asked for is missing, which means that the list is out of date.
pub open spec fn usable(
    cached: Option<Seq<JsonV>>,
    expect: Option<Seq<char>>,
    refresh: bool,
) -> Option<Seq<JsonV>> {
    match cached {
        Some(tools) => if !refresh && (expect matches Some(tool) ==> tool_named(tools, tool) is Some) {
            Some(tools)
        } else {
            None
        },
        None => None,
    }
}

/// The cached tools if they may be used.
pub fn tools_for(cached: Option<Vec<Json>>, expect: Option<&str>, refresh: bool) -> (r: Option<
    Vec<Json>,
>)
    ensures
        crate::cache::opt_tools(r) == usable(
            crate::cache::opt_tools(cached),
            opt_str(expect),
            refresh,
        ),
        r matches Some(tools) ==> cached == Some(tools),
{
    if refresh {
        return None;
    }
    match cached {
        Some(tools) => {
            let there = match expect {
                Some(tool) => has_tool(&tools, tool),
                None => true,
            };
            if there {
                Some(tools)
            } else {
                None
            }
        },
        None => None,
    }
}

/// The text of the one argument of a call: what came on the input stream for `-`, and
/// otherwise the argument itself.
pub open spec fn argument_text(argument: Seq<char>, stdin: Seq<char>) -> Seq<char> {
    if argument == "-"@ {
        stdin
    } else {
        argument
    }
}

/// The arguments of a call of a tool, which is among `tools` if they are known.
pub open spec fn arguments(
    input: Given,
    stdin: Seq<char>,
    tools: Seq<JsonV>,
    tool: Seq<char>,
) -> Result<JsonV, Fault> {
    match input {
        Given::Argument(argument) => {
            let text = argument_text(argument, stdin);
            json_argument(parsed_json(text), text)
        },
        Given::Flags(args) => flags_object(args, schema_of(tools, tool)),
        _ => Ok(JsonV::Object(seq![])),
    }
}

/// The arguments of a call of a tool, which is among `tools` if they are known.
pub fn call_arguments(input: &Input, stdin: &str, tools: &Vec<Json>, tool: &str) -> (r: Result<
    Json,
    Error,
>)
    requires
        all_wf(tools@),
    ensures
        outcome(r) == arguments(input@, stdin@, json_views(tools@), tool@),
        r matches Ok(v) ==> v@.wf(),
{
    match input {
        Input::Argument(argument) => if reads_stdin(argument.as_str()) {
            parse_json_argument(stdin)
        } else {
            parse_json_argument(argument.as_str())
        },
        Input::Flags(args) => parse_flags(args, input_schema(tools, tool)),
        _ => {
            let table: Table<Json> = Table::new();
            proof {
                object_view(table);
                object_wf(members_view(table@));
                assert(members_view(table@) =~= seq![]);
            }
            Ok(Json::Object(table))
        },
    }
}

/// What is done about a call that failed: the mathematical model of [`AfterFailure`].
pub enum Remedy {
    NameTools(Fault),
    GiveUp(Fault),
}

/// What is done about a call that failed.
#[derive(Debug, PartialEq)]
pub enum AfterFailure {
    /// The server knows no such tool: read its tools anew, and name them.
    NameTools(Error),
    /// Report the error.
    GiveUp(Error),
}

impl View for AfterFailure {
    type V = Remedy;

    open spec fn view(&self) -> Remedy {
        match self {
            AfterFailure::NameTools(e) => Remedy::NameTools(e@),
            AfterFailure::GiveUp(e) => Remedy::GiveUp(e@),
        }
    }
}

/// What is done about a call that failed.
pub open spec fn remedy(error: CallError) -> Remedy {
    match error {
        CallError::Other(e) => if says_unknown(lower_text(e@.headline)) {
            Remedy::NameTools(e@)
        } else {
            Remedy::GiveUp(e@)
        },
        CallError::Unauthorized(_) => Remedy::GiveUp(error.fault()),
    }
}

/// What is done about a call that failed.
pub fn after_failure(error: CallError) -> (r: AfterFailure)
    ensures
        r@ == remedy(error),
{
    match error {
        CallError::Other(e) => if is_unknown_tool(&e) {
            AfterFailure::NameTools(e)
        } else {
            AfterFailure::GiveUp(e)
        },
        other => AfterFailure::GiveUp(other.into_error()),
    }
}

// ---------------------------------------------------------------------------
// Laws
// ---------------------------------------------------------------------------

/// A registered server is found under its name, and the others stay as they were.
pub proof fn an_added_server_is_found(
    servers: Seq<(Seq<char>, Registration)>,
    name: Seq<char>,
    server: Registration,
    other: Seq<char>,
)
    requires
        ascending(servers),
    ensures
        ascending(put(servers, name, server)),
        lookup(put(servers, name, server), name) == Some(server),
        other != name ==> lookup(put(servers, name, server), other) == lookup(servers, other),
{
    put_keeps_order(servers, name, server);
    put_then_lookup(servers, name, server, other);
}

/// A removed server is not found any more, and the others stay as they were.
pub proof fn a_removed_server_is_gone(
    servers: Seq<(Seq<char>, Registration)>,
    name: Seq<char>,
    other: Seq<char>,
)
    requires
        ascending(servers),
    ensures
        ascending(without(servers, name)),
        lookup(without(servers, name), name) is None,
        other != name ==> lookup(without(servers, name), other) == lookup(servers, other),
{
    without_keeps_order(servers, name);
    without_then_lookup(servers, name, other);
}

proof fn dropping_is_local(a: Seq<Seq<char>>, b: Seq<Seq<char>>, word: Seq<char>)
    ensures
        dropped(a + b, word) == dropped(a, word) + dropped(b, word),
    decreases b.len(),
{
    if b.len() == 0 {
        assert(a + b =~= a);
        assert(dropped(a, word) + dropped(b, word) =~= dropped(a, word));
    } else {
        assert((a + b).drop_last() =~= a + b.drop_last());
        assert((a + b).last() == b.last());
        dropping_is_local(a, b.drop_last(), word);
        if b.last() != word {
            assert(dropped(a, word) + dropped(b.drop_last(), word).push(b.last()) =~= (dropped(
                a,
                word,
            ) + dropped(b.drop_last(), word)).push(b.last()));
        }
    }
}

proof fn dropping_nothing(words: Seq<Seq<char>>, word: Seq<char>)
    requires
        !words.contains(word),
    ensures
        dropped(words, word) == words,
    decreases words.len(),
{
    if words.len() > 0 {
        assert(words.contains(words.last()));
        assert forall|i: int| 0 <= i < words.drop_last().len() implies words.drop_last()[i] != word by {
            assert(words.contains(words[i]));
        }
        dropping_nothing(words.drop_last(), word);
        assert(words.drop_last().push(words.last()) =~= words);
    } else {
        assert(words =~= seq![]);
    }
}

/// `--refresh` means the same wherever it stands: the command is that of the other
/// words, with the tools read anew.
pub proof fn refresh_may_stand_anywhere(
    name: Seq<char>,
    before: Seq<Seq<char>>,
    behind: Seq<Seq<char>>,
)
    ensures
        task_of(name, before.push("--refresh"@) + behind) == task(
            name,
            dropped(before + behind, "--refresh"@),
            true,
        ),
{
    let word = "--refresh"@;
    let words = before.push(word) + behind;
    assert(words[before.len() as int] == word);
    assert(words.contains(word));
    dropping_is_local(before.push(word), behind, word);
    dropping_is_local(before, behind, word);
    assert(before.push(word).drop_last() =~= before);
}

/// `call` reaches every tool, also one whose name is a command.
pub proof fn call_reaches_every_tool(
    name: Seq<char>,
    tool: Seq<char>,
    args: Seq<Seq<char>>,
)
    requires
        tool != "--refresh"@,
        !args.contains("--refresh"@),
    ensures
        task_of(name, seq!["call"@, tool] + args) == Task::Call(tool, args, false),
{
    reveal_strlit("call");
    reveal_strlit("--refresh");
    reveal_strlit("auth");
    reveal_strlit("login");
    reveal_strlit("logout");
    reveal_strlit("tools");
    reveal_strlit("--help");
    reveal_strlit("-h");
    reveal_strlit("help");
    assert("call"@.len() == 4 && "call"@[0] == 'c');
    assert("--refresh"@.len() == 9);
    assert("auth"@[0] == 'a');
    assert("login"@.len() == 5);
    assert("logout"@.len() == 6);
    assert("tools"@.len() == 5);
    assert("--help"@.len() == 6);
    assert("-h"@.len() == 2);
    assert("help"@[0] == 'h');
    let words = seq!["call"@, tool] + args;
    assert forall|i: int| 0 <= i < words.len() implies words[i] != "--refresh"@ by {
        if i >= 2 {
            assert(args.contains(args[i - 2]));
            assert(words[i] == args[i - 2]);
        }
    }
    dropping_nothing(words, "--refresh"@);
    assert(words[0] == "call"@);
    assert(words[1] == tool);
    assert(words.skip(2) =~= args);
}

/// Reserved words are commands, whatever tools a server has and whatever words stand
/// behind them.
pub proof fn reserved_words_are_commands(name: Seq<char>, words: Seq<Seq<char>>, word: Seq<char>)
    requires
        word == "auth"@ || word == "logout"@ || word == "tools"@ || word == "help"@,
        dropped(words, "--refresh"@).len() > 0,
        dropped(words, "--refresh"@)[0] == word,
    ensures
        !(task_of(name, words) is Call),
        !(task_of(name, words) is Misuse),
        word == "tools"@ ==> task_of(name, words) == Task::ListJson(words.contains("--refresh"@)),
{
    reveal_strlit("auth");
    reveal_strlit("login");
    reveal_strlit("logout");
    reveal_strlit("tools");
    assert("auth"@.len() == 4);
    assert("tools"@.len() == 5);
    assert("logout"@.len() == 6);
    assert("login"@[0] == 'l');
    assert("tools"@[0] == 't');
}

/// Any other word is the name of a tool, and the words behind it are its arguments.
pub proof fn any_other_word_is_a_tool(name: Seq<char>, words: Seq<Seq<char>>)
    requires
        dropped(words, "--refresh"@).len() > 0,
        ({
            let word = dropped(words, "--refresh"@)[0];
            &&& word != "auth"@ && word != "login"@ && word != "logout"@
            &&& word != "tools"@ && word != "help"@ && word != "call"@
            &&& word != "--help"@ && word != "-h"@
        }),
    ensures
        ({
            let rest = dropped(words, "--refresh"@);
            task_of(name, words) == Task::Call(
                rest[0],
                rest.skip(1),
                words.contains("--refresh"@),
            )
        }),
{
}

/// A tool that is missing from the cached list is looked for on the server.
pub proof fn a_missing_tool_is_looked_for(tools: Seq<JsonV>, tool: Seq<char>, refresh: bool)
    requires
        tool_named(tools, tool) is None,
    ensures
        usable(Some(tools), Some(tool), refresh) is None,
{
}

/// When the tools are to be read anew the cache is not used, for listing them nor for
/// any call.
pub proof fn refresh_passes_the_cache_by(
    cached: Option<Seq<JsonV>>,
    expect: Option<Seq<char>>,
    input: Given,
)
    ensures
        usable(cached, expect, true) is None,
        source_for(input, true) == ToolSource::Server,
{
}

/// A cached list is enough to list the tools of a server.
pub proof fn a_warm_cache_needs_no_server(tools: Seq<JsonV>)
    ensures
        usable(Some(tools), None, false) == Some(tools),
{
}

/// A header is written as a name and a value with a colon between them, the first where
/// there are several; the space around both does not count.
pub proof fn headers_are_written_with_a_colon(name: Seq<char>, value: Seq<char>)
    requires
        !name.contains(':'),
    ensures
        header_in(name + seq![':'] + value) == Ok::<(Seq<char>, Seq<char>), Fault>(
            (trim(name), trim(value)),
        ),
        header_in(name) == Err::<(Seq<char>, Seq<char>), Fault>(
            plain("invalid header "@ + quoted(name) + ", expected 'Name: value'"@),
        ),
{
    a_text_is_split_at_the_first_sign(name, ':', value);
}

/// Headers are taken one after another, a later one in the place of an earlier one with
/// its name; one that is badly written refuses them all.
pub proof fn headers_are_taken_one_by_one(
    headers: Seq<Seq<char>>,
    before: Seq<(Seq<char>, Seq<char>)>,
    text: Seq<char>,
    name: Seq<char>,
    value: Seq<char>,
    e: Fault,
)
    ensures
        headers_in(seq![]) == Ok::<Seq<(Seq<char>, Seq<char>)>, Fault>(seq![]),
        headers_in(headers) == Ok::<Seq<(Seq<char>, Seq<char>)>, Fault>(before) && header_in(text) == Ok::<
            (Seq<char>, Seq<char>),
            Fault,
        >((name, value)) ==> headers_in(headers.push(text)) == Ok::<Seq<(Seq<char>, Seq<char>)>, Fault>(
            put(before, name, value),
        ),
        headers_in(headers) is Ok && header_in(text) == Err::<(Seq<char>, Seq<char>), Fault>(e)
            ==> headers_in(headers.push(text)) == Err::<Seq<(Seq<char>, Seq<char>)>, Fault>(e),
        headers_in(headers) == Err::<Seq<(Seq<char>, Seq<char>)>, Fault>(e) ==> headers_in(
            headers.push(text),
        ) == Err::<Seq<(Seq<char>, Seq<char>)>, Fault>(e),
{
    assert(headers.push(text).drop_last() =~= headers);
}

/// A server is registered with its address as it was written and with its headers; a
/// complaint about the address refuses it first.
pub proof fn servers_keep_their_address(
    complaint: Seq<char>,
    url: Seq<char>,
    headers: Seq<Seq<char>>,
    taken: Seq<(Seq<char>, Seq<char>)>,
    e: Fault,
)
    ensures
        server_in(Some(complaint), url, headers) == Err::<Registration, Fault>(
            because("invalid URL: "@ + url, complaint),
        ),
        headers_in(headers) == Ok::<Seq<(Seq<char>, Seq<char>)>, Fault>(taken) ==> server_in(
            None,
            url,
            headers,
        ) == Ok::<Registration, Fault>(Registration { url, headers: taken }),
        headers_in(headers) == Err::<Seq<(Seq<char>, Seq<char>)>, Fault>(e) ==> server_in(
            None,
            url,
            headers,
        ) == Err::<Registration, Fault>(e),
{
}

/// A server that is not there is reported with those that are, or with the way to add it
/// where there are none.
pub proof fn missing_servers_are_reported_with_the_others(name: Seq<char>, known: Seq<Seq<char>>)
    ensures
        known.len() > 0 ==> no_such_server(name, known) == plain(
            "no such server: "@ + name + ". Known servers: "@ + joined(known, ", "@),
        ),
        no_such_server(name, seq![]) == plain(
            "no such server: "@ + name + ". Add one with: mcp add "@ + name + " --url <url>"@,
        ),
{
}

/// The status of a server tells whether it holds a token, whether that has expired, and
/// whether it can then be refreshed; without a token it tells whether there are headers.
pub proof fn the_status_tells_of_the_token(server: Registration, grant: Grant, now: u64)
    ensures
        grant.access_token is Some && grant.expires_at is None ==> status(server, Some(grant), now)
            == "authenticated"@,
        grant.access_token is Some && (grant.expires_at matches Some(exp) && now + 60 < exp) ==> status(
            server,
            Some(grant),
            now,
        ) == "authenticated"@,
        grant.access_token is Some && (grant.expires_at matches Some(exp) && now + 60 >= exp)
            && grant.refresh_token is Some ==> status(server, Some(grant), now)
            == "authenticated (expired, will refresh)"@,
        grant.access_token is Some && (grant.expires_at matches Some(exp) && now + 60 >= exp)
            && grant.refresh_token is None ==> status(server, Some(grant), now) == "expired"@,
        grant.access_token is None ==> status(server, Some(grant), now) == status(server, None, now),
        server.headers.len() > 0 ==> status(server, None, now) == "static headers"@,
        server.headers.len() == 0 ==> status(server, None, now) == "not authenticated"@,
{
}

/// The column of the names is as wide as the longest of them.
pub proof fn the_column_fits_the_longest_name(names: Seq<Seq<char>>)
    ensures
        forall|i: int| 0 <= i < names.len() ==> bytes_in(#[trigger] names[i]) <= widest(names),
        names.len() > 0 ==> exists|i: int|
            0 <= i < names.len() && bytes_in(#[trigger] names[i]) == widest(names),
        names.len() == 0 ==> widest(names) == 0,
    decreases names.len(),
{
    if names.len() > 0 {
        let before = names.drop_last();
        the_column_fits_the_longest_name(before);
        let last = names.len() - 1;
        assert(names[last] == names.last());
        assert forall|i: int| 0 <= i < names.len() implies bytes_in(#[trigger] names[i]) <= widest(
            names,
        ) by {
            if i < last {
                assert(before[i] == names[i]);
            }
        }
        if bytes_in(names.last()) > widest(before) {
            assert(bytes_in(names[last]) == widest(names));
        } else if before.len() > 0 {
            let i = choose|i: int|
                0 <= i < before.len() && bytes_in(#[trigger] before[i]) == widest(before);
            assert(bytes_in(names[i]) == widest(names));
        } else {
            assert(bytes_in(names[last]) == widest(names));
        }
    }
}

/// Every registered server takes a line of the list, in their order: its name, its
/// address, and the status that its own credentials give.
pub proof fn every_server_is_listed(
    servers: Seq<(Seq<char>, Registration)>,
    credentials: Seq<(Seq<char>, Grant)>,
    now: u64,
    i: int,
)
    requires
        0 <= i < servers.len(),
    ensures
        servers_page(servers, credentials, now).out.len() == servers.len(),
        servers_page(servers, credentials, now).err.len() == 0,
        servers_page(servers, credentials, now).out[i] == padded(servers[i].0, widest(keys(servers)))
            + "  "@ + servers[i].1.url + "  ["@ + status(
            servers[i].1,
            lookup(credentials, servers[i].0),
            now,
        ) + "]"@,
{
}

/// Without servers the list says how to add one.
pub proof fn an_empty_list_says_how_to_begin(credentials: Seq<(Seq<char>, Grant)>, now: u64)
    ensures
        servers_page(seq![], credentials, now).out.len() == 0,
        servers_page(seq![], credentials, now).err == seq![
            "No servers yet. Add one with: mcp add <name> --url <url>"@,
        ],
{
}

/// A word is dropped wherever it stands, and the others stay in their order.
pub proof fn other_words_stay_in_order(words: Seq<Seq<char>>, word: Seq<char>, other: Seq<char>)
    ensures
        dropped(seq![], word).len() == 0,
        dropped(words.push(word), word) == dropped(words, word),
        other != word ==> dropped(words.push(other), word) == dropped(words, word).push(other),
{
    assert(words.push(word).drop_last() =~= words);
    assert(words.push(other).drop_last() =~= words);
}

/// The first word behind the name of a server that is not `--refresh` is the command:
/// none lists the tools, `auth` and `login` authorize, in a browser unless that is
/// forbidden, `logout` forgets the credentials, `tools` lists the tools as JSON, and
/// `help` in any form explains the commands.
pub proof fn the_first_word_is_the_command(name: Seq<char>, words: Seq<Seq<char>>)
    ensures
        ({
            let rest = dropped(words, "--refresh"@);
            let refresh = words.contains("--refresh"@);
            &&& rest.len() == 0 ==> task_of(name, words) == Task::List(refresh)
            &&& rest.len() > 0 && (rest[0] == "auth"@ || rest[0] == "login"@) ==> task_of(name, words)
                == Task::Auth(rest.contains("--no-browser"@))
            &&& rest.len() > 0 && rest[0] == "logout"@ ==> task_of(name, words) == Task::Logout
            &&& rest.len() > 0 && rest[0] == "tools"@ ==> task_of(name, words) == Task::ListJson(refresh)
            &&& rest.len() > 0 && (rest[0] == "help"@ || rest[0] == "--help"@ || rest[0] == "-h"@)
                ==> task_of(name, words) == Task::Help(refresh)
            &&& rest.len() == 1 && rest[0] == "call"@ ==> task_of(name, words) == Task::Misuse(
                plain("usage: mcp "@ + name + " call <tool> [json]"@),
            )
            &&& rest.len() > 1 && rest[0] == "call"@ ==> task_of(name, words) == Task::Call(
                rest[1],
                rest.skip(2),
                refresh,
            )
        }),
{
    reveal_strlit("auth");
    reveal_strlit("login");
    reveal_strlit("logout");
    reveal_strlit("tools");
    reveal_strlit("--help");
    reveal_strlit("-h");
    reveal_strlit("help");
    reveal_strlit("call");
    reveal_strlit("--refresh");
    reveal_strlit("--no-browser");
    assert("auth"@.len() == 4 && "auth"@[0] == 'a');
    assert("login"@.len() == 5 && "login"@[0] == 'l');
    assert("logout"@.len() == 6 && "logout"@[0] == 'l');
    assert("tools"@.len() == 5 && "tools"@[0] == 't');
    assert("--help"@.len() == 6 && "--help"@[0] == '-');
    assert("-h"@.len() == 2);
    assert("help"@.len() == 4 && "help"@[0] == 'h');
    assert("call"@.len() == 4 && "call"@[0] == 'c');
    assert("--refresh"@.len() == 9);
    assert("--no-browser"@.len() == 12);
}

/// The help for a server names each of its commands once.
pub proof fn help_names_the_commands(name: Seq<char>)
    ensures
        usage_lines(name).len() == 6,
        usage_lines(name)[0] == "usage: mcp "@ + name + " [tool] [json | --key value]\n"@,
        usage_lines(name)[1] == "  mcp "@ + name + "            list the server's tools"@,
        usage_lines(name)[2] == "  mcp "@ + name + " tools      the same list as raw JSON"@,
        usage_lines(name)[3] == "  mcp "@ + name + " auth       authorize via the browser"@,
        usage_lines(name)[4] == "  mcp "@ + name + " logout     forget the stored credentials"@,
        usage_lines(name)[5] == "  mcp "@ + name
            + " --refresh  re-read the tool schemas, ignoring the cache\n"@,
{
}

/// A call asks for help if it says so anywhere; else its arguments are none, one text
/// that is no flag, or flags.
pub proof fn arguments_are_told_apart(args: Seq<Seq<char>>, text: Seq<char>)
    ensures
        args.contains("--help"@) || args.contains("-h"@) ==> given(args) == Given::Help,
        given(seq![]) == Given::Nothing,
        text != "-h"@ && !begins(text, "--"@) ==> given(seq![text]) == Given::Argument(text),
        text != "--help"@ && begins(text, "--"@) ==> given(seq![text]) == Given::Flags(seq![text]),
        args.len() > 1 && !args.contains("--help"@) && !args.contains("-h"@) ==> given(args)
            == Given::Flags(args),
{
    reveal_strlit("--help");
    reveal_strlit("-h");
    reveal_strlit("--");
    assert("--help"@.len() == 6);
    assert("-h"@.len() == 2 && "-h"@[1] == 'h');
    assert("--"@.len() == 2 && "--"@[1] == '-');
    assert(seq![text][0] == text);
    a_beginning_is_a_prefix("--help"@, "--"@, "help"@);
    reveal_strlit("help");
    assert("--"@ + "help"@ =~= "--help"@);
    if seq![text].contains("--help"@) {
        assert(text == "--help"@);
    }
    if seq![text].contains("-h"@) {
        assert(text == "-h"@);
    }
    a_beginning_is_a_prefix("-h"@, "--"@, seq![]);
    if begins("-h"@, "--"@) {
        assert("-h"@ == "--"@ + "-h"@.skip(2));
        assert("-h"@[1] == "--"@[1]);
    }
}

/// Flags need the tools, which the cache may give unless they are to be read anew;
/// other arguments need none.
pub proof fn flags_need_the_tools(args: Seq<Seq<char>>, text: Seq<char>)
    ensures
        source_for(Given::Flags(args), false) == ToolSource::Cache,
        source_for(Given::Argument(text), false) == ToolSource::Nowhere,
        source_for(Given::Nothing, false) == ToolSource::Nowhere,
        source_for(Given::Flags(args), true) == ToolSource::Server,
        source_for(Given::Argument(text), true) == ToolSource::Server,
        source_for(Given::Nothing, true) == ToolSource::Server,
{
}

/// A cached list that has the tool is used as it is, and without a cached list there is
/// nothing to use.
pub proof fn a_cached_tool_is_used(tools: Seq<JsonV>, tool: Seq<char>, expect: Option<Seq<char>>, i: int)
    ensures
        0 <= i < tools.len() && tools[i].get("name"@) == Some(JsonV::Text(tool)) ==> usable(
            Some(tools),
            Some(tool),
            false,
        ) == Some(tools),
        usable(None, expect, false) is None,
{
    a_found_tool_bears_its_name(tools, tool);
}

/// A single dash stands for the text on the input stream, any other argument for itself.
pub proof fn a_dash_stands_for_the_input(argument: Seq<char>, stdin: Seq<char>)
    ensures
        argument_text("-"@, stdin) == stdin,
        argument != "-"@ ==> argument_text(argument, stdin) == argument,
{
}

/// The arguments of a call are what the JSON says, what the flags say by the schema of
/// the tool, or an empty object.
pub proof fn arguments_come_from_what_is_given(
    argument: Seq<char>,
    args: Seq<Seq<char>>,
    stdin: Seq<char>,
    tools: Seq<JsonV>,
    tool: Seq<char>,
)
    ensures
        argument != "-"@ ==> arguments(Given::Argument(argument), stdin, tools, tool) == json_argument(
            parsed_json(argument),
            argument,
        ),
        arguments(Given::Argument("-"@), stdin, tools, tool) == json_argument(
            parsed_json(stdin),
            stdin,
        ),
        arguments(Given::Flags(args), stdin, tools, tool) == flags_object(args, schema_of(tools, tool)),
        arguments(Given::Nothing, stdin, tools, tool) == Ok::<JsonV, Fault>(JsonV::Object(seq![])),
{
}

/// Only an error that denies the tool leads to the names of those that there are; any
/// other error, and a refusal of access, is reported.
pub proof fn other_failures_are_reported(e: Error, refusal: Unauthorized)
    ensures
        says_unknown(lower_text(e@.headline)) ==> remedy(CallError::Other(e)) == Remedy::NameTools(e@),
        !says_unknown(lower_text(e@.headline)) ==> remedy(CallError::Other(e)) == Remedy::GiveUp(e@),
        remedy(CallError::Unauthorized(refusal)) == Remedy::GiveUp(plain("unauthorized"@)),
{
}

/// The result is asked for as it is exactly by one word, which may stand anywhere among
/// the arguments and is none of them.
pub proof fn raw_results_are_asked_for_by_a_word(before: Seq<Seq<char>>, behind: Seq<Seq<char>>, words: Seq<Seq<char>>)
    ensures
        is_raw(before.push("--raw"@) + behind),
        given_behind(before.push("--raw"@) + behind) == given_behind(before + behind),
        !words.contains("--raw"@) ==> !is_raw(words) && given_behind(words) == given(words),
{
    let word = "--raw"@;
    let all = before.push(word) + behind;
    assert(all[before.len() as int] == word);
    dropping_is_local(before.push(word), behind, word);
    dropping_is_local(before, behind, word);
    other_words_stay_in_order(before, word, word);
    if !words.contains(word) {
        dropping_nothing(words, word);
    }
}

/// A server that is not registered cannot be removed, and is named in the error.
pub proof fn only_registered_servers_are_removed(name: Seq<char>)
    ensures
        not_registered(name).message() == "no such server: "@ + name,
{
}

/// Plans, arguments and what follows a failure are seen as they are.
pub proof fn plans_are_seen_as_they_are(flag: bool, text: String, words: Vec<String>, e: Error)
    ensures
        Plan::List(flag)@ == Task::List(flag) && Plan::ListJson(flag)@ == Task::ListJson(flag),
        Plan::Auth(flag)@ == Task::Auth(flag) && Plan::Logout@ == Task::Logout,
        Plan::Help(flag)@ == Task::Help(flag) && Plan::Misuse(e)@ == Task::Misuse(e@),
        Plan::Call(text, words, flag)@ == Task::Call(text@, views(words@), flag),
        Input::Help@ == Given::Help && Input::Nothing@ == Given::Nothing,
        Input::Argument(text)@ == Given::Argument(text@),
        Input::Flags(words)@ == Given::Flags(views(words@)),
        AfterFailure::NameTools(e)@ == Remedy::NameTools(e@),
        AfterFailure::GiveUp(e)@ == Remedy::GiveUp(e@),
{
}

} // verus!
