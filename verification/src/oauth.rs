//! OAuth for MCP: registration of a client, authorization in the browser, and the
//! tokens that come of it.

use vstd::prelude::*;
use vstd::string::*;
use vstd::utf8::encode_utf8;

use crate::address::{carries, extend_query, extended_in, pair_views, Trouble};
use crate::config::{copy_text, no_grant, Credentials, Grant};
use crate::discovery::{own_text, AuthServer, Authority};
use crate::error::{because, plain, Error, Fault};
use crate::http::{is_success, show_status, status_text, succeeded};
use crate::json::{
    array_view, array_wf, json_views, parse_json, parse_view, parsed_json, Json, JsonNumber, JsonV,
};
use crate::numeral::{decimal, show_u64};
use crate::rpc::{object, object_with, objects_hold_their_pairs, pairs_view, text_json};
use crate::text::{
    chars_of, concat, concat3, is_text, opt_str, opt_view, string_of, trim, trim_text,
};

verus! {

// ---------------------------------------------------------------------------
// Registering a client
// ---------------------------------------------------------------------------

/// A list of texts.
pub open spec fn text_list(texts: Seq<Seq<char>>) -> JsonV {
    JsonV::Array(texts.map_values(|s: Seq<char>| JsonV::Text(s)))
}

/// What a client says of itself when it registers.
pub open spec fn registration(redirect_uri: Seq<char>, scope: Option<Seq<char>>) -> JsonV {
    let pairs = seq![
        ("client_name"@, JsonV::Text("mcp-cli"@)),
        ("redirect_uris"@, text_list(seq![redirect_uri])),
        ("grant_types"@, text_list(seq!["authorization_code"@, "refresh_token"@])),
        ("response_types"@, text_list(seq!["code"@])),
        ("token_endpoint_auth_method"@, JsonV::Text("none"@)),
    ];
    match scope {
        Some(scope) => object_with(pairs.push(("scope"@, JsonV::Text(scope)))),
        None => object_with(pairs),
    }
}

fn list_one(text: &str) -> (r: Json)
    ensures
        r@ == text_list(seq![text@]),
        r@.wf(),
{
    let items: Vec<Json> = vec![text_json(text)];
    proof {
        array_view(items);
        array_wf(json_views(items@));
        assert(json_views(items@) =~= seq![text@].map_values(|s: Seq<char>| JsonV::Text(s)));
    }
    Json::Array(items)
}

fn list_two(a: &str, b: &str) -> (r: Json)
    ensures
        r@ == text_list(seq![a@, b@]),
        r@.wf(),
{
    let items: Vec<Json> = vec![text_json(a), text_json(b)];
    proof {
        array_view(items);
        array_wf(json_views(items@));
        assert(json_views(items@) =~= seq![a@, b@].map_values(|s: Seq<char>| JsonV::Text(s)));
    }
    Json::Array(items)
}

/// Makes what a client says of itself when it registers.
pub fn registration_body(redirect_uri: &str, scope: Option<&str>) -> (r: Json)
    ensures
        r@ == registration(redirect_uri@, opt_str(scope)),
        r@.wf(),
{
    let mut pairs: Vec<(&str, Json)> = vec![
        ("client_name", text_json("mcp-cli")),
        ("redirect_uris", list_one(redirect_uri)),
        ("grant_types", list_two("authorization_code", "refresh_token")),
        ("response_types", list_one("code")),
        ("token_endpoint_auth_method", text_json("none")),
    ];
    let ghost basic = seq![
        ("client_name"@, JsonV::Text("mcp-cli"@)),
        ("redirect_uris"@, text_list(seq![redirect_uri@])),
        ("grant_types"@, text_list(seq!["authorization_code"@, "refresh_token"@])),
        ("response_types"@, text_list(seq!["code"@])),
        ("token_endpoint_auth_method"@, JsonV::Text("none"@)),
    ];
    assert(pairs_view(pairs@) =~= basic);
    if let Some(scope) = scope {
        pairs.push(("scope", text_json(scope)));
        assert(pairs_view(pairs@) =~= basic.push(("scope"@, JsonV::Text(scope@))));
    }
    object(pairs)
}

/// What a registration gave: the identifier of the client, and its secret if it has
/// one. `parsed` is what reading the body as JSON gave, `status` how the status is
/// shown.
pub open spec fn registered(
    success: bool,
    status: Seq<char>,
    text: Seq<char>,
    parsed: Result<JsonV, Seq<char>>,
) -> Result<(Seq<char>, Option<Seq<char>>), Fault> {
    if !success {
        Err(plain("client registration failed ("@ + status + "): "@ + trim(text)))
    } else {
        match parsed {
            Err(e) => Err(because("parsing registration response: "@ + trim(text), e)),
            Ok(value) => match value.text_at("client_id"@) {
                None => Err(plain("registration response has no client_id"@)),
                Some(id) => Ok((id, value.text_at("client_secret"@))),
            },
        }
    }
}

/// The view of what a registration gave.
pub open spec fn registered_view(r: Result<(String, Option<String>), Error>) -> Result<
    (Seq<char>, Option<Seq<char>>),
    Fault,
> {
    match r {
        Ok((id, secret)) => Ok((id@, opt_view(secret))),
        Err(e) => Err(e@),
    }
}

/// The error of a request that was answered with no success.
fn refused(what: &str, status: &str, text: &str) -> (r: Error)
    ensures
        r@ == plain(what@ + " ("@ + status@ + "): "@ + trim(text@)),
{
    let mut headline = concat3(what, " (", status);
    headline.append("): ");
    headline.append(trim_text(text).as_str());
    Error::plain(headline)
}

/// What a registration gave, from what reading the body as JSON gave and how the
/// status is shown.
pub fn registered_with(
    success: bool,
    status: &str,
    text: &str,
    parsed: Result<Json, String>,
) -> (r: Result<(String, Option<String>), Error>)
    ensures
        registered_view(r) == registered(success, status@, text@, parse_view(parsed)),
{
    if !success {
        let e = refused("client registration failed", status, text);
        proof {
            reveal_strlit("client registration failed");
            reveal_strlit(" (");
            reveal_strlit("client registration failed (");
            assert("client registration failed"@ + " ("@ =~= "client registration failed ("@);
        }
        return Err(e);
    }
    match parsed {
        Err(e) => {
            let headline = concat("parsing registration response: ", trim_text(text).as_str());
            Err(Error::because(headline, e))
        },
        Ok(value) => match own_text(&value, "client_id") {
            None => Err(Error::plain("registration response has no client_id".to_owned())),
            Some(id) => Ok((id, own_text(&value, "client_secret"))),
        },
    }
}

/// What a registration gave, from the status and the body of the answer.
pub fn read_registration(status: u16, text: &str) -> (r: Result<(String, Option<String>), Error>)
    ensures
        registered_view(r) == registered(
            is_success(status),
            status_text(status),
            text@,
            parsed_json(text@),
        ),
{
    registered_with(succeeded(status), show_status(status).as_str(), text, parse_json(text))
}

/// Which client asks for authorization.
pub enum ClientChoice {
    /// One that was registered before, with its secret if it has one.
    Known(String, Option<String>),
    /// One that is to be registered at an endpoint.
    Register(String),
}

/// Which client asks for authorization: the mathematical model of [`ClientChoice`].
pub enum Applicant {
    Known(Seq<char>, Option<Seq<char>>),
    Register(Seq<char>),
}

impl View for ClientChoice {
    type V = Applicant;

    open spec fn view(&self) -> Applicant {
        match self {
            ClientChoice::Known(id, secret) => Applicant::Known(id@, opt_view(*secret)),
            ClientChoice::Register(endpoint) => Applicant::Register(endpoint@),
        }
    }
}

/// Which client asks an authorization server: the one registered before if the
/// server has not moved, and otherwise a new one.
pub open spec fn applicant(existing: Grant, server: Authority) -> Result<Applicant, Fault> {
    if existing.client_id is Some && existing.token_endpoint == Some(server.token_endpoint) {
        Ok(Applicant::Known(existing.client_id->0, existing.client_secret))
    } else {
        match server.registration_endpoint {
            Some(endpoint) => Ok(Applicant::Register(endpoint)),
            None => Err(
                plain(
                    "authorization server does not support dynamic client registration; no client_id available"@,
                ),
            ),
        }
    }
}

/// Which client asks an authorization server.
pub fn choose_client(existing: &Credentials, server: &AuthServer) -> (r: Result<ClientChoice, Error>)
    ensures
        match (r, applicant(existing@, server@)) {
            (Ok(choice), Ok(who)) => choice@ == who,
            (Err(e), Err(fault)) => e@ == fault,
            _ => false,
        },
{
    if is_text(&existing.token_endpoint, server.token_endpoint.as_str()) {
        if let Some(id) = &existing.client_id {
            return Ok(ClientChoice::Known(id.clone(), copy_text(&existing.client_secret)));
        }
    }
    match &server.registration_endpoint {
        Some(endpoint) => Ok(ClientChoice::Register(endpoint.clone())),
        None => Err(
            Error::plain(
                "authorization server does not support dynamic client registration; no client_id available".to_owned(),
            ),
        ),
    }
}

// ---------------------------------------------------------------------------
// Secrets
// ---------------------------------------------------------------------------

/// The SHA-256 hash of bytes.
pub uninterp spec fn sha256(bytes: Seq<u8>) -> Seq<u8>;

/// Bytes in the alphabet of Base64 that is safe in addresses, without padding.
pub uninterp spec fn base64url(bytes: Seq<u8>) -> Seq<char>;

/// Whether a character belongs to the alphabet of Base64 that is safe in addresses.
pub open spec fn base64_char(c: char) -> bool {
    'a' <= c <= 'z' || 'A' <= c <= 'Z' || '0' <= c <= '9' || c == '-' || c == '_'
}

/// `Sha256::digest`: the hash of bytes, which has 32 bytes.
#[verifier::external_body]
fn hash(bytes: &[u8]) -> (r: Vec<u8>)
    ensures
        r@ == sha256(bytes@),
        r@.len() == 32,
{
    <sha2::Sha256 as sha2::Digest>::digest(bytes).to_vec()
}

/// `Engine::encode` of `URL_SAFE_NO_PAD`: four characters for three bytes, and at the
/// end two for one or three for two. It does not return when the length of the
/// result cannot be counted.
#[verifier::external_body]
fn encode(bytes: &[u8]) -> (r: String)
    requires
        bytes@.len() <= 0x0fff_ffff,
    ensures
        r@ == base64url(bytes@),
        r@.len() == (4 * bytes@.len() + 2) / 3,
        forall|i: int| 0 <= i < r@.len() ==> base64_char(#[trigger] r@[i]),
{
    base64::Engine::encode(&base64::engine::general_purpose::URL_SAFE_NO_PAD, bytes)
}

/// A secret of the client, and what it shows of it beforehand.
#[derive(Debug, PartialEq)]
pub struct Pkce {
    pub verifier: String,
    pub challenge: String,
}

/// What a client shows of its secret beforehand.
pub open spec fn challenge_of(verifier: Seq<char>) -> Seq<char> {
    base64url(sha256(encode_utf8(verifier)))
}

/// The proof that belongs to a secret.
pub fn pkce_for(verifier: String) -> (r: Pkce)
    ensures
        r.verifier@ == verifier@,
        r.challenge@ == challenge_of(verifier@),
        r.challenge@.len() == 43,
        forall|i: int| 0 <= i < r.challenge@.len() ==> base64_char(#[trigger] r.challenge@[i]),
{
    let challenge = encode(hash(verifier.as_str().as_bytes()).as_slice());
    Pkce { verifier, challenge }
}

/// The characters of which secrets are made. They stand in addresses as they are.
pub open spec fn alphabet() -> Seq<char> {
    "ABCDEFGHIJKLMNOPQRSTUVWXYZabcdefghijklmnopqrstuvwxyz0123456789-._~"@
}

/// `Rng::gen_range` of `thread_rng`: any number below the bound.
#[verifier::external_body]
fn random_below(n: usize) -> (r: usize)
    requires
        n > 0,
    ensures
        r < n,
{
    rand::Rng::gen_range(&mut rand::thread_rng(), 0..n)
}

/// The secret that picks from the alphabet spell.
pub open spec fn spelt(picks: Seq<usize>) -> Seq<char> {
    picks.map_values(|p: usize| alphabet()[p as int])
}

/// Spells the secret that picks from the alphabet make.
pub fn spell(picks: &Vec<usize>) -> (r: String)
    requires
        forall|i: int| 0 <= i < picks@.len() ==> (#[trigger] picks@[i]) < 66,
    ensures
        r@ == spelt(picks@),
{
    let letters = chars_of("ABCDEFGHIJKLMNOPQRSTUVWXYZabcdefghijklmnopqrstuvwxyz0123456789-._~");
    proof {
        alphabet_has_66();
    }
    let mut out: Vec<char> = Vec::new();
    let mut i: usize = 0;
    while i < picks.len()
        invariant
            forall|k: int| 0 <= k < picks@.len() ==> (#[trigger] picks@[k]) < 66,
            letters@ == alphabet(),
            alphabet().len() == 66,
            i <= picks@.len(),
            out@ =~= spelt(picks@).take(i as int),
        decreases picks@.len() - i,
    {
        out.push(letters[picks[i]]);
        i += 1;
    }
    assert(out@ =~= spelt(picks@));
    string_of(out.as_slice())
}

proof fn alphabet_has_66()
    ensures
        alphabet().len() == 66,
{
    reveal_strlit("ABCDEFGHIJKLMNOPQRSTUVWXYZabcdefghijklmnopqrstuvwxyz0123456789-._~");
}

/// Whether a text is made of the given number of characters of the alphabet.
pub open spec fn is_secret(s: Seq<char>, len: nat) -> bool {
    s.len() == len && forall|i: int| 0 <= i < s.len() ==> alphabet().contains(#[trigger] s[i])
}

/// A text of random characters of the alphabet.
pub fn random_string(len: usize) -> (r: String)
    ensures
        is_secret(r@, len as nat),
{
    let mut picks: Vec<usize> = Vec::new();
    while picks.len() < len
        invariant
            picks@.len() <= len,
            forall|k: int| 0 <= k < picks@.len() ==> (#[trigger] picks@[k]) < 66,
        decreases len - picks@.len(),
    {
        picks.push(random_below(66));
    }
    let r = spell(&picks);
    proof {
        alphabet_has_66();
        assert forall|i: int| 0 <= i < r@.len() implies alphabet().contains(#[trigger] r@[i]) by {
            assert(r@[i] == alphabet()[picks@[i] as int]);
        }
    }
    r
}

/// A new secret of 64 characters, and what is shown of it beforehand.
pub fn pkce() -> (r: Pkce)
    ensures
        is_secret(r.verifier@, 64),
        r.challenge@ == challenge_of(r.verifier@),
        r.challenge@.len() == 43,
        forall|i: int| 0 <= i < r.challenge@.len() ==> base64_char(#[trigger] r.challenge@[i]),
{
    pkce_for(random_string(64))
}

// ---------------------------------------------------------------------------
// Asking for authorization
// ---------------------------------------------------------------------------

/// Where the browser brings the answer of the authorization server.
pub open spec fn callback_address(port: u16) -> Seq<char> {
    "http://127.0.0.1:"@ + decimal(port as nat) + "/callback"@
}

/// Where the browser brings the answer of the authorization server.
pub fn redirect_uri(port: u16) -> (r: String)
    ensures
        r@ == callback_address(port),
{
    concat3("http://127.0.0.1:", show_u64(port as u64).as_str(), "/callback")
}

/// What the authorization server is asked.
pub open spec fn question(
    client_id: Seq<char>,
    redirect_uri: Seq<char>,
    state: Seq<char>,
    challenge: Seq<char>,
    resource: Seq<char>,
    scope: Option<Seq<char>>,
) -> Seq<(Seq<char>, Seq<char>)> {
    let pairs = seq![
        ("response_type"@, "code"@),
        ("client_id"@, client_id),
        ("redirect_uri"@, redirect_uri),
        ("state"@, state),
        ("code_challenge"@, challenge),
        ("code_challenge_method"@, "S256"@),
        ("resource"@, resource),
    ];
    match scope {
        Some(scope) => pairs.push(("scope"@, scope)),
        None => pairs,
    }
}

fn pair(key: &str, value: &str) -> (r: (String, String))
    ensures
        (r.0@, r.1@) == (key@, value@),
{
    (key.to_owned(), value.to_owned())
}

/// What the authorization server is asked.
pub fn authorization_pairs(
    client_id: &str,
    redirect_uri: &str,
    state: &str,
    challenge: &str,
    resource: &str,
    scope: Option<&str>,
) -> (r: Vec<(String, String)>)
    ensures
        pair_views(r@) == question(
            client_id@,
            redirect_uri@,
            state@,
            challenge@,
            resource@,
            opt_str(scope),
        ),
{
    let mut out: Vec<(String, String)> = Vec::new();
    out.push(pair("response_type", "code"));
    out.push(pair("client_id", client_id));
    out.push(pair("redirect_uri", redirect_uri));
    out.push(pair("state", state));
    out.push(pair("code_challenge", challenge));
    out.push(pair("code_challenge_method", "S256"));
    out.push(pair("resource", resource));
    let ghost basic = question(client_id@, redirect_uri@, state@, challenge@, resource@, None);
    assert(pair_views(out@) =~= basic);
    if let Some(scope) = scope {
        out.push(pair("scope", scope));
        assert(pair_views(out@) =~= basic.push(("scope"@, scope@)));
    }
    out
}

/// The address at which the user is asked for consent.
pub fn authorization_url(endpoint: &str, pairs: &Vec<(String, String)>) -> (r: Result<String, Trouble>)
    ensures
        match (r, extended_in(endpoint@, pair_views(pairs@), "parsing authorization endpoint"@)) {
            (Ok(url), Ok(extended)) => url@ == extended,
            (Err(trouble), Err(snag)) => trouble@ == snag,
            _ => false,
        },
        r matches Ok(url) ==> carries(url@, pair_views(pairs@)),
{
    extend_query(endpoint, pairs, "parsing authorization endpoint")
}

// ---------------------------------------------------------------------------
// Exchanging a code
// ---------------------------------------------------------------------------

/// What is sent to exchange a code for tokens.
pub open spec fn exchange(
    code: Seq<char>,
    redirect_uri: Seq<char>,
    client_id: Seq<char>,
    verifier: Seq<char>,
    resource: Seq<char>,
    secret: Option<Seq<char>>,
) -> Seq<(Seq<char>, Seq<char>)> {
    let pairs = seq![
        ("grant_type"@, "authorization_code"@),
        ("code"@, code),
        ("redirect_uri"@, redirect_uri),
        ("client_id"@, client_id),
        ("code_verifier"@, verifier),
        ("resource"@, resource),
    ];
    match secret {
        Some(secret) => pairs.push(("client_secret"@, secret)),
        None => pairs,
    }
}

/// What is sent to exchange a code for tokens.
pub fn exchange_form(
    code: &str,
    redirect_uri: &str,
    client_id: &str,
    verifier: &str,
    resource: &str,
    secret: Option<&str>,
) -> (r: Vec<(String, String)>)
    ensures
        pair_views(r@) == exchange(
            code@,
            redirect_uri@,
            client_id@,
            verifier@,
            resource@,
            opt_str(secret),
        ),
{
    let mut out: Vec<(String, String)> = Vec::new();
    out.push(pair("grant_type", "authorization_code"));
    out.push(pair("code", code));
    out.push(pair("redirect_uri", redirect_uri));
    out.push(pair("client_id", client_id));
    out.push(pair("code_verifier", verifier));
    out.push(pair("resource", resource));
    let ghost basic = exchange(code@, redirect_uri@, client_id@, verifier@, resource@, None);
    assert(pair_views(out@) =~= basic);
    if let Some(secret) = secret {
        out.push(pair("client_secret", secret));
        assert(pair_views(out@) =~= basic.push(("client_secret"@, secret@)));
    }
    out
}

/// The credentials of a login: the tokens with the client, the server and the
/// resource that they are for. A scope that the server left out is the one that was
/// asked for.
pub open spec fn logged_in(
    tokens: Grant,
    client_id: Seq<char>,
    client_secret: Option<Seq<char>>,
    server: Authority,
    resource: Seq<char>,
) -> Grant {
    Grant {
        client_id: Some(client_id),
        client_secret,
        authorization_endpoint: Some(server.authorization_endpoint),
        token_endpoint: Some(server.token_endpoint),
        registration_endpoint: server.registration_endpoint,
        resource: Some(resource),
        scope: match tokens.scope {
            Some(scope) => Some(scope),
            None => server.scopes_supported,
        },
        ..tokens
    }
}

/// The credentials of a login.
pub fn login(
    tokens: Credentials,
    client_id: String,
    client_secret: Option<String>,
    server: AuthServer,
    resource: String,
) -> (r: Credentials)
    ensures
        r@ == logged_in(tokens@, client_id@, opt_view(client_secret), server@, resource@),
{
    let scope = match tokens.scope {
        Some(scope) => Some(scope),
        None => server.scopes_supported,
    };
    Credentials {
        access_token: tokens.access_token,
        refresh_token: tokens.refresh_token,
        expires_at: tokens.expires_at,
        client_id: Some(client_id),
        client_secret,
        authorization_endpoint: Some(server.authorization_endpoint),
        token_endpoint: Some(server.token_endpoint),
        registration_endpoint: server.registration_endpoint,
        resource: Some(resource),
        scope,
    }
}

// ---------------------------------------------------------------------------
// Refreshing
// ---------------------------------------------------------------------------

/// What is sent where to refresh tokens, if there is anything to refresh them with.
pub open spec fn renewal(existing: Grant) -> Option<(Seq<char>, Seq<(Seq<char>, Seq<char>)>)> {
    match (existing.refresh_token, existing.token_endpoint, existing.client_id) {
        (Some(token), Some(endpoint), Some(id)) => {
            let pairs = seq![
                ("grant_type"@, "refresh_token"@),
                ("refresh_token"@, token),
                ("client_id"@, id),
            ];
            let pairs = with_pair(pairs, "client_secret"@, existing.client_secret);
            let pairs = with_pair(pairs, "resource"@, existing.resource);
            Some((endpoint, with_pair(pairs, "scope"@, existing.scope)))
        },
        _ => None,
    }
}

/// The pairs with one more, if it has a value.
pub open spec fn with_pair(
    pairs: Seq<(Seq<char>, Seq<char>)>,
    key: Seq<char>,
    value: Option<Seq<char>>,
) -> Seq<(Seq<char>, Seq<char>)> {
    match value {
        Some(value) => pairs.push((key, value)),
        None => pairs,
    }
}

fn push_pair(pairs: &mut Vec<(String, String)>, key: &str, value: &Option<String>)
    ensures
        pair_views(final(pairs)@) == with_pair(pair_views(old(pairs)@), key@, opt_view(*value)),
{
    let ghost before = pair_views(pairs@);
    if let Some(value) = value {
        pairs.push(pair(key, value.as_str()));
        assert(pair_views(pairs@) =~= before.push((key@, value@)));
    }
}

/// What is sent where to refresh tokens, if there is anything to refresh them with.
pub fn refresh_form(existing: &Credentials) -> (r: Option<(String, Vec<(String, String)>)>)
    ensures
        match r {
            Some((endpoint, form)) => renewal(existing@) == Some((endpoint@, pair_views(form@))),
            None => renewal(existing@) is None,
        },
{
    match (&existing.refresh_token, &existing.token_endpoint, &existing.client_id) {
        (Some(token), Some(endpoint), Some(id)) => {
            let mut form: Vec<(String, String)> = Vec::new();
            form.push(pair("grant_type", "refresh_token"));
            form.push(pair("refresh_token", token.as_str()));
            form.push(pair("client_id", id.as_str()));
            assert(pair_views(form@) =~= seq![
                ("grant_type"@, "refresh_token"@),
                ("refresh_token"@, token@),
                ("client_id"@, id@),
            ]);
            push_pair(&mut form, "client_secret", &existing.client_secret);
            push_pair(&mut form, "resource", &existing.resource);
            push_pair(&mut form, "scope", &existing.scope);
            Some((endpoint.clone(), form))
        },
        _ => None,
    }
}

/// The first of two texts that there is.
pub open spec fn first_of(a: Option<Seq<char>>, b: Option<Seq<char>>) -> Option<Seq<char>> {
    match a {
        Some(a) => Some(a),
        None => b,
    }
}

/// The credentials after a refresh: new tokens for the same client, server and
/// resource. A refresh token or a scope that the server left out stays as it was.
pub open spec fn renewed(tokens: Grant, existing: Grant) -> Grant {
    Grant {
        access_token: tokens.access_token,
        expires_at: tokens.expires_at,
        refresh_token: first_of(tokens.refresh_token, existing.refresh_token),
        scope: first_of(tokens.scope, existing.scope),
        ..existing
    }
}

fn either(a: Option<String>, b: &Option<String>) -> (r: Option<String>)
    ensures
        opt_view(r) == first_of(opt_view(a), opt_view(*b)),
{
    match a {
        Some(a) => Some(a),
        None => copy_text(b),
    }
}

/// The credentials after a refresh, from the tokens that came of it, if any did.
pub fn refresh(existing: &Credentials, tokens: Option<Credentials>) -> (r: Option<Credentials>)
    ensures
        match (r, tokens) {
            (Some(c), Some(t)) => c@ == renewed(t@, existing@),
            (None, None) => true,
            _ => false,
        },
{
    match tokens {
        None => None,
        Some(tokens) => Some(
            Credentials {
                access_token: tokens.access_token,
                refresh_token: either(tokens.refresh_token, &existing.refresh_token),
                expires_at: tokens.expires_at,
                client_id: copy_text(&existing.client_id),
                client_secret: copy_text(&existing.client_secret),
                authorization_endpoint: copy_text(&existing.authorization_endpoint),
                token_endpoint: copy_text(&existing.token_endpoint),
                registration_endpoint: copy_text(&existing.registration_endpoint),
                resource: copy_text(&existing.resource),
                scope: either(tokens.scope, &existing.scope),
            },
        ),
    }
}

// ---------------------------------------------------------------------------
// Tokens
// ---------------------------------------------------------------------------

/// The lifetime that an answer gives its token, in seconds.
pub open spec fn lifetime_in(value: JsonV) -> Option<u64> {
    match value.get("expires_in"@) {
        Some(v) => v.as_u64(),
        None => None,
    }
}

/// Whether the expiry of the token in an answer, if it brings one, can be counted.
pub open spec fn expiry_fits(success: bool, parsed: Result<JsonV, Seq<char>>, now: u64) -> bool {
    success && parsed is Ok && parsed->Ok_0.text_at("access_token"@) is Some ==> (lifetime_in(
        parsed->Ok_0,
    ) matches Some(secs) ==> now + secs <= u64::MAX)
}

/// The tokens in an answer that came at a moment. `parsed` is what reading the body
/// as JSON gave, `status` how the status is shown.
pub open spec fn tokens_in(
    success: bool,
    status: Seq<char>,
    text: Seq<char>,
    parsed: Result<JsonV, Seq<char>>,
    now: u64,
) -> Result<Grant, Fault> {
    if !success {
        Err(plain("token request failed ("@ + status + "): "@ + trim(text)))
    } else {
        match parsed {
            Err(e) => Err(because("parsing token response: "@ + trim(text), e)),
            Ok(value) => match value.text_at("access_token"@) {
                None => Err(plain("token response has no access_token"@)),
                Some(token) => Ok(
                    Grant {
                        access_token: Some(token),
                        refresh_token: value.text_at("refresh_token"@),
                        expires_at: match lifetime_in(value) {
                            Some(secs) => Some((now + secs) as u64),
                            None => None,
                        },
                        scope: value.text_at("scope"@),
                        ..no_grant()
                    },
                ),
            },
        }
    }
}

/// The view of the tokens in an answer.
pub open spec fn tokens_view(r: Result<Credentials, Error>) -> Result<Grant, Fault> {
    match r {
        Ok(c) => Ok(c@),
        Err(e) => Err(e@),
    }
}

/// The tokens in an answer, from what reading the body as JSON gave and how the
/// status is shown.
pub fn tokens_with(
    success: bool,
    status: &str,
    text: &str,
    parsed: Result<Json, String>,
    now: u64,
) -> (r: Result<Credentials, Error>)
    requires
        expiry_fits(success, parse_view(parsed), now),
    ensures
        tokens_view(r) == tokens_in(success, status@, text@, parse_view(parsed), now),
{
    if !success {
        let e = refused("token request failed", status, text);
        proof {
            reveal_strlit("token request failed");
            reveal_strlit(" (");
            reveal_strlit("token request failed (");
            assert("token request failed"@ + " ("@ =~= "token request failed ("@);
        }
        return Err(e);
    }
    match parsed {
        Err(e) => {
            let headline = concat("parsing token response: ", trim_text(text).as_str());
            Err(Error::because(headline, e))
        },
        Ok(value) => match own_text(&value, "access_token") {
            None => Err(Error::plain("token response has no access_token".to_owned())),
            Some(token) => {
                let lifetime: Option<u64> = match value.get("expires_in") {
                    Some(v) => v.as_u64(),
                    None => None,
                };
                let expires_at: Option<u64> = match lifetime {
                    Some(secs) => Some(now + secs),
                    None => None,
                };
                Ok(
                    Credentials {
                        access_token: Some(token),
                        refresh_token: own_text(&value, "refresh_token"),
                        expires_at,
                        scope: own_text(&value, "scope"),
                        ..Credentials::default()
                    },
                )
            },
        },
    }
}

/// The tokens in an answer, from its status and its body. There is no result when
/// the answer brings a token whose expiry cannot be counted in 64 bits.
pub fn read_tokens(status: u16, text: &str, now: u64) -> (r: Option<Result<Credentials, Error>>)
    ensures
        match r {
            Some(tokens) => expiry_fits(is_success(status), parsed_json(text@), now)
                && tokens_view(tokens) == tokens_in(
                is_success(status),
                status_text(status),
                text@,
                parsed_json(text@),
                now,
            ),
            None => !expiry_fits(is_success(status), parsed_json(text@), now),
        },
{
    let success = succeeded(status);
    let parsed = parse_json(text);
    let fits = match &parsed {
        Ok(value) => if !success || value.text_at("access_token").is_none() {
            true
        } else {
            match value.get("expires_in") {
                Some(v) => match v.as_u64() {
                    Some(secs) => secs <= u64::MAX - now,
                    None => true,
                },
                None => true,
            }
        },
        Err(_) => true,
    };
    if fits {
        Some(tokens_with(success, show_status(status).as_str(), text, parsed, now))
    } else {
        None
    }
}

// ---------------------------------------------------------------------------
// Laws
// ---------------------------------------------------------------------------

/// A refresh keeps the registered client, the server and the resource, and it never
/// loses a refresh token: if the server issues none, the one in hand stays.
pub proof fn a_refresh_keeps_what_it_needs(tokens: Grant, existing: Grant)
    ensures
        renewed(tokens, existing).client_id == existing.client_id,
        renewed(tokens, existing).client_secret == existing.client_secret,
        renewed(tokens, existing).authorization_endpoint == existing.authorization_endpoint,
        renewed(tokens, existing).token_endpoint == existing.token_endpoint,
        renewed(tokens, existing).registration_endpoint == existing.registration_endpoint,
        renewed(tokens, existing).resource == existing.resource,
        existing.refresh_token is Some ==> renewed(tokens, existing).refresh_token is Some,
        tokens.refresh_token is None ==> renewed(tokens, existing).refresh_token
            == existing.refresh_token,
        renewal(existing) is Some ==> renewal(renewed(tokens, existing)) is Some,
{
}

/// A client that was registered is not registered again for the same server: a login
/// stores what the next one needs to know it by.
pub proof fn a_client_is_registered_once(
    tokens: Grant,
    client_id: Seq<char>,
    secret: Option<Seq<char>>,
    server: Authority,
    resource: Seq<char>,
)
    ensures
        applicant(logged_in(tokens, client_id, secret, server, resource), server) == Ok::<
            Applicant,
            Fault,
        >(Applicant::Known(client_id, secret)),
{
}

/// A server whose token endpoint has moved gets a new client.
pub proof fn a_moved_server_gets_a_new_client(existing: Grant, server: Authority)
    requires
        existing.token_endpoint != Some(server.token_endpoint),
    ensures
        !(applicant(existing, server) matches Ok(Applicant::Known(_, _))),
{
}

/// Tokens that came with a refresh token can be refreshed after the login.
pub proof fn a_login_can_be_refreshed(
    tokens: Grant,
    client_id: Seq<char>,
    secret: Option<Seq<char>>,
    server: Authority,
    resource: Seq<char>,
)
    requires
        tokens.refresh_token is Some,
    ensures
        renewal(logged_in(tokens, client_id, secret, server, resource)) matches Some((endpoint, _))
            && endpoint == server.token_endpoint,
{
}

/// The question to the authorization server holds the challenge of the secret, and
/// nothing under the name of the secret itself.
pub proof fn the_verifier_is_not_in_the_question(
    client_id: Seq<char>,
    redirect_uri: Seq<char>,
    state: Seq<char>,
    challenge: Seq<char>,
    resource: Seq<char>,
    scope: Option<Seq<char>>,
)
    ensures
        ({
            let asked = question(client_id, redirect_uri, state, challenge, resource, scope);
            &&& asked.contains(("code_challenge"@, challenge))
            &&& asked.contains(("code_challenge_method"@, "S256"@))
            &&& forall|i: int| 0 <= i < asked.len() ==> (#[trigger] asked[i]).0 != "code_verifier"@
        }),
{
    reveal_strlit("code_verifier");
    reveal_strlit("response_type");
    reveal_strlit("client_id");
    reveal_strlit("redirect_uri");
    reveal_strlit("state");
    reveal_strlit("code_challenge");
    reveal_strlit("code_challenge_method");
    reveal_strlit("resource");
    reveal_strlit("scope");
    let asked = question(client_id, redirect_uri, state, challenge, resource, scope);
    assert("code_verifier"@.len() == 13);
    assert("response_type"@.len() == 13);
    assert("code_verifier"@[0] == 'c');
    assert("response_type"@[0] == 'r');
    assert("client_id"@.len() == 9);
    assert("redirect_uri"@.len() == 12);
    assert("state"@.len() == 5);
    assert("code_challenge"@.len() == 14);
    assert("code_challenge_method"@.len() == 21);
    assert("resource"@.len() == 8);
    assert("scope"@.len() == 5);
    assert(asked[4] == ("code_challenge"@, challenge));
    assert(asked[5] == ("code_challenge_method"@, "S256"@));
}

/// The tokens of a refresh are the new ones, with their own expiry: what has run out is
/// not carried on. A field that the server left out is kept where it is still needed.
pub proof fn a_refresh_brings_the_new_token(tokens: Grant, existing: Grant)
    ensures
        renewed(tokens, existing).access_token == tokens.access_token,
        renewed(tokens, existing).expires_at == tokens.expires_at,
        tokens.refresh_token is Some ==> renewed(tokens, existing).refresh_token == tokens.refresh_token,
        tokens.refresh_token is None ==> renewed(tokens, existing).refresh_token
            == existing.refresh_token,
        tokens.scope is Some ==> renewed(tokens, existing).scope == tokens.scope,
        tokens.scope is None ==> renewed(tokens, existing).scope == existing.scope,
{
}

/// A successful answer with an access token brings that token, and with it the refresh
/// token, the scope and the expiry, counted from now, as far as they are named.
pub proof fn tokens_are_read_from_the_answer(
    status: Seq<char>,
    text: Seq<char>,
    value: JsonV,
    token: Seq<char>,
    now: u64,
    secs: u64,
)
    requires
        value.get("access_token"@) == Some(JsonV::Text(token)),
    ensures
        ({
            let read = tokens_in(true, status, text, Ok(value), now);
            &&& read is Ok
            &&& read->Ok_0.access_token == Some(token)
            &&& value.get("refresh_token"@) is None ==> read->Ok_0.refresh_token is None
            &&& value.get("refresh_token"@) matches Some(JsonV::Text(t)) ==> read->Ok_0.refresh_token
                == Some(t)
            &&& value.get("scope"@) is None ==> read->Ok_0.scope is None
            &&& value.get("scope"@) matches Some(JsonV::Text(t)) ==> read->Ok_0.scope == Some(t)
            &&& value.get("expires_in"@) == Some(JsonV::Number(JsonNumber::PosInt(secs))) && now + secs
                <= u64::MAX ==> read->Ok_0.expires_at == Some((now + secs) as u64)
            &&& !(value.get("expires_in"@) matches Some(JsonV::Number(JsonNumber::PosInt(_))))
                ==> read->Ok_0.expires_at is None
            &&& read->Ok_0.client_id is None && read->Ok_0.client_secret is None
            &&& read->Ok_0.authorization_endpoint is None && read->Ok_0.token_endpoint is None
            &&& read->Ok_0.registration_endpoint is None && read->Ok_0.resource is None
        }),
{
}

/// A failed answer, one that is no JSON, and one without an access token bring no
/// tokens, and each is reported for what it is.
pub proof fn answers_without_tokens_are_reported(
    status: Seq<char>,
    text: Seq<char>,
    parsed: Result<JsonV, Seq<char>>,
    value: JsonV,
    cause: Seq<char>,
    now: u64,
)
    ensures
        tokens_in(false, status, text, parsed, now) == Err::<Grant, Fault>(
            plain("token request failed ("@ + status + "): "@ + trim(text)),
        ),
        tokens_in(true, status, text, Err(cause), now) == Err::<Grant, Fault>(
            because("parsing token response: "@ + trim(text), cause),
        ),
        !(value.get("access_token"@) matches Some(JsonV::Text(_))) ==> tokens_in(
            true,
            status,
            text,
            Ok(value),
            now,
        ) == Err::<Grant, Fault>(plain("token response has no access_token"@)),
{
}

/// A token that was read at a moment with a lifetime counts as expired from a minute
/// before the end of that lifetime on, after a login and after a refresh alike.
pub proof fn tokens_expire_after_their_lifetime(
    status: Seq<char>,
    text: Seq<char>,
    value: JsonV,
    existing: Grant,
    client_id: Seq<char>,
    secret: Option<Seq<char>>,
    server: Authority,
    resource: Seq<char>,
    read_at: u64,
    lifetime: u64,
    now: u64,
)
    requires
        value.get("access_token"@) matches Some(JsonV::Text(_)),
        value.get("expires_in"@) == Some(JsonV::Number(JsonNumber::PosInt(lifetime))),
        read_at + lifetime <= u64::MAX,
    ensures
        tokens_in(true, status, text, Ok(value), read_at) matches Ok(tokens) && (renewed(
            tokens,
            existing,
        ).expired_at(now) <==> now + 60 >= read_at + lifetime) && (logged_in(
            tokens,
            client_id,
            secret,
            server,
            resource,
        ).expired_at(now) <==> now + 60 >= read_at + lifetime),
{
}

/// The expiry of an answer cannot be counted only where it brings a token whose lifetime
/// ends beyond 64 bits.
pub proof fn only_an_endless_lifetime_cannot_be_counted(
    success: bool,
    parsed: Result<JsonV, Seq<char>>,
    now: u64,
)
    ensures
        !expiry_fits(success, parsed, now) <==> success && (parsed matches Ok(value) && (value.get(
            "access_token"@,
        ) matches Some(JsonV::Text(_))) && (value.get("expires_in"@) matches Some(
            JsonV::Number(JsonNumber::PosInt(secs)),
        ) && now + secs > u64::MAX)),
{
}

/// A login stores the tokens, the client, the endpoints and the resource; the scope is
/// that of the tokens, or that which the server supports.
pub proof fn a_login_stores_what_it_learned(
    tokens: Grant,
    client_id: Seq<char>,
    secret: Option<Seq<char>>,
    server: Authority,
    resource: Seq<char>,
)
    ensures
        ({
            let grant = logged_in(tokens, client_id, secret, server, resource);
            &&& grant.access_token == tokens.access_token
            &&& grant.refresh_token == tokens.refresh_token
            &&& grant.expires_at == tokens.expires_at
            &&& grant.client_id == Some(client_id)
            &&& grant.client_secret == secret
            &&& grant.authorization_endpoint == Some(server.authorization_endpoint)
            &&& grant.token_endpoint == Some(server.token_endpoint)
            &&& grant.registration_endpoint == server.registration_endpoint
            &&& grant.resource == Some(resource)
            &&& tokens.scope is Some ==> grant.scope == tokens.scope
            &&& tokens.scope is None ==> grant.scope == server.scopes_supported
        }),
{
}

/// A client that was registered is used again for the same token endpoint; else one is
/// registered where the server allows it, and there is none where it does not.
pub proof fn clients_are_chosen_by_the_endpoint(existing: Grant, server: Authority, id: Seq<char>, endpoint: Seq<char>)
    ensures
        existing.client_id == Some(id) && existing.token_endpoint == Some(server.token_endpoint)
            ==> applicant(existing, server) == Ok::<Applicant, Fault>(
            Applicant::Known(id, existing.client_secret),
        ),
        (existing.client_id is None || existing.token_endpoint != Some(server.token_endpoint))
            && server.registration_endpoint == Some(endpoint) ==> applicant(existing, server) == Ok::<
            Applicant,
            Fault,
        >(Applicant::Register(endpoint)),
        (existing.client_id is None || existing.token_endpoint != Some(server.token_endpoint))
            && server.registration_endpoint is None ==> applicant(existing, server) == Err::<
            Applicant,
            Fault,
        >(
            plain(
                "authorization server does not support dynamic client registration; no client_id available"@,
            ),
        ),
{
}

/// A registration names this program, where the answer is to go, what it will ask for,
/// that it keeps no secret, and the scope if there is one.
pub proof fn a_registration_introduces_the_client(
    redirect_uri: Seq<char>,
    scope: Option<Seq<char>>,
    other: Seq<char>,
)
    ensures
        ({
            let body = registration(redirect_uri, scope);
            &&& body.get("client_name"@) == Some(JsonV::Text("mcp-cli"@))
            &&& body.get("redirect_uris"@) == Some(JsonV::Array(seq![JsonV::Text(redirect_uri)]))
            &&& body.get("grant_types"@) == Some(
                JsonV::Array(
                    seq![JsonV::Text("authorization_code"@), JsonV::Text("refresh_token"@)],
                ),
            )
            &&& body.get("response_types"@) == Some(JsonV::Array(seq![JsonV::Text("code"@)]))
            &&& body.get("token_endpoint_auth_method"@) == Some(JsonV::Text("none"@))
            &&& scope is Some ==> body.get("scope"@) == Some(JsonV::Text(scope->0))
            &&& scope is None ==> body.get("scope"@) is None
            &&& other != "client_name"@ && other != "redirect_uris"@ && other != "grant_types"@ && other
                != "response_types"@ && other != "token_endpoint_auth_method"@ && other != "scope"@
                ==> body.get(other) is None
        }),
{
    reveal_strlit("client_name");
    reveal_strlit("redirect_uris");
    reveal_strlit("grant_types");
    reveal_strlit("response_types");
    reveal_strlit("token_endpoint_auth_method");
    reveal_strlit("scope");
    assert("client_name"@.len() == 11 && "client_name"@[0] == 'c');
    assert("redirect_uris"@.len() == 13);
    assert("grant_types"@.len() == 11 && "grant_types"@[0] == 'g');
    assert("response_types"@.len() == 14);
    assert("token_endpoint_auth_method"@.len() == 26);
    assert("scope"@.len() == 5);
    let pairs = seq![
        ("client_name"@, JsonV::Text("mcp-cli"@)),
        ("redirect_uris"@, text_list(seq![redirect_uri])),
        ("grant_types"@, text_list(seq!["authorization_code"@, "refresh_token"@])),
        ("response_types"@, text_list(seq!["code"@])),
        ("token_endpoint_auth_method"@, JsonV::Text("none"@)),
    ];
    let all = match scope {
        Some(scope) => pairs.push(("scope"@, JsonV::Text(scope))),
        None => pairs,
    };
    assert(registration(redirect_uri, scope) == object_with(all));
    assert(all[0].0 == "client_name"@ && all[1].0 == "redirect_uris"@ && all[2].0 == "grant_types"@
        && all[3].0 == "response_types"@ && all[4].0 == "token_endpoint_auth_method"@);
    assert(scope is Some ==> all.len() == 6 && all[5].0 == "scope"@);
    assert(scope is None ==> all.len() == 5);
    objects_hold_their_pairs(all, "client_name"@);
    objects_hold_their_pairs(all, "redirect_uris"@);
    objects_hold_their_pairs(all, "grant_types"@);
    objects_hold_their_pairs(all, "response_types"@);
    objects_hold_their_pairs(all, "token_endpoint_auth_method"@);
    objects_hold_their_pairs(all, "scope"@);
    objects_hold_their_pairs(all, other);
    assert(text_list(seq![redirect_uri]) == JsonV::Array(seq![JsonV::Text(redirect_uri)])) by {
        assert(seq![redirect_uri].map_values(|s: Seq<char>| JsonV::Text(s)) =~= seq![
            JsonV::Text(redirect_uri),
        ]);
    }
    assert(text_list(seq!["code"@]) == JsonV::Array(seq![JsonV::Text("code"@)])) by {
        assert(seq!["code"@].map_values(|s: Seq<char>| JsonV::Text(s)) =~= seq![JsonV::Text("code"@)]);
    }
    assert(text_list(seq!["authorization_code"@, "refresh_token"@]) == JsonV::Array(
        seq![JsonV::Text("authorization_code"@), JsonV::Text("refresh_token"@)],
    )) by {
        assert(seq!["authorization_code"@, "refresh_token"@].map_values(
            |s: Seq<char>| JsonV::Text(s),
        ) =~= seq![JsonV::Text("authorization_code"@), JsonV::Text("refresh_token"@)]);
    }
}

/// A registration succeeded if its answer names a client, which may have a secret; else
/// it is reported what is wrong with it.
pub proof fn a_registered_client_has_an_identifier(
    status: Seq<char>,
    text: Seq<char>,
    parsed: Result<JsonV, Seq<char>>,
    value: JsonV,
    cause: Seq<char>,
    id: Seq<char>,
    secret: Seq<char>,
)
    ensures
        registered(false, status, text, parsed) == Err::<(Seq<char>, Option<Seq<char>>), Fault>(
            plain("client registration failed ("@ + status + "): "@ + trim(text)),
        ),
        registered(true, status, text, Err(cause)) == Err::<(Seq<char>, Option<Seq<char>>), Fault>(
            because("parsing registration response: "@ + trim(text), cause),
        ),
        !(value.get("client_id"@) matches Some(JsonV::Text(_))) ==> registered(
            true,
            status,
            text,
            Ok(value),
        ) == Err::<(Seq<char>, Option<Seq<char>>), Fault>(
            plain("registration response has no client_id"@),
        ),
        value.get("client_id"@) == Some(JsonV::Text(id)) && value.get("client_secret"@) == Some(
            JsonV::Text(secret),
        ) ==> registered(true, status, text, Ok(value)) == Ok::<(Seq<char>, Option<Seq<char>>), Fault>(
            (id, Some(secret)),
        ),
        value.get("client_id"@) == Some(JsonV::Text(id)) && !(value.get("client_secret"@) matches Some(
            JsonV::Text(_),
        )) ==> registered(true, status, text, Ok(value)) == Ok::<
            (Seq<char>, Option<Seq<char>>),
            Fault,
        >((id, None)),
{
}

/// The user is asked for a code with everything that belongs to the request, and with
/// the scope if there is one.
pub proof fn the_question_carries_the_request(
    client_id: Seq<char>,
    redirect_uri: Seq<char>,
    state: Seq<char>,
    challenge: Seq<char>,
    resource: Seq<char>,
    scope: Option<Seq<char>>,
)
    ensures
        ({
            let pairs = question(client_id, redirect_uri, state, challenge, resource, scope);
            &&& pairs.contains(("response_type"@, "code"@))
            &&& pairs.contains(("client_id"@, client_id))
            &&& pairs.contains(("redirect_uri"@, redirect_uri))
            &&& pairs.contains(("state"@, state))
            &&& pairs.contains(("code_challenge"@, challenge))
            &&& pairs.contains(("code_challenge_method"@, "S256"@))
            &&& pairs.contains(("resource"@, resource))
            &&& scope is Some ==> pairs.contains(("scope"@, scope->0)) && pairs.len() == 8
            &&& scope is None ==> pairs.len() == 7
        }),
{
    let pairs = question(client_id, redirect_uri, state, challenge, resource, scope);
    assert(pairs[0] == ("response_type"@, "code"@) && pairs[1] == ("client_id"@, client_id));
    assert(pairs[2] == ("redirect_uri"@, redirect_uri) && pairs[3] == ("state"@, state));
    assert(pairs[4] == ("code_challenge"@, challenge));
    assert(pairs[5] == ("code_challenge_method"@, "S256"@) && pairs[6] == ("resource"@, resource));
    if scope is Some {
        assert(pairs[7] == ("scope"@, scope->0));
    }
}

/// A code is exchanged with everything that proves who asked for it, and with the secret
/// of the client if it has one.
pub proof fn the_exchange_carries_the_proof(
    code: Seq<char>,
    redirect_uri: Seq<char>,
    client_id: Seq<char>,
    verifier: Seq<char>,
    resource: Seq<char>,
    secret: Option<Seq<char>>,
)
    ensures
        ({
            let pairs = exchange(code, redirect_uri, client_id, verifier, resource, secret);
            &&& pairs.contains(("grant_type"@, "authorization_code"@))
            &&& pairs.contains(("code"@, code))
            &&& pairs.contains(("redirect_uri"@, redirect_uri))
            &&& pairs.contains(("client_id"@, client_id))
            &&& pairs.contains(("code_verifier"@, verifier))
            &&& pairs.contains(("resource"@, resource))
            &&& secret is Some ==> pairs.contains(("client_secret"@, secret->0)) && pairs.len() == 7
            &&& secret is None ==> pairs.len() == 6
        }),
{
    let pairs = exchange(code, redirect_uri, client_id, verifier, resource, secret);
    assert(pairs[0] == ("grant_type"@, "authorization_code"@) && pairs[1] == ("code"@, code));
    assert(pairs[2] == ("redirect_uri"@, redirect_uri) && pairs[3] == ("client_id"@, client_id));
    assert(pairs[4] == ("code_verifier"@, verifier) && pairs[5] == ("resource"@, resource));
    if secret is Some {
        assert(pairs[6] == ("client_secret"@, secret->0));
    }
}

/// A refresh goes to the token endpoint with the refresh token and the client, and with
/// the secret, the resource and the scope as far as they are known. Without a refresh
/// token, an endpoint or a client there is none.
pub proof fn a_refresh_carries_the_refresh_token(existing: Grant)
    ensures
        renewal(existing) is Some <==> existing.refresh_token is Some && existing.token_endpoint is Some
            && existing.client_id is Some,
        renewal(existing) matches Some((endpoint, pairs)) ==> {
            &&& endpoint == existing.token_endpoint->0
            &&& pairs.contains(("grant_type"@, "refresh_token"@))
            &&& pairs.contains(("refresh_token"@, existing.refresh_token->0))
            &&& pairs.contains(("client_id"@, existing.client_id->0))
            &&& existing.client_secret is Some ==> pairs.contains(
                ("client_secret"@, existing.client_secret->0),
            )
            &&& existing.resource is Some ==> pairs.contains(("resource"@, existing.resource->0))
            &&& existing.scope is Some ==> pairs.contains(("scope"@, existing.scope->0))
            &&& pairs.len() == 3 + (if existing.client_secret is Some {
                1int
            } else {
                0
            }) + (if existing.resource is Some {
                1int
            } else {
                0
            }) + (if existing.scope is Some {
                1int
            } else {
                0
            })
        },
{
    if let Some((endpoint, pairs)) = renewal(existing) {
        assert(pairs[0] == ("grant_type"@, "refresh_token"@));
        assert(pairs[1] == ("refresh_token"@, existing.refresh_token->0));
        assert(pairs[2] == ("client_id"@, existing.client_id->0));
        if existing.client_secret is Some {
            assert(pairs[3] == ("client_secret"@, existing.client_secret->0));
        }
        if existing.resource is Some {
            let at: int = if existing.client_secret is Some {
                4
            } else {
                3
            };
            assert(pairs[at] == ("resource"@, existing.resource->0));
        }
        if existing.scope is Some {
            assert(pairs[pairs.len() - 1] == ("scope"@, existing.scope->0));
        }
    }
}

/// The browser brings the answer to this machine, to the port that is listened on.
pub proof fn the_answer_comes_to_this_machine(port: u16)
    ensures
        callback_address(port) == "http://127.0.0.1:"@ + decimal(port as nat) + "/callback"@,
{
}

/// A challenge is the digest of its verifier, as the method that is named with it says.
pub proof fn challenges_are_digests(verifier: Seq<char>)
    ensures
        challenge_of(verifier) == base64url(sha256(encode_utf8(verifier))),
{
}

/// Secrets are as long as they are asked for and consist of characters that need no
/// encoding in an address.
pub proof fn secrets_need_no_encoding(s: Seq<char>, len: nat, i: int)
    requires
        is_secret(s, len),
        0 <= i < s.len(),
    ensures
        s.len() == len,
        'A' <= s[i] <= 'Z' || 'a' <= s[i] <= 'z' || '0' <= s[i] <= '9' || s[i] == '-' || s[i] == '.'
            || s[i] == '_' || s[i] == '~',
{
    reveal_strlit("ABCDEFGHIJKLMNOPQRSTUVWXYZabcdefghijklmnopqrstuvwxyz0123456789-._~");
    assert(alphabet().contains(s[i]));
    let k = choose|k: int| 0 <= k < alphabet().len() && alphabet()[k] == s[i];
    assert(alphabet().len() == 66);
}

/// What an answer names but not as a text does not count.
pub proof fn only_texts_count_in_an_answer(status: Seq<char>, text: Seq<char>, value: JsonV, now: u64)
    requires
        value.get("access_token"@) matches Some(JsonV::Text(_)),
    ensures
        tokens_in(true, status, text, Ok(value), now) is Ok,
        !(value.get("refresh_token"@) matches Some(JsonV::Text(_))) ==> tokens_in(
            true,
            status,
            text,
            Ok(value),
            now,
        )->Ok_0.refresh_token is None,
        !(value.get("scope"@) matches Some(JsonV::Text(_))) ==> tokens_in(
            true,
            status,
            text,
            Ok(value),
            now,
        )->Ok_0.scope is None,
{
}

/// Encoded digests consist of letters, digits, dashes and underscores.
pub proof fn encoded_digests_fit_into_addresses(c: char)
    ensures
        base64_char(c) <==> 'a' <= c <= 'z' || 'A' <= c <= 'Z' || '0' <= c <= '9' || c == '-' || c == '_',
{
}

/// The choice of a client is seen as it is.
pub proof fn choices_are_seen_as_they_are(text: String, secret: Option<String>)
    ensures
        ClientChoice::Known(text, secret)@ == Applicant::Known(text@, opt_view(secret)),
        ClientChoice::Register(text)@ == Applicant::Register(text@),
{
}

} // verus!
