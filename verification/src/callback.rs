//! The local address to which the browser brings the answer of the authorization
//! server.

use vstd::prelude::*;
use vstd::string::*;

use crate::address::{pair_views, parsed_url, split_query, url_pairs, url_path};
use crate::error::{plain, Error, Fault};
use crate::numeral::{decimal, show_u64};
use crate::text::{
    a_part_is_found, byte_len, bytes_in, chars_of, concat, concat3, decode_lossy, has, lines,
    lines_end_at_line_feeds, lines_of, lossy_text, one_word_is_no_two, opt_str, opt_view, same,
    second_word, second_word_of, views, white_space, words_stand_between_spaces,
};

verus! {

// ---------------------------------------------------------------------------
// Reading a request
// ---------------------------------------------------------------------------

/// Whether the headers of a request end at a place in what has come in.
pub open spec fn headers_end(bytes: Seq<u8>, i: int) -> bool {
    0 <= i && i + 4 <= bytes.len() && bytes[i] == 13 && bytes[i + 1] == 10 && bytes[i + 2] == 13
        && bytes[i + 3] == 10
}

/// Whether enough of a request has come in: its headers, or more than anyone would
/// send.
pub open spec fn is_complete(bytes: Seq<u8>) -> bool {
    bytes.len() > 65_536 || exists|i: int| headers_end(bytes, i)
}

/// Whether enough of a request has come in.
pub fn headers_complete(buffer: &[u8]) -> (r: bool)
    ensures
        r == is_complete(buffer@),
{
    if buffer.len() > 65_536 {
        return true;
    }
    if buffer.len() < 4 {
        return false;
    }
    let last: usize = buffer.len() - 4;
    let mut i: usize = 0;
    while i <= last
        invariant
            last == buffer@.len() - 4,
            buffer@.len() <= 65_536,
            i <= last + 1,
            forall|k: int| 0 <= k < i ==> !#[trigger] headers_end(buffer@, k),
        decreases last + 1 - i,
    {
        if buffer[i] == 13 && buffer[i + 1] == 10 && buffer[i + 2] == 13 && buffer[i + 3] == 10 {
            assert(headers_end(buffer@, i as int));
            return true;
        }
        i += 1;
    }
    false
}

/// What a request asks for: the second word of its first line.
pub open spec fn target_in(request: Seq<char>) -> Option<Seq<char>> {
    let all = lines(request);
    if all.len() > 0 {
        second_word(all[0])
    } else {
        None
    }
}

/// What a request asks for.
pub fn request_target(request: &str) -> (r: Option<String>)
    ensures
        opt_view(r) == target_in(request@),
{
    let all = lines_of(chars_of(request).as_slice());
    assert(views(all@).len() == all@.len());
    if all.len() > 0 {
        assert(views(all@)[0] == all@[0]@);
        second_word_of(chars_of(all[0].as_str()).as_slice())
    } else {
        None
    }
}

// ---------------------------------------------------------------------------
// Deciding
// ---------------------------------------------------------------------------

/// What a request comes to: the mathematical model of [`Callback`].
pub enum Answer {
    Wait(Seq<char>),
    Accept(Seq<char>, Seq<char>),
    Abort(Option<Seq<char>>, Fault),
}

/// What a request comes to.
#[derive(Debug, PartialEq)]
pub enum Callback {
    /// The browser is told something, and the next request is awaited.
    Wait(String),
    /// The browser is told something, and the code is in.
    Accept(String, String),
    /// The browser is told something, unless it cannot be, and the login is over.
    Abort(Option<String>, Error),
}

impl View for Callback {
    type V = Answer;

    open spec fn view(&self) -> Answer {
        match self {
            Callback::Wait(message) => Answer::Wait(message@),
            Callback::Accept(message, code) => Answer::Accept(message@, code@),
            Callback::Abort(message, e) => Answer::Abort(opt_view(*message), e@),
        }
    }
}

/// The first value under a name.
pub open spec fn param(pairs: Seq<(Seq<char>, Seq<char>)>, key: Seq<char>) -> Option<Seq<char>>
    decreases pairs.len(),
{
    if pairs.len() == 0 {
        None
    } else if pairs[0].0 == key {
        Some(pairs[0].1)
    } else {
        param(pairs.skip(1), key)
    }
}

/// What a request to a path with some parameters comes to, when the login was begun
/// with the given state.
pub open spec fn decided(
    path: Seq<char>,
    pairs: Seq<(Seq<char>, Seq<char>)>,
    state: Seq<char>,
) -> Answer {
    if path != "/callback"@ {
        Answer::Wait("Waiting for the authorization callback\u{2026}"@)
    } else {
        match param(pairs, "error"@) {
            Some(error) => {
                let description = match param(pairs, "error_description"@) {
                    Some(description) => description,
                    None => seq![],
                };
                Answer::Abort(
                    Some("Authorization failed: "@ + error),
                    plain("authorization failed: "@ + error + " "@ + description),
                )
            },
            None => match param(pairs, "code"@) {
                None => Answer::Wait("Missing authorization code."@),
                Some(code) => if param(pairs, "state"@) == Some(state) {
                    Answer::Accept("Authorized. You can close this tab."@, code)
                } else {
                    Answer::Abort(
                        Some("State mismatch."@),
                        plain(
                            "authorization state mismatch \u{2014} possible CSRF, aborting"@,
                        ),
                    )
                },
            },
        }
    }
}

/// The first value under a name.
pub fn find_param<'a>(pairs: &'a Vec<(String, String)>, key: &str) -> (r: Option<&'a str>)
    ensures
        opt_str(r) == param(pair_views(pairs@), key@),
{
    let ghost all = pair_views(pairs@);
    let mut i: usize = 0;
    assert(all.skip(0) =~= all);
    while i < pairs.len()
        invariant
            all == pair_views(pairs@),
            i <= pairs@.len(),
            param(all, key@) == param(all.skip(i as int), key@),
        decreases pairs@.len() - i,
    {
        assert(all.skip(i as int)[0] == (pairs@[i as int].0@, pairs@[i as int].1@));
        assert(all.skip(i as int).skip(1) =~= all.skip(i + 1));
        if same(pairs[i].0.as_str(), key) {
            return Some(pairs[i].1.as_str());
        }
        i += 1;
    }
    assert(all.skip(i as int) =~= seq![]);
    None
}

/// What a request to a path with some parameters comes to.
pub fn decide(path: &str, pairs: &Vec<(String, String)>, state: &str) -> (r: Callback)
    ensures
        r@ == decided(path@, pair_views(pairs@), state@),
{
    if !same(path, "/callback") {
        return Callback::Wait("Waiting for the authorization callback\u{2026}".to_owned());
    }
    if let Some(error) = find_param(pairs, "error") {
        let description: String = match find_param(pairs, "error_description") {
            Some(description) => description.to_owned(),
            None => String::new(),
        };
        let mut headline = concat3("authorization failed: ", error, " ");
        headline.append(description.as_str());
        return Callback::Abort(
            Some(concat("Authorization failed: ", error)),
            Error::plain(headline),
        );
    }
    match find_param(pairs, "code") {
        None => Callback::Wait("Missing authorization code.".to_owned()),
        Some(code) => {
            let matches = match find_param(pairs, "state") {
                Some(returned) => same(returned, state),
                None => false,
            };
            if matches {
                Callback::Accept(
                    "Authorized. You can close this tab.".to_owned(),
                    code.to_owned(),
                )
            } else {
                Callback::Abort(
                    Some("State mismatch.".to_owned()),
                    Error::plain(
                        "authorization state mismatch \u{2014} possible CSRF, aborting".to_owned(),
                    ),
                )
            }
        },
    }
}

/// What a request comes to, when the login was begun with the given state.
pub open spec fn answered(request: Seq<char>, state: Seq<char>) -> Answer {
    match target_in(request) {
        None => Answer::Wait("Bad request."@),
        Some(target) => {
            let url = "http://localhost"@ + target;
            match parsed_url(url) {
                Err(e) => Answer::Abort(None, plain(e)),
                Ok(url) => decided(url_path(url), url_pairs(url), state),
            }
        },
    }
}

/// What a request comes to.
pub fn answer(request: &str, state: &str) -> (r: Callback)
    ensures
        r@ == answered(request@, state@),
{
    match request_target(request) {
        None => Callback::Wait("Bad request.".to_owned()),
        Some(target) => {
            let url = concat("http://localhost", target.as_str());
            match split_query(url.as_str()) {
                Err(e) => Callback::Abort(None, Error::plain(e)),
                Ok((path, pairs)) => decide(path.as_str(), &pairs, state),
            }
        },
    }
}

/// What the bytes of a request come to.
pub fn answer_bytes(buffer: &[u8], state: &str) -> (r: Callback)
    ensures
        r@ == answered(lossy_text(buffer@), state@),
{
    let request = decode_lossy(buffer);
    answer(request.as_str(), state)
}

// ---------------------------------------------------------------------------
// Responding
// ---------------------------------------------------------------------------

/// The page that tells the browser something.
pub open spec fn page(message: Seq<char>) -> Seq<char> {
    "<!doctype html><meta charset=\"utf-8\"><title>mcp</title><body style=\"font:16px system-ui;padding:3rem\">"@
        + message + "</body>"@
}

/// The response that tells the browser something.
pub open spec fn response(message: Seq<char>) -> Seq<char> {
    "HTTP/1.1 200 OK\r\nContent-Type: text/html; charset=utf-8\r\nContent-Length: "@ + decimal(
        bytes_in(page(message)),
    ) + "\r\nConnection: close\r\n\r\n"@ + page(message)
}

/// The response that tells the browser something.
pub fn respond(message: &str) -> (r: String)
    ensures
        r@ == response(message@),
{
    let body = concat3(
        "<!doctype html><meta charset=\"utf-8\"><title>mcp</title><body style=\"font:16px system-ui;padding:3rem\">",
        message,
        "</body>",
    );
    let mut out = concat3(
        "HTTP/1.1 200 OK\r\nContent-Type: text/html; charset=utf-8\r\nContent-Length: ",
        show_u64(byte_len(body.as_str()) as u64).as_str(),
        "\r\nConnection: close\r\n\r\n",
    );
    out.append(body.as_str());
    out
}

// ---------------------------------------------------------------------------
// Laws
// ---------------------------------------------------------------------------

/// A code is accepted only from a request to the callback that returns the state with
/// which the login was begun, and reports no error.
pub proof fn only_the_right_state_brings_a_code(
    path: Seq<char>,
    pairs: Seq<(Seq<char>, Seq<char>)>,
    state: Seq<char>,
)
    ensures
        decided(path, pairs, state) matches Answer::Accept(_, code) <==> path == "/callback"@ && param(
            pairs,
            "error"@,
        ) is None && param(pairs, "state"@) == Some(state) && param(pairs, "code"@) is Some,
        decided(path, pairs, state) matches Answer::Accept(_, code) ==> param(pairs, "code"@) == Some(
            code,
        ),
{
}

/// A code with another state, or with none, ends the login.
pub proof fn another_state_ends_the_login(
    pairs: Seq<(Seq<char>, Seq<char>)>,
    state: Seq<char>,
)
    requires
        param(pairs, "code"@) is Some,
        param(pairs, "state"@) != Some(state),
    ensures
        decided("/callback"@, pairs, state) is Abort,
{
}

/// A request to any other path leaves the login waiting.
pub proof fn other_paths_change_nothing(
    path: Seq<char>,
    pairs: Seq<(Seq<char>, Seq<char>)>,
    state: Seq<char>,
)
    requires
        path != "/callback"@,
    ensures
        decided(path, pairs, state) is Wait,
{
}

/// Bytes that come in later do not make a complete request incomplete.
pub proof fn completeness_stays(bytes: Seq<u8>, more: Seq<u8>)
    requires
        is_complete(bytes),
    ensures
        is_complete(bytes + more),
{
    if bytes.len() <= 65_536 {
        let i = choose|i: int| headers_end(bytes, i);
        assert(headers_end(bytes + more, i));
    }
}

/// The value of a parameter is that of the first pair with its name.
pub proof fn the_first_value_of_a_name_counts(
    before: Seq<(Seq<char>, Seq<char>)>,
    key: Seq<char>,
    value: Seq<char>,
    more: Seq<(Seq<char>, Seq<char>)>,
)
    requires
        forall|i: int| 0 <= i < before.len() ==> (#[trigger] before[i]).0 != key,
    ensures
        param(before.push((key, value)) + more, key) == Some(value),
        param(before, key) is None,
    decreases before.len(),
{
    let all = before.push((key, value)) + more;
    if before.len() == 0 {
        assert(all[0] == (key, value));
    } else {
        let rest = before.skip(1);
        assert(all[0] == before[0]);
        assert(all.skip(1) =~= rest.push((key, value)) + more);
        assert forall|i: int| 0 <= i < rest.len() implies (#[trigger] rest[i]).0 != key by {
            assert(rest[i] == before[i + 1]);
        }
        assert(before[0].0 != key);
        the_first_value_of_a_name_counts(rest, key, value, more);
    }
}

/// What a request on the right path comes to: a reported error ends the login whatever
/// else is there, a code with the right state is accepted, a code with another state or
/// none ends the login, and without a code the next request is awaited.
pub proof fn the_answer_of_the_browser_decides(
    pairs: Seq<(Seq<char>, Seq<char>)>,
    state: Seq<char>,
    error: Seq<char>,
    description: Seq<char>,
    code: Seq<char>,
)
    ensures
        param(pairs, "error"@) == Some(error) && param(pairs, "error_description"@) == Some(description)
            ==> decided("/callback"@, pairs, state) == Answer::Abort(
            Some("Authorization failed: "@ + error),
            plain("authorization failed: "@ + error + " "@ + description),
        ),
        param(pairs, "error"@) == Some(error) && param(pairs, "error_description"@) is None ==> decided(
            "/callback"@,
            pairs,
            state,
        ) == Answer::Abort(
            Some("Authorization failed: "@ + error),
            plain("authorization failed: "@ + error + " "@),
        ),
        param(pairs, "error"@) is None && param(pairs, "code"@) == Some(code) && param(pairs, "state"@)
            == Some(state) ==> decided("/callback"@, pairs, state) == Answer::Accept(
            "Authorized. You can close this tab."@,
            code,
        ),
        param(pairs, "error"@) is None && param(pairs, "code"@) == Some(code) && param(pairs, "state"@)
            != Some(state) ==> decided("/callback"@, pairs, state) == Answer::Abort(
            Some("State mismatch."@),
            plain("authorization state mismatch \u{2014} possible CSRF, aborting"@),
        ),
        param(pairs, "error"@) is None && param(pairs, "code"@) is None ==> decided(
            "/callback"@,
            pairs,
            state,
        ) == Answer::Wait("Missing authorization code."@),
{
    let said = "authorization failed: "@ + error + " "@;
    assert(said + Seq::<char>::empty() =~= said);
}

/// Any other path is answered that the answer is still awaited.
pub proof fn other_paths_are_told_to_wait(
    path: Seq<char>,
    pairs: Seq<(Seq<char>, Seq<char>)>,
    state: Seq<char>,
)
    requires
        path != "/callback"@,
    ensures
        decided(path, pairs, state) == Answer::Wait("Waiting for the authorization callback\u{2026}"@),
{
}

/// The target of a request is the second word of its first line, whatever follows.
pub proof fn the_request_line_names_the_target(
    method: Seq<char>,
    target: Seq<char>,
    version: Seq<char>,
    rest: Seq<char>,
)
    requires
        method.len() > 0,
        target.len() > 0,
        forall|i: int| 0 <= i < method.len() ==> !white_space(#[trigger] method[i]),
        forall|i: int| 0 <= i < target.len() ==> !white_space(#[trigger] target[i]),
        forall|i: int| 0 <= i < version.len() ==> !white_space(#[trigger] version[i]),
    ensures
        target_in(method + seq![' '] + target + seq![' '] + version + seq!['\r', '\n'] + rest) == Some(
            target,
        ),
        target_in(method + seq!['\r', '\n'] + rest) is None,
{
    let gap = seq![' '];
    let tail = seq![' '] + version;
    let line = method + gap + target + tail;
    assert forall|i: int| 0 <= i < line.len() implies line[i] != '\n' by {
        if i < method.len() {
            assert(line[i] == method[i]);
        } else if i == method.len() {
            assert(line[i] == ' ');
        } else if i < method.len() + 1 + target.len() {
            assert(line[i] == target[i - method.len() - 1]);
        } else if i == method.len() + 1 + target.len() {
            assert(line[i] == ' ');
        } else {
            assert(line[i] == version[i - method.len() - target.len() - 2]);
        }
    }
    assert(!line.contains('\n'));
    let whole = method + seq![' '] + target + seq![' '] + version + seq!['\r', '\n'] + rest;
    assert(whole =~= line + seq!['\r', '\n'] + rest);
    lines_end_at_line_feeds(line, rest);
    assert(lines(whole)[0] == line);
    assert(line =~= Seq::<char>::empty() + method + gap + target + tail);
    words_stand_between_spaces(seq![], method, gap, target, tail);
    assert(!method.contains('\n')) by {
        assert forall|i: int| 0 <= i < method.len() implies method[i] != '\n' by {}
    }
    lines_end_at_line_feeds(method, rest);
    let short = method + seq!['\r', '\n'] + rest;
    assert(lines(short)[0] == method);
    one_word_is_no_two(method);
}

/// A request that names no target is answered so, and one that does is decided by the
/// path and the parameters of that target.
pub proof fn requests_are_answered_by_their_target(
    request: Seq<char>,
    state: Seq<char>,
    target: Seq<char>,
    url: url::Url,
    complaint: Seq<char>,
)
    ensures
        target_in(request) is None ==> answered(request, state) == Answer::Wait("Bad request."@),
        target_in(request) == Some(target) && parsed_url("http://localhost"@ + target) == Ok::<
            url::Url,
            Seq<char>,
        >(url) ==> answered(request, state) == decided(url_path(url), url_pairs(url), state),
        target_in(request) == Some(target) && parsed_url("http://localhost"@ + target) == Err::<
            url::Url,
            Seq<char>,
        >(complaint) ==> answered(request, state) == Answer::Abort(None, plain(complaint)),
{
}

/// A request is complete exactly with the blank line behind its headers, or when it has
/// grown beyond 64 KiB.
pub proof fn requests_end_with_a_blank_line(before: Seq<u8>, behind: Seq<u8>, bytes: Seq<u8>)
    ensures
        is_complete(before + seq![13u8, 10u8, 13u8, 10u8] + behind),
        bytes.len() > 64 * 1024 ==> is_complete(bytes),
        is_complete(bytes) && bytes.len() <= 64 * 1024 ==> exists|i: int|
            0 <= i && i + 4 <= bytes.len() && #[trigger] bytes.subrange(i, i + 4) == seq![
                13u8,
                10u8,
                13u8,
                10u8,
            ],
{
    let whole = before + seq![13u8, 10u8, 13u8, 10u8] + behind;
    let n = before.len() as int;
    assert(whole[n] == 13 && whole[n + 1] == 10 && whole[n + 2] == 13 && whole[n + 3] == 10);
    assert(headers_end(whole, n));
    if is_complete(bytes) && bytes.len() <= 64 * 1024 {
        let i = choose|i: int| headers_end(bytes, i);
        assert(bytes.subrange(i, i + 4) =~= seq![13u8, 10u8, 13u8, 10u8]);
    }
}

/// The browser is shown the message, on a page whose length is announced in bytes.
pub proof fn the_page_shows_the_message(message: Seq<char>)
    ensures
        has(page(message), message),
        response(message)
            == "HTTP/1.1 200 OK\r\nContent-Type: text/html; charset=utf-8\r\nContent-Length: "@ + decimal(
            bytes_in(page(message)),
        ) + "\r\nConnection: close\r\n\r\n"@ + page(message),
        page(message)
            == "<!doctype html><meta charset=\"utf-8\"><title>mcp</title><body style=\"font:16px system-ui;padding:3rem\">"@
            + message + "</body>"@,
{
    a_part_is_found(
        seq![],
        "<!doctype html><meta charset=\"utf-8\"><title>mcp</title><body style=\"font:16px system-ui;padding:3rem\">"@,
        message,
        "</body>"@,
    );
}

/// Only the first line of a request counts, however it ends.
pub proof fn only_the_first_line_counts(line: Seq<char>, rest: Seq<char>)
    requires
        !line.contains('\n'),
    ensures
        line.len() == 0 || line.last() != '\r' ==> target_in(line + seq!['\n'] + rest) == second_word(
            line,
        ),
        target_in(line + seq!['\r', '\n'] + rest) == second_word(line),
        line.len() > 0 ==> target_in(line) == second_word(line),
        target_in(seq![]) is None,
{
    lines_end_at_line_feeds(line, rest);
    assert((seq![line] + lines(rest))[0] == line);
}

/// What a request comes to is seen as it is.
pub proof fn answers_are_seen_as_they_are(message: String, code: String, told: Option<String>, e: Error)
    ensures
        Callback::Wait(message)@ == Answer::Wait(message@),
        Callback::Accept(message, code)@ == Answer::Accept(message@, code@),
        Callback::Abort(told, e)@ == Answer::Abort(opt_view(told), e@),
{
}

} // verus!
