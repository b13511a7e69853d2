//! JSON-RPC messages: requests, notifications, and what an answer holds.

use vstd::prelude::*;
use vstd::string::*;

use crate::error::{because, plain, Error, Fault};
use crate::json::{
    compact_text, member_wf, members_stay_wf, members_view, object_view, object_wf, outcome,
    parse_json, parse_view, parse_wf, parsed_json, to_compact, Json, JsonNumber, JsonV,
};
use crate::numeral::{decimal_int, show_i64};
use crate::table::{
    ascending, key_is_first, on_values_commutes, put, put_keeps_order, put_then_lookup, Table,
};
use crate::text::{
    blank, blank_is_all_space, chars_of, concat, is_blank, string_of, trim, trimmed,
    trimmed_ends_are_no_space, trimming_nothing, trimming_takes_the_space_around, white_space,
};
use vstd::slice::slice_subrange;

verus! {

/// A text without white space around it, cut after 500 characters, with an
/// ellipsis where something was cut.
pub open spec fn truncated(s: Seq<char>) -> Seq<char> {
    let t = trim(s);
    if t.len() > 500 {
        t.take(500).push('\u{2026}')
    } else {
        t
    }
}

/// Cuts a text for an error message.
pub fn truncate(s: &str) -> (r: String)
    ensures
        r@ == truncated(s@),
{
    let chars = chars_of(s);
    let t = trimmed(chars.as_slice());
    if t.len() > 500 {
        let head = slice_subrange(t, 0, 500);
        assert(head@ =~= t@.take(500));
        let mut out = string_of(head);
        out.push('\u{2026}');
        out
    } else {
        string_of(t)
    }
}

// ---------------------------------------------------------------------------
// Building objects
// ---------------------------------------------------------------------------

/// Named values, by their views.
pub open spec fn pairs_view(pairs: Seq<(&str, Json)>) -> Seq<(Seq<char>, JsonV)> {
    pairs.map_values(|p: (&str, Json)| (p.0@, p.1@))
}

/// The members that named values make, one put after another.
pub open spec fn members_of(pairs: Seq<(Seq<char>, JsonV)>) -> Seq<(Seq<char>, JsonV)>
    decreases pairs.len(),
{
    if pairs.len() == 0 {
        seq![]
    } else {
        put(members_of(pairs.drop_last()), pairs.last().0, pairs.last().1)
    }
}

/// The object that named values make.
pub open spec fn object_with(pairs: Seq<(Seq<char>, JsonV)>) -> JsonV {
    JsonV::Object(members_of(pairs))
}

/// The object that named values make.
pub fn object(pairs: Vec<(&str, Json)>) -> (r: Json)
    requires
        forall|i: int| 0 <= i < pairs@.len() ==> (#[trigger] pairs@[i]).1@.wf(),
    ensures
        r@ == object_with(pairs_view(pairs@)),
        r@.wf(),
{
    let ghost given = pairs@;
    let ghost all = pairs_view(given);
    let mut table: Table<Json> = Table::new();
    assert(members_view(table@) =~= seq![]);
    for pair in it: pairs
        invariant
            it.seq() == given,
            all == pairs_view(given),
            forall|i: int| 0 <= i < given.len() ==> (#[trigger] given[i]).1@.wf(),
            table.wf(),
            members_view(table@) == members_of(all.take(it.index())),
            forall|k: int|
                0 <= k < members_view(table@).len() ==> (#[trigger] members_view(
                    table@,
                )[k]).1.wf(),
    {
        let ghost n = it.index();
        let ghost before = members_view(table@);
        let (key, value) = pair;
        let ghost v = value;
        assert(given[n] == (key, value));
        proof {
            assert(all.take(n + 1).drop_last() =~= all.take(n));
            on_values_commutes(table@, |j: Json| j@, key@, value);
            members_stay_wf(before, key@, value@);
        }
        table.insert(key.to_owned(), value);
        assert(members_view(table@) =~= put(before, key@, v@));
    }
    proof {
        assert(all.take(given.len() as int) =~= all);
        object_view(table);
        on_values_commutes(table@, |j: Json| j@, seq![], Json::Null);
        object_wf(members_view(table@));
    }
    Json::Object(table)
}

/// The JSON value of a text.
pub fn text_json(s: &str) -> (r: Json)
    ensures
        r@ == JsonV::Text(s@),
        r@.wf(),
{
    Json::Text(s.to_owned())
}

// ---------------------------------------------------------------------------
// Messages
// ---------------------------------------------------------------------------

/// A request: a call with an identifier that its answer repeats.
pub open spec fn request_body(id: u64, method: Seq<char>, params: JsonV) -> JsonV {
    object_with(
        seq![
            ("jsonrpc"@, JsonV::Text("2.0"@)),
            ("id"@, JsonV::Number(JsonNumber::PosInt(id))),
            ("method"@, JsonV::Text(method)),
            ("params"@, params),
        ],
    )
}

/// A notification: a call that nothing answers.
pub open spec fn notification_body(method: Seq<char>, params: JsonV) -> JsonV {
    object_with(
        seq![
            ("jsonrpc"@, JsonV::Text("2.0"@)),
            ("method"@, JsonV::Text(method)),
            ("params"@, params),
        ],
    )
}

/// Makes a request.
pub fn request_message(id: u64, method: &str, params: Json) -> (r: Json)
    requires
        params@.wf(),
    ensures
        r@ == request_body(id, method@, params@),
        r@.wf(),
{
    let pairs: Vec<(&str, Json)> = vec![
        ("jsonrpc", text_json("2.0")),
        ("id", Json::Number(JsonNumber::PosInt(id))),
        ("method", text_json(method)),
        ("params", params),
    ];
    assert(pairs_view(pairs@) =~= seq![
        ("jsonrpc"@, JsonV::Text("2.0"@)),
        ("id"@, JsonV::Number(JsonNumber::PosInt(id))),
        ("method"@, JsonV::Text(method@)),
        ("params"@, params@),
    ]);
    object(pairs)
}

/// Makes a notification.
pub fn notification_message(method: &str, params: Json) -> (r: Json)
    requires
        params@.wf(),
    ensures
        r@ == notification_body(method@, params@),
        r@.wf(),
{
    let pairs: Vec<(&str, Json)> = vec![
        ("jsonrpc", text_json("2.0")),
        ("method", text_json(method)),
        ("params", params),
    ];
    assert(pairs_view(pairs@) =~= seq![
        ("jsonrpc"@, JsonV::Text("2.0"@)),
        ("method"@, JsonV::Text(method@)),
        ("params"@, params@),
    ]);
    object(pairs)
}

// ---------------------------------------------------------------------------
// Answers
// ---------------------------------------------------------------------------

/// Whether a message answers the request with the given identifier.
pub open spec fn answers(value: JsonV, want_id: u64) -> bool {
    match value.get("id"@) {
        Some(id) => id.as_u64() == Some(want_id),
        None => false,
    }
}

/// The number of an error, zero where it has none.
pub open spec fn error_code(error: JsonV) -> i64 {
    match error.get("code"@) {
        Some(code) => match code.as_i64() {
            Some(i) => i,
            None => 0,
        },
        None => 0,
    }
}

/// The message of an error.
pub open spec fn error_message(error: JsonV) -> Seq<char> {
    match error.text_at("message"@) {
        Some(message) => message,
        None => "unknown error"@,
    }
}

/// What an error says beyond its message, in brackets.
pub open spec fn error_data(error: JsonV) -> Seq<char> {
    match error.get("data"@) {
        Some(data) => if data is Null {
            seq![]
        } else {
            " ("@ + compact_text(data) + ")"@
        },
        None => seq![],
    }
}

/// What a message gives as the answer to a request: its result, or the error that
/// it reports, or the error that it is no answer.
pub open spec fn extracted(value: JsonV, want_id: u64) -> Result<JsonV, Fault> {
    if !answers(value, want_id) {
        Err(plain("unexpected JSON-RPC response: "@ + truncated(compact_text(value))))
    } else {
        match value.get("error"@) {
            Some(error) => Err(
                plain(
                    "MCP error "@ + decimal_int(error_code(error) as int) + ": "@ + error_message(
                        error,
                    ) + error_data(error),
                ),
            ),
            None => match value.get("result"@) {
                Some(result) => Ok(result),
                None => Ok(JsonV::Null),
            },
        }
    }
}

/// Whether a message answers the request with the given identifier.
pub fn matches_id(value: &Json, want_id: u64) -> (r: bool)
    ensures
        r == answers(value@, want_id),
{
    match value.get("id") {
        Some(id) => match id.as_u64() {
            Some(n) => n == want_id,
            None => false,
        },
        None => false,
    }
}

/// What a message gives as the answer to a request.
pub fn extract_result(value: Json, want_id: u64) -> (r: Result<Json, Error>)
    requires
        value@.wf(),
    ensures
        outcome(r) == extracted(value@, want_id),
        r matches Ok(v) ==> v@.wf(),
{
    if !matches_id(&value, want_id) {
        let shown = truncate(to_compact(&value).as_str());
        return Err(Error::plain(concat("unexpected JSON-RPC response: ", shown.as_str())));
    }
    proof {
        member_wf(value@, "error"@);
        member_wf(value@, "result"@);
    }
    if let Some(error) = value.get("error") {
        let code: i64 = match error.get("code") {
            Some(code) => match code.as_i64() {
                Some(i) => i,
                None => 0,
            },
            None => 0,
        };
        let message: &str = match error.text_at("message") {
            Some(message) => message,
            None => "unknown error",
        };
        proof {
            member_wf(error@, "data"@);
        }
        let data: String = match error.get("data") {
            Some(data) => if data.is_null() {
                String::new()
            } else {
                let mut shown = concat(" (", to_compact(data).as_str());
                shown.append(")");
                shown
            },
            None => String::new(),
        };
        let mut headline = concat("MCP error ", show_i64(code).as_str());
        headline.append(": ");
        headline.append(message);
        headline.append(data.as_str());
        return Err(Error::plain(headline));
    }
    match value.get("result") {
        Some(result) => Ok(result.clone()),
        None => Ok(Json::Null),
    }
}

/// What the body of a response gives as the answer to a request, when reading it
/// as JSON gave `parsed`.
pub open spec fn body_answer(
    parsed: Result<JsonV, Seq<char>>,
    text: Seq<char>,
    want_id: u64,
) -> Result<JsonV, Fault> {
    if blank(text) {
        Err(plain("empty response from MCP server"@))
    } else {
        match parsed {
            Err(cause) => Err(because("parsing MCP response: "@ + truncated(text), cause)),
            Ok(value) => extracted(value, want_id),
        }
    }
}

/// What the body of a response gives as the answer to a request, from what
/// reading it as JSON gave.
pub fn answer_in_body(parsed: Result<Json, String>, text: &str, want_id: u64) -> (r: Result<
    Json,
    Error,
>)
    requires
        parse_wf(parsed),
    ensures
        outcome(r) == body_answer(parse_view(parsed), text@, want_id),
        r matches Ok(v) ==> v@.wf(),
{
    if is_blank(text) {
        return Err(Error::plain("empty response from MCP server".to_owned()));
    }
    match parsed {
        Err(cause) => {
            let headline = concat("parsing MCP response: ", truncate(text).as_str());
            Err(Error::because(headline, cause))
        },
        Ok(value) => extract_result(value, want_id),
    }
}

/// Reads the body of a response as the answer to a request.
pub fn read_body(text: &str, want_id: u64) -> (r: Result<Json, Error>)
    ensures
        outcome(r) == body_answer(parsed_json(text@), text@, want_id),
        r matches Ok(v) ==> v@.wf(),
{
    answer_in_body(parse_json(text), text, want_id)
}

// ---------------------------------------------------------------------------
// Laws
// ---------------------------------------------------------------------------

/// A text that was cut for an error message is not cut again.
pub proof fn truncating_twice_changes_nothing(s: Seq<char>)
    ensures
        truncated(truncated(s)) == truncated(s),
{
    trimmed_ends_are_no_space(s);
    let cut = truncated(s);
    trimming_nothing(cut);
    if cut.len() > 500 {
        assert(cut.take(500).push('\u{2026}') =~= cut);
    }
}

/// A message that is shown in an error never takes more than 501 characters.
pub proof fn truncated_is_short(s: Seq<char>)
    ensures
        truncated(s).len() <= 501,
{
}

/// Only a message that repeats the identifier of a request can answer it.
pub proof fn only_the_right_identifier_answers(value: JsonV, want_id: u64)
    requires
        extracted(value, want_id) is Ok,
    ensures
        value.get("id"@) == Some(JsonV::Number(JsonNumber::PosInt(want_id))),
        value.get("error"@) is None,
{
}

/// What a body gives as an answer is that of a message which bears the number of the
/// request.
pub proof fn a_body_answers_its_request(
    parsed: Result<JsonV, Seq<char>>,
    text: Seq<char>,
    want_id: u64,
)
    requires
        body_answer(parsed, text, want_id) is Ok,
    ensures
        parsed matches Ok(value) && answers(value, want_id) && value.get("error"@) is None,
{
}

/// Different identifiers are never answered by one message.
pub proof fn one_message_answers_one_request(value: JsonV, a: u64, b: u64)
    requires
        answers(value, a),
        answers(value, b),
    ensures
        a == b,
{
}

proof fn members_stand_in_order(pairs: Seq<(Seq<char>, JsonV)>)
    ensures
        ascending(members_of(pairs)),
    decreases pairs.len(),
{
    if pairs.len() > 0 {
        members_stand_in_order(pairs.drop_last());
        put_keeps_order(members_of(pairs.drop_last()), pairs.last().0, pairs.last().1);
    }
}

/// An object that is made of named values has each of them under its name, the last
/// one where a name comes twice, and nothing under any other name.
pub proof fn objects_hold_their_pairs(pairs: Seq<(Seq<char>, JsonV)>, key: Seq<char>)
    ensures
        object_with(pairs).get(key) is None <==> (forall|i: int|
            0 <= i < pairs.len() ==> (#[trigger] pairs[i]).0 != key),
        forall|i: int|
            0 <= i < pairs.len() && (#[trigger] pairs[i]).0 == key && (forall|j: int|
                i < j < pairs.len() ==> (#[trigger] pairs[j]).0 != key) ==> object_with(pairs).get(key)
                == Some(pairs[i].1),
    decreases pairs.len(),
{
    if pairs.len() > 0 {
        let before = pairs.drop_last();
        let last = pairs.last();
        objects_hold_their_pairs(before, key);
        members_stand_in_order(before);
        put_then_lookup(members_of(before), last.0, last.1, key);
        assert(pairs[pairs.len() - 1] == last);
        assert forall|i: int| 0 <= i < before.len() implies before[i] == pairs[i] by {}
        if object_with(pairs).get(key) is None {
            assert forall|i: int| 0 <= i < pairs.len() implies (#[trigger] pairs[i]).0 != key by {
                if i < before.len() {
                    assert(before[i].0 != key);
                }
            }
        }
        assert forall|i: int|
            0 <= i < pairs.len() && (#[trigger] pairs[i]).0 == key && (forall|j: int|
                i < j < pairs.len() ==> (#[trigger] pairs[j]).0 != key) implies object_with(pairs).get(
            key,
        ) == Some(pairs[i].1) by {
            if i < before.len() {
                assert(pairs[pairs.len() - 1].0 != key);
                assert(before[i].0 == key);
                assert forall|j: int| i < j < before.len() implies (#[trigger] before[j]).0 != key by {
                    assert(pairs[j].0 != key);
                }
            }
        }
    } else {
        key_is_first(members_of(pairs), key, 0);
    }
}

/// A request names the protocol, its identifier, the method and the parameters, and
/// nothing else.
pub proof fn a_request_says_what_is_asked(id: u64, method: Seq<char>, params: JsonV, other: Seq<char>)
    ensures
        request_body(id, method, params).get("jsonrpc"@) == Some(JsonV::Text("2.0"@)),
        request_body(id, method, params).get("id"@) == Some(JsonV::Number(JsonNumber::PosInt(id))),
        request_body(id, method, params).get("method"@) == Some(JsonV::Text(method)),
        request_body(id, method, params).get("params"@) == Some(params),
        other != "jsonrpc"@ && other != "id"@ && other != "method"@ && other != "params"@
            ==> request_body(id, method, params).get(other) is None,
{
    reveal_strlit("jsonrpc");
    reveal_strlit("id");
    reveal_strlit("method");
    reveal_strlit("params");
    assert("jsonrpc"@.len() == 7);
    assert("id"@.len() == 2);
    assert("method"@.len() == 6 && "method"@[0] == 'm');
    assert("params"@.len() == 6 && "params"@[0] == 'p');
    let pairs = seq![
        ("jsonrpc"@, JsonV::Text("2.0"@)),
        ("id"@, JsonV::Number(JsonNumber::PosInt(id))),
        ("method"@, JsonV::Text(method)),
        ("params"@, params),
    ];
    assert(request_body(id, method, params) == object_with(pairs));
    assert(pairs[0].0 == "jsonrpc"@ && pairs[1].0 == "id"@ && pairs[2].0 == "method"@ && pairs[3].0
        == "params"@);
    objects_hold_their_pairs(pairs, "jsonrpc"@);
    objects_hold_their_pairs(pairs, "id"@);
    objects_hold_their_pairs(pairs, "method"@);
    objects_hold_their_pairs(pairs, "params"@);
    objects_hold_their_pairs(pairs, other);
}

/// A notification names the protocol, the method and the parameters, and has no
/// identifier, so that no answer is owed to it.
pub proof fn a_notification_has_no_identifier(method: Seq<char>, params: JsonV, other: Seq<char>)
    ensures
        notification_body(method, params).get("jsonrpc"@) == Some(JsonV::Text("2.0"@)),
        notification_body(method, params).get("method"@) == Some(JsonV::Text(method)),
        notification_body(method, params).get("params"@) == Some(params),
        notification_body(method, params).get("id"@) is None,
        other != "jsonrpc"@ && other != "method"@ && other != "params"@ ==> notification_body(
            method,
            params,
        ).get(other) is None,
{
    reveal_strlit("jsonrpc");
    reveal_strlit("id");
    reveal_strlit("method");
    reveal_strlit("params");
    assert("jsonrpc"@.len() == 7);
    assert("id"@.len() == 2);
    assert("method"@.len() == 6 && "method"@[0] == 'm');
    assert("params"@.len() == 6 && "params"@[0] == 'p');
    let pairs = seq![
        ("jsonrpc"@, JsonV::Text("2.0"@)),
        ("method"@, JsonV::Text(method)),
        ("params"@, params),
    ];
    assert(notification_body(method, params) == object_with(pairs));
    assert(pairs[0].0 == "jsonrpc"@ && pairs[1].0 == "method"@ && pairs[2].0 == "params"@);
    objects_hold_their_pairs(pairs, "jsonrpc"@);
    objects_hold_their_pairs(pairs, "method"@);
    objects_hold_their_pairs(pairs, "params"@);
    objects_hold_their_pairs(pairs, "id"@);
    objects_hold_their_pairs(pairs, other);
}

/// A message with the identifier of the request and without an error gives its result,
/// and nothing counts as `null`.
pub proof fn an_answer_gives_its_result(value: JsonV, want_id: u64, result: JsonV)
    requires
        value.get("id"@) == Some(JsonV::Number(JsonNumber::PosInt(want_id))),
        value.get("error"@) is None,
    ensures
        value.get("result"@) == Some(result) ==> extracted(value, want_id) == Ok::<JsonV, Fault>(result),
        value.get("result"@) is None ==> extracted(value, want_id) == Ok::<JsonV, Fault>(JsonV::Null),
{
}

/// A message that reports an error gives that error, with its code, its message and its
/// data as far as they are there, whatever else it holds.
pub proof fn a_reported_error_is_passed_on(
    value: JsonV,
    want_id: u64,
    error: JsonV,
    code: i64,
    message: Seq<char>,
    data: JsonV,
)
    requires
        value.get("id"@) == Some(JsonV::Number(JsonNumber::PosInt(want_id))),
        value.get("error"@) == Some(error),
        match error.get("code"@) {
            Some(c) => c.as_i64() == Some(code) || (c.as_i64() is None && code == 0),
            None => code == 0,
        },
        match error.get("message"@) {
            Some(JsonV::Text(m)) => message == m,
            _ => message == "unknown error"@,
        },
    ensures
        error.get("data"@) is None || error.get("data"@) == Some(JsonV::Null) ==> extracted(
            value,
            want_id,
        ) == Err::<JsonV, Fault>(plain("MCP error "@ + decimal_int(code as int) + ": "@ + message)),
        error.get("data"@) == Some(data) && !(data is Null) ==> extracted(value, want_id) == Err::<
            JsonV,
            Fault,
        >(
            plain(
                "MCP error "@ + decimal_int(code as int) + ": "@ + message + (" ("@ + compact_text(data)
                    + ")"@),
            ),
        ),
{
    let text = "MCP error "@ + decimal_int(code as int) + ": "@ + message;
    assert(text + Seq::<char>::empty() =~= text);
}

/// A message with another identifier, or with none, is no answer.
pub proof fn another_message_is_no_answer(value: JsonV, want_id: u64)
    requires
        value.get("id"@) != Some(JsonV::Number(JsonNumber::PosInt(want_id))),
    ensures
        !answers(value, want_id),
        extracted(value, want_id) == Err::<JsonV, Fault>(
            plain("unexpected JSON-RPC response: "@ + truncated(compact_text(value))),
        ),
{
}

/// A body is read as one message: nothing in it, and what is no JSON, are errors.
pub proof fn a_body_is_one_message(
    parsed: Result<JsonV, Seq<char>>,
    text: Seq<char>,
    want_id: u64,
    value: JsonV,
    cause: Seq<char>,
    i: int,
)
    ensures
        (forall|k: int| 0 <= k < text.len() ==> white_space(#[trigger] text[k])) ==> body_answer(
            parsed,
            text,
            want_id,
        ) == Err::<JsonV, Fault>(plain("empty response from MCP server"@)),
        0 <= i < text.len() && !white_space(text[i]) && parsed == Ok::<JsonV, Seq<char>>(value)
            ==> body_answer(parsed, text, want_id) == extracted(value, want_id),
        0 <= i < text.len() && !white_space(text[i]) && parsed == Err::<JsonV, Seq<char>>(cause)
            ==> body_answer(parsed, text, want_id) == Err::<JsonV, Fault>(
            because("parsing MCP response: "@ + truncated(text), cause),
        ),
{
    blank_is_all_space(text);
}

/// A text for an error message loses the space around it; up to 500 characters are kept,
/// and an ellipsis stands for the others.
pub proof fn long_texts_keep_their_beginning(text: Seq<char>)
    requires
        text.len() > 0 ==> !white_space(text[0]) && !white_space(text.last()),
    ensures
        text.len() <= 500 ==> truncated(text) == text,
        text.len() > 500 ==> truncated(text) == text.take(500) + seq!['\u{2026}'],
{
    trimming_nothing(text);
    assert(text.take(500).push('\u{2026}') =~= text.take(500) + seq!['\u{2026}']);
}

/// The space around a text makes no difference to what is kept of it.
pub proof fn space_around_is_not_kept(before: Seq<char>, text: Seq<char>, tail: Seq<char>)
    requires
        forall|i: int| 0 <= i < before.len() ==> white_space(#[trigger] before[i]),
        forall|i: int| 0 <= i < tail.len() ==> white_space(#[trigger] tail[i]),
        text.len() > 0 ==> !white_space(text[0]) && !white_space(text.last()),
    ensures
        truncated(before + text + tail) == truncated(text),
{
    trimming_takes_the_space_around(before, text, tail);
    trimming_nothing(text);
}

} // verus!
