//! What HTTP asks of header names, header values and status codes.

use reqwest::header::{HeaderMap, HeaderName, HeaderValue};
use vstd::prelude::*;
use vstd::string::*;

use crate::error::{because, Error, Fault};
use crate::table::{on_values, on_values_commutes, put, Table};
use crate::text::{ascii_lower, concat};

verus! {

/// Whether a character may stand in a header value.
pub open spec fn value_char(c: char) -> bool {
    c == '\t' || (c >= ' ' && c != '\u{7f}')
}

/// Whether a text may be the value of a header.
pub open spec fn is_header_value(s: Seq<char>) -> bool {
    forall|i: int| 0 <= i < s.len() ==> value_char(#[trigger] s[i])
}

/// Whether a character may stand in a header name.
pub open spec fn name_char(c: char) -> bool {
    ||| 'a' <= c <= 'z'
    ||| 'A' <= c <= 'Z'
    ||| '0' <= c <= '9'
    ||| c == '!' || c == '#' || c == '$' || c == '%' || c == '&' || c == '\''
    ||| c == '*' || c == '+' || c == '-' || c == '.' || c == '^' || c == '_'
    ||| c == '`' || c == '|' || c == '~'
}

/// Whether a text may be the name of a header.
pub open spec fn is_header_name(s: Seq<char>) -> bool {
    1 <= s.len() <= 65_535 && forall|i: int| 0 <= i < s.len() ==> name_char(#[trigger] s[i])
}

/// A header name as it is compared: in lower case.
pub open spec fn lowered(s: Seq<char>) -> Seq<char> {
    s.map_values(|c: char| ascii_lower(c))
}

/// The complaint about a text that is no header value.
pub open spec fn bad_value() -> Seq<char> {
    "failed to parse header value"@
}

/// The complaint about a text that is no header name.
pub open spec fn bad_name() -> Seq<char> {
    "invalid HTTP header name"@
}

/// How a status code is shown: its number and its usual name.
pub uninterp spec fn status_text(code: u16) -> Seq<char>;

/// `StatusCode::from_u16` and the `Display` of `StatusCode`, or that of the error
/// for a number that is no status code.
#[verifier::external_body]
pub(crate) fn show_status(code: u16) -> (r: String)
    ensures
        r@ == status_text(code),
{
    match reqwest::StatusCode::from_u16(code) {
        Ok(status) => status.to_string(),
        Err(e) => e.to_string(),
    }
}

/// Whether a status code reports success.
pub open spec fn is_success(code: u16) -> bool {
    200 <= code <= 299
}

/// Whether a status code reports success.
pub fn succeeded(code: u16) -> (r: bool)
    ensures
        r == is_success(code),
{
    200 <= code && code <= 299
}

// ---------------------------------------------------------------------------
// Sets of headers
// ---------------------------------------------------------------------------

/// `HeaderName`: the name of a header.
#[verifier::external_type_specification]
#[verifier::external_body]
pub struct ExHeaderName(reqwest::header::HeaderName);

/// `HeaderValue`: the value of a header.
#[verifier::external_type_specification]
#[verifier::external_body]
pub struct ExHeaderValue(reqwest::header::HeaderValue);

/// `HeaderMap`: headers by their names.
#[verifier::external_type_specification]
#[verifier::external_body]
#[verifier::reject_recursive_types(T)]
pub struct ExHeaderMap<T>(reqwest::header::HeaderMap<T>);

/// How a header name is written.
pub uninterp spec fn name_text(name: HeaderName) -> Seq<char>;

/// The text that a header value was made of.
pub uninterp spec fn value_text(value: HeaderValue) -> Seq<char>;

/// The values that headers hold, by the names of the headers.
pub uninterp spec fn header_values(headers: HeaderMap<HeaderValue>) -> Map<Seq<char>, Seq<char>>;

/// No headers.
pub open spec fn no_values() -> Map<Seq<char>, Seq<char>> {
    Map::empty()
}

/// `HeaderName::from_bytes`: the name in lower case where it has one to 65535
/// characters, all of which may stand in a name. The error has one fixed text.
#[verifier::external_body]
fn read_name(text: &str) -> (r: Result<HeaderName, String>)
    ensures
        r is Ok <==> is_header_name(text@),
        r matches Ok(name) ==> name_text(name) == lowered(text@),
        r matches Err(e) ==> e@ == bad_name(),
{
    HeaderName::from_bytes(text.as_bytes()).map_err(|e| e.to_string())
}

/// `HeaderName::from_static`: the name as it is. It does not return for a text that
/// is no header name in lower case.
#[verifier::external_body]
pub(crate) fn fixed_name(text: &'static str) -> (r: HeaderName)
    requires
        is_header_name(text@),
        lowered(text@) == text@,
    ensures
        name_text(r) == text@,
{
    HeaderName::from_static(text)
}

/// `HeaderValue::from_str`: every character but the control characters is taken,
/// and of those the tab. The error has one fixed text.
#[verifier::external_body]
fn read_value(text: &str) -> (r: Result<HeaderValue, String>)
    ensures
        r is Ok <==> is_header_value(text@),
        r matches Ok(value) ==> value_text(value) == text@,
        r matches Err(e) ==> e@ == bad_value(),
{
    HeaderValue::from_str(text).map_err(|e| e.to_string())
}

/// `HeaderMap::new`: no headers.
#[verifier::external_body]
pub(crate) fn no_headers() -> (r: HeaderMap<HeaderValue>)
    ensures
        header_values(r) == no_values(),
{
    HeaderMap::new()
}

/// `HeaderMap::try_insert`, and whether it succeeded: the value takes the place of
/// those that the name had. It fails only on headers with more than 6553 names, and
/// then they stay as they are.
#[verifier::external_body]
fn insert_value(headers: &mut HeaderMap<HeaderValue>, name: HeaderName, value: HeaderValue) -> (r: bool)
    ensures
        r ==> header_values(*final(headers)) == header_values(*old(headers)).insert(
            name_text(name),
            value_text(value),
        ),
        !r ==> header_values(*final(headers)) == header_values(*old(headers)),
        header_values(*old(headers)).dom().finite() && header_values(*old(headers)).len() <= 6_553
            ==> r,
{
    headers.try_insert(name, value).is_ok()
}

/// Why headers cannot be had.
#[derive(Debug, PartialEq)]
pub enum Refusal {
    /// What is wrong with one of them.
    Fault(Error),
    /// There are more than can be held.
    TooMany,
}

/// Named texts, by the views of the texts.
pub open spec fn texts(table: Seq<(Seq<char>, String)>) -> Seq<(Seq<char>, Seq<char>)> {
    on_values(table, |s: String| s@)
}

/// Puts a text under a name.
pub fn put_text(table: &mut Table<String>, name: &str, value: String)
    requires
        old(table).wf(),
    ensures
        final(table).wf(),
        texts(final(table)@) == put(texts(old(table)@), name@, value@),
{
    proof {
        on_values_commutes(table@, |s: String| s@, name@, value);
    }
    table.insert(name.to_owned(), value);
}

/// The value of a header, if it is there.
pub open spec fn header_in(headers: Map<Seq<char>, Seq<char>>, name: Seq<char>) -> Option<Seq<char>> {
    if headers.dom().contains(name) {
        Some(headers[name])
    } else {
        None
    }
}

/// The headers with one more under a name that is in lower case, or the error that
/// `complaint` names when the value is not allowed.
pub open spec fn with_value(
    headers: Map<Seq<char>, Seq<char>>,
    name: Seq<char>,
    value: Seq<char>,
    complaint: Seq<char>,
) -> Result<Map<Seq<char>, Seq<char>>, Fault> {
    if is_header_value(value) {
        Ok(headers.insert(name, value))
    } else {
        Err(because(complaint, bad_value()))
    }
}

/// The headers with one more, which takes the place of one that has the same name
/// in another case.
pub open spec fn with_header(
    headers: Map<Seq<char>, Seq<char>>,
    name: Seq<char>,
    value: Seq<char>,
) -> Result<Map<Seq<char>, Seq<char>>, Fault> {
    if !is_header_name(name) {
        Err(because("invalid header name: "@ + name, bad_name()))
    } else {
        with_value(headers, lowered(name), value, "invalid header value for "@ + name)
    }
}

/// The headers with further ones, one after another.
pub open spec fn with_headers(
    headers: Map<Seq<char>, Seq<char>>,
    extra: Seq<(Seq<char>, Seq<char>)>,
) -> Result<Map<Seq<char>, Seq<char>>, Fault>
    decreases extra.len(),
{
    if extra.len() == 0 {
        Ok(headers)
    } else {
        match with_headers(headers, extra.drop_last()) {
            Ok(before) => with_header(before, extra.last().0, extra.last().1),
            Err(e) => Err(e),
        }
    }
}

/// Whether headers have no more than so many names.
pub open spec fn at_most(headers: Map<Seq<char>, Seq<char>>, n: int) -> bool {
    headers.dom().finite() && headers.len() <= n
}

/// Puts a header under a name, when the value is allowed and there is room for it.
pub fn put_value(
    headers: &mut HeaderMap<HeaderValue>,
    name: HeaderName,
    value: &str,
    complaint: &str,
) -> (r: Result<(), Refusal>)
    ensures
        match r {
            Ok(_) => with_value(
                header_values(*old(headers)),
                name_text(name),
                value@,
                complaint@,
            ) == Ok::<Map<Seq<char>, Seq<char>>, Fault>(header_values(*final(headers))),
            Err(Refusal::Fault(e)) => with_value(
                header_values(*old(headers)),
                name_text(name),
                value@,
                complaint@,
            ) == Err::<Map<Seq<char>, Seq<char>>, Fault>(e@),
            Err(Refusal::TooMany) => is_header_value(value@) && !at_most(
                header_values(*old(headers)),
                6_553,
            ),
        },
        r is Err ==> header_values(*final(headers)) == header_values(*old(headers)),
{
    match read_value(value) {
        Ok(value) => if insert_value(headers, name, value) {
            Ok(())
        } else {
            Err(Refusal::TooMany)
        },
        Err(e) => Err(Refusal::Fault(Error::because(complaint.to_owned(), e))),
    }
}

/// Adds headers to others, one after another.
pub fn put_headers(headers: &mut HeaderMap<HeaderValue>, extra: &Table<String>) -> (r: Result<
    (),
    Refusal,
>)
    ensures
        match r {
            Ok(_) => with_headers(header_values(*old(headers)), texts(extra@)) == Ok::<Map<Seq<char>, Seq<char>>, Fault>(
                header_values(*final(headers)),
            ),
            Err(Refusal::Fault(e)) => with_headers(header_values(*old(headers)), texts(extra@))
                == Err::<Map<Seq<char>, Seq<char>>, Fault>(e@),
            Err(Refusal::TooMany) => !at_most(
                header_values(*old(headers)),
                6_554 - texts(extra@).len(),
            ),
        },
{
    let ghost start = header_values(*headers);
    let ghost all = texts(extra@);
    let ghost room = 6_554 - all.len();
    let mut i: usize = 0;
    assert(all.take(0) =~= seq![]);
    while i < extra.entries.len()
        invariant
            start == header_values(*old(headers)),
            all == texts(extra@),
            room == 6_554 - all.len(),
            i <= extra.entries@.len(),
            at_most(start, room) ==> at_most(header_values(*headers), room + i),
            with_headers(start, all.take(i as int)) == Ok::<Map<Seq<char>, Seq<char>>, Fault>(header_values(*headers)),
        decreases extra.entries@.len() - i,
    {
        assert(all.take(i + 1).drop_last() =~= all.take(i as int));
        let key = extra.entries[i].0.as_str();
        let value = extra.entries[i].1.as_str();
        assert(all.take(i + 1).last() == (key@, value@));
        match read_name(key) {
            Err(e) => {
                let error = Error::because(concat("invalid header name: ", key), e);
                proof {
                    first_error_stays(start, all, i + 1);
                }
                return Err(Refusal::Fault(error));
            },
            Ok(name) => {
                let complaint = concat("invalid header value for ", key);
                match put_value(headers, name, value, complaint.as_str()) {
                    Ok(_) => {},
                    Err(Refusal::Fault(error)) => {
                        proof {
                            first_error_stays(start, all, i + 1);
                        }
                        return Err(Refusal::Fault(error));
                    },
                    Err(Refusal::TooMany) => {
                        return Err(Refusal::TooMany);
                    },
                }
            },
        }
        i += 1;
    }
    assert(all.take(i as int) =~= all);
    Ok(())
}

/// Headers behind one that is refused change nothing of the error.
proof fn first_error_stays(
    headers: Map<Seq<char>, Seq<char>>,
    extra: Seq<(Seq<char>, Seq<char>)>,
    n: int,
)
    requires
        0 <= n <= extra.len(),
        with_headers(headers, extra.take(n)) is Err,
    ensures
        with_headers(headers, extra) == with_headers(headers, extra.take(n)),
    decreases extra.len() - n,
{
    if n == extra.len() {
        assert(extra.take(n) =~= extra);
    } else {
        assert(extra.take(n + 1).drop_last() =~= extra.take(n));
        first_error_stays(headers, extra, n + 1);
    }
}

// ---------------------------------------------------------------------------
// Laws
// ---------------------------------------------------------------------------

/// What added headers do not name stays as it was.
pub proof fn other_headers_stay(
    headers: Map<Seq<char>, Seq<char>>,
    extra: Seq<(Seq<char>, Seq<char>)>,
    name: Seq<char>,
)
    requires
        forall|i: int| 0 <= i < extra.len() ==> lowered((#[trigger] extra[i]).0) != name,
    ensures
        with_headers(headers, extra) matches Ok(all) ==> header_in(all, name) == header_in(
            headers,
            name,
        ),
    decreases extra.len(),
{
    if extra.len() > 0 {
        let rest = extra.drop_last();
        assert forall|i: int| 0 <= i < rest.len() implies lowered((#[trigger] rest[i]).0) != name by {
            assert(rest[i] == extra[i]);
        }
        other_headers_stay(headers, rest, name);
        assert(lowered(extra[extra.len() - 1].0) != name);
    }
}

/// An added header has the last word on its name: it replaces what was there, and
/// only a later one with the same name replaces it.
pub proof fn added_header_wins(
    headers: Map<Seq<char>, Seq<char>>,
    extra: Seq<(Seq<char>, Seq<char>)>,
    k: int,
)
    requires
        0 <= k < extra.len(),
        forall|i: int| k < i < extra.len() ==> lowered((#[trigger] extra[i]).0) != lowered(extra[k].0),
    ensures
        with_headers(headers, extra) matches Ok(all) ==> header_in(all, lowered(extra[k].0)) == Some(
            extra[k].1,
        ),
    decreases extra.len(),
{
    if k < extra.len() - 1 {
        let rest = extra.drop_last();
        assert forall|i: int| k < i < rest.len() implies lowered((#[trigger] rest[i]).0) != lowered(
            rest[k].0,
        ) by {
            assert(rest[i] == extra[i]);
        }
        added_header_wins(headers, rest, k);
        assert(lowered(extra[extra.len() - 1].0) != lowered(extra[k].0));
    }
}

/// A reply succeeded if its status has three digits of which the first is two.
pub proof fn success_is_told_by_the_first_digit(code: u16)
    ensures
        is_success(code) <==> code / 100 == 2,
{
}

/// A header name is compared character by character in lower case.
pub proof fn names_are_lowered_letter_by_letter(s: Seq<char>, i: int)
    requires
        0 <= i < s.len(),
    ensures
        lowered(s).len() == s.len(),
        'A' <= s[i] <= 'Z' ==> lowered(s)[i] as int == s[i] as int + 32,
        !('A' <= s[i] <= 'Z') ==> lowered(s)[i] == s[i],
{
}

/// Headers are accepted exactly if the name and the value of each are.
pub proof fn every_header_has_to_be_allowed(
    headers: Map<Seq<char>, Seq<char>>,
    extra: Seq<(Seq<char>, Seq<char>)>,
)
    ensures
        with_headers(headers, extra) is Ok <==> (forall|i: int|
            0 <= i < extra.len() ==> is_header_name((#[trigger] extra[i]).0) && is_header_value(
                extra[i].1,
            )),
    decreases extra.len(),
{
    if extra.len() > 0 {
        let rest = extra.drop_last();
        every_header_has_to_be_allowed(headers, rest);
        assert forall|i: int| 0 <= i < rest.len() implies rest[i] == extra[i] by {}
        assert(extra[extra.len() - 1] == extra.last());
        if with_headers(headers, extra) is Ok {
            assert forall|i: int| 0 <= i < extra.len() implies is_header_name(
                (#[trigger] extra[i]).0,
            ) && is_header_value(extra[i].1) by {
                if i < rest.len() {
                    assert(rest[i] == extra[i]);
                }
            }
        }
    }
}

/// The first header that is not allowed is the one that is reported, by its name.
pub proof fn the_first_forbidden_header_is_reported(
    headers: Map<Seq<char>, Seq<char>>,
    good: Seq<(Seq<char>, Seq<char>)>,
    bad: (Seq<char>, Seq<char>),
    more: Seq<(Seq<char>, Seq<char>)>,
)
    requires
        with_headers(headers, good) is Ok,
    ensures
        !is_header_name(bad.0) ==> with_headers(headers, good.push(bad) + more) == Err::<
            Map<Seq<char>, Seq<char>>,
            Fault,
        >(because("invalid header name: "@ + bad.0, "invalid HTTP header name"@)),
        is_header_name(bad.0) && !is_header_value(bad.1) ==> with_headers(headers, good.push(bad) + more)
            == Err::<Map<Seq<char>, Seq<char>>, Fault>(
            because("invalid header value for "@ + bad.0, "failed to parse header value"@),
        ),
{
    let upto = good.push(bad);
    let all = upto + more;
    assert(upto.drop_last() =~= good);
    assert(all.take(upto.len() as int) =~= upto);
    if with_headers(headers, upto) is Err {
        first_error_stays(headers, all, upto.len() as int);
    }
}

/// Names of headers consist of letters, digits and a few marks, and values of anything
/// but control characters other than the tab.
pub proof fn headers_hold_no_control_characters(c: char)
    ensures
        'a' <= c <= 'z' || 'A' <= c <= 'Z' || '0' <= c <= '9' || c == '-' || c == '_' ==> name_char(c),
        c <= ' ' || c >= '\u{7f}' ==> !name_char(c),
        c == '"' || c == '(' || c == ')' || c == ',' || c == '/' ==> !name_char(c),
        ':' <= c <= '@' || '[' <= c <= ']' || c == '{' || c == '}' ==> !name_char(c),
        '*' <= c <= '.' && c != ',' || '#' <= c <= '\'' || c == '!' ==> name_char(c),
        '^' <= c <= '`' || c == '|' || c == '~' ==> name_char(c),
        value_char(c) <==> c == '\t' || (c >= ' ' && c != '\u{7f}'),
{
}

} // verus!
