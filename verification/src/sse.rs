//! Server-sent events: the form in which a server streams its answers.

use vstd::prelude::*;
use vstd::slice::slice_subrange;
use vstd::string::*;
use vstd::utf8::{
    encode_scalar, encode_utf8, encode_utf8_decode_utf8, encode_utf8_first_scalar,
    encode_utf8_valid_utf8, is_char_boundary, length_of_first_scalar, pop_first_scalar,
};

use crate::error::{plain, Error, Fault};
use crate::json::{outcome, parse_json, parse_view, parse_wf, parsed_json, Json, JsonNumber, JsonV};
use crate::numeral::{decimal, show_u64};
use crate::rpc::{answers, extract_result, extracted, matches_id};
use crate::text::{
    a_beginning_is_a_prefix, at, begins, behind, byte_len, bytes_in, chars_of, concat, decode_lossy,
    find, find_is_first, found_char, lines, lines_of, lossy_text, opt_view, position, string_of,
    strip, views, without_cr,
};

verus! {

// ---------------------------------------------------------------------------
// Places in a text, counted in bytes
// ---------------------------------------------------------------------------

/// The bytes of a text up to a character are the bytes of the characters before
/// it, and the others are those of the rest.
pub proof fn bytes_split(s: Seq<char>, i: int)
    requires
        0 <= i <= s.len(),
    ensures
        ({
            let n = encode_utf8(s.take(i)).len() as int;
            let bytes = encode_utf8(s);
            &&& n <= bytes.len()
            &&& is_char_boundary(bytes, n)
            &&& bytes.subrange(0, n) == encode_utf8(s.take(i))
            &&& bytes.subrange(n, bytes.len() as int) == encode_utf8(s.skip(i))
        }),
    decreases i,
{
    let bytes = encode_utf8(s);
    encode_utf8_valid_utf8(s);
    if i == 0 {
        assert(s.take(0) =~= seq![]);
        assert(s.skip(0) =~= s);
        assert(bytes.subrange(0, 0) =~= encode_utf8(s.take(0)));
        assert(bytes.subrange(0, bytes.len() as int) =~= bytes);
    } else {
        let rest = s.drop_first();
        let head = encode_scalar(s[0] as u32);
        let tail = encode_utf8(rest);
        bytes_split(rest, i - 1);
        assert(s.take(i).drop_first() =~= rest.take(i - 1));
        assert(s.take(i)[0] == s[0]);
        assert(s.skip(i) =~= rest.skip(i - 1));
        let m = encode_utf8(rest.take(i - 1)).len() as int;
        let n = head.len() + m;
        assert(encode_utf8(s.take(i)) == head + encode_utf8(rest.take(i - 1)));
        assert(bytes == head + tail);
        assert(bytes.subrange(0, n) =~= head + tail.subrange(0, m));
        assert(bytes.subrange(n, bytes.len() as int) =~= tail.subrange(m, tail.len() as int));
        encode_utf8_first_scalar(s);
        assert(pop_first_scalar(bytes) =~= tail);
        assert(length_of_first_scalar(bytes) == head.len());
        assert(head.len() > 0);
        assert(is_char_boundary(bytes, n) == is_char_boundary(tail, n - head.len()));
    }
}

/// Texts with the same bytes are equal.
pub proof fn same_bytes(a: Seq<char>, b: Seq<char>)
    requires
        encode_utf8(a) == encode_utf8(b),
    ensures
        a == b,
{
    encode_utf8_decode_utf8(a);
    encode_utf8_decode_utf8(b);
}

// ---------------------------------------------------------------------------
// Events
// ---------------------------------------------------------------------------

/// The earlier of two places.
pub open spec fn earlier(a: Option<int>, b: Option<int>) -> Option<int> {
    match (a, b) {
        (Some(i), Some(j)) => Some(
            if i <= j {
                i
            } else {
                j
            },
        ),
        (Some(i), None) => Some(i),
        (None, b) => b,
    }
}

/// Where the first event of a text ends: before the first blank line.
pub open spec fn boundary(s: Seq<char>) -> Option<int> {
    earlier(find(s, seq!['\n', '\n']), find(s, seq!['\r', '\n', '\r', '\n']))
}

/// The place of a character, counted in bytes.
pub open spec fn byte_place(s: Seq<char>, i: Option<int>) -> Option<int> {
    match i {
        Some(i) => Some(bytes_in(s.take(i)) as int),
        None => None,
    }
}

/// The first event ends inside the text, at a line ending.
pub proof fn boundary_is_inside(s: Seq<char>)
    ensures
        boundary(s) matches Some(i) ==> 0 <= i && i + 2 <= s.len() && (s[i] == '\n' || s[i] == '\r') && s[i
            + 1] == '\n',
{
    let lf = seq!['\n', '\n'];
    let crlf = seq!['\r', '\n', '\r', '\n'];
    find_is_first(s, lf, 0);
    find_is_first(s, crlf, 0);
    match boundary(s) {
        Some(i) => {
            if find(s, lf) == Some(i) {
                assert(s.subrange(i, i + 2)[0] == s[i]);
                assert(s.subrange(i, i + 2)[1] == s[i + 1]);
            } else {
                assert(s.subrange(i, i + 4)[0] == s[i]);
                assert(s.subrange(i, i + 4)[1] == s[i + 1]);
            }
        },
        None => {},
    }
}

/// Where the first event of a text ends, counted in bytes.
pub fn find_event_boundary(buffer: &str) -> (r: Option<usize>)
    ensures
        match r {
            Some(n) => byte_place(buffer@, boundary(buffer@)) == Some(n as int),
            None => boundary(buffer@) is None,
        },
{
    let chars = chars_of(buffer);
    let blank: [char; 2] = ['\n', '\n'];
    let wide: [char; 4] = ['\r', '\n', '\r', '\n'];
    assert(blank@ =~= seq!['\n', '\n']);
    assert(wide@ =~= seq!['\r', '\n', '\r', '\n']);
    let lf = position(chars.as_slice(), &blank);
    let crlf = position(chars.as_slice(), &wide);
    let i: usize = match (lf, crlf) {
        (Some(a), Some(b)) => if a <= b {
            a
        } else {
            b
        },
        (Some(a), None) => a,
        (None, Some(b)) => b,
        (None, None) => return None,
    };
    let head = slice_subrange(chars.as_slice(), 0, i);
    assert(head@ =~= buffer@.take(i as int));
    let text = string_of(head);
    Some(byte_len(text.as_str()))
}

/// A text without the line endings at its start.
pub open spec fn without_breaks(s: Seq<char>) -> Seq<char>
    decreases s.len(),
{
    if s.len() > 0 && (s[0] == '\r' || s[0] == '\n') {
        without_breaks(s.skip(1))
    } else {
        s
    }
}

/// Taking line endings away leaves nothing longer.
pub proof fn without_breaks_is_shorter(s: Seq<char>)
    ensures
        without_breaks(s).len() <= s.len(),
        s.len() > 0 && (s[0] == '\r' || s[0] == '\n') ==> without_breaks(s).len() < s.len(),
    decreases s.len(),
{
    if s.len() > 0 && (s[0] == '\r' || s[0] == '\n') {
        without_breaks_is_shorter(s.skip(1));
    }
}

fn skip_breaks(text: &str) -> (r: String)
    ensures
        r@ == without_breaks(text@),
{
    let chars = chars_of(text);
    let mut i: usize = 0;
    assert(chars@.skip(0) =~= chars@);
    while i < chars.len() && (chars[i] == '\r' || chars[i] == '\n')
        invariant
            i <= chars@.len(),
            without_breaks(chars@) == without_breaks(chars@.skip(i as int)),
        decreases chars@.len() - i,
    {
        assert(chars@.skip(i as int).skip(1) =~= chars@.skip(i + 1));
        i += 1;
    }
    let rest = slice_subrange(chars.as_slice(), i, chars.len());
    assert(rest@ =~= chars@.skip(i as int));
    string_of(rest)
}

/// The first event of a text and what follows it.
pub open spec fn first_event(s: Seq<char>) -> Option<(Seq<char>, Seq<char>)> {
    match boundary(s) {
        Some(i) => Some((s.take(i), without_breaks(s.skip(i)))),
        None => None,
    }
}

/// What follows an event is shorter than the whole.
pub proof fn first_event_shrinks(s: Seq<char>)
    ensures
        first_event(s) matches Some((_, rest)) ==> rest.len() < s.len(),
{
    boundary_is_inside(s);
    match boundary(s) {
        Some(i) => {
            assert(s.skip(i)[0] == s[i]);
            without_breaks_is_shorter(s.skip(i));
        },
        None => {},
    }
}

/// The first event of a text and what follows it.
pub fn split_event(buffer: &str) -> (r: Option<(String, String)>)
    ensures
        match r {
            Some((event, rest)) => first_event(buffer@) == Some((event@, rest@)),
            None => first_event(buffer@) is None,
        },
{
    match find_event_boundary(buffer) {
        Some(n) => {
            let ghost i = boundary(buffer@)->0;
            proof {
                boundary_is_inside(buffer@);
                bytes_split(buffer@, i);
            }
            let (raw, rest) = buffer.split_at(n);
            proof {
                same_bytes(raw@, buffer@.take(i));
                same_bytes(rest@, buffer@.skip(i));
            }
            Some((raw.to_owned(), skip_breaks(rest)))
        },
        None => None,
    }
}

// ---------------------------------------------------------------------------
// The data of an event
// ---------------------------------------------------------------------------

/// What a line adds to the data of an event: what stands behind `data:`, without
/// one space at its start.
pub open spec fn data_in(line: Seq<char>) -> Option<Seq<char>> {
    match behind(line, "data:"@) {
        Some(rest) => match behind(rest, seq![' ']) {
            Some(value) => Some(value),
            None => Some(rest),
        },
        None => None,
    }
}

/// The data of an event with one more line.
pub open spec fn with_line(data: Seq<char>, line: Seq<char>) -> Seq<char> {
    match data_in(line) {
        Some(value) => if data.len() == 0 {
            value
        } else {
            data.push('\n') + value
        },
        None => data,
    }
}

/// The data in some lines, each on a line of its own.
pub open spec fn gathered(lines: Seq<Seq<char>>) -> Seq<char>
    decreases lines.len(),
{
    if lines.len() == 0 {
        seq![]
    } else {
        with_line(gathered(lines.drop_last()), lines.last())
    }
}

/// The data of an event, if it has any.
pub open spec fn event_data(event: Seq<char>) -> Option<Seq<char>> {
    let data = gathered(lines(event));
    if data.len() == 0 {
        None
    } else {
        Some(data)
    }
}

/// The data of an event, if it has any.
pub fn sse_data(event: &str) -> (r: Option<String>)
    ensures
        opt_view(r) == event_data(event@),
{
    let parts = lines_of(chars_of(event).as_slice());
    let ghost all = lines(event@);
    let prefix = chars_of("data:");
    let space: [char; 1] = [' '];
    assert(space@ =~= seq![' ']);
    let mut data: Vec<char> = Vec::new();
    let mut i: usize = 0;
    while i < parts.len()
        invariant
            all == views(parts@),
            prefix@ == "data:"@,
            space@ == seq![' '],
            i <= parts@.len(),
            data@ == gathered(all.take(i as int)),
        decreases parts@.len() - i,
    {
        assert(all.take(i + 1).drop_last() =~= all.take(i as int));
        let ghost before = data@;
        let line = chars_of(parts[i].as_str());
        if let Some(rest) = strip(line.as_slice(), prefix.as_slice()) {
            if data.len() > 0 {
                data.push('\n');
            }
            let value = match strip(rest, &space) {
                Some(value) => value,
                None => rest,
            };
            data.extend_from_slice(value);
            assert(data@ =~= with_line(before, line@));
        }
        i += 1;
    }
    assert(all.take(i as int) =~= all);
    if data.len() == 0 {
        None
    } else {
        Some(string_of(data.as_slice()))
    }
}

// ---------------------------------------------------------------------------
// Waiting for an answer
// ---------------------------------------------------------------------------

/// The answer that the data of an event gives to a request, when reading the data
/// as JSON gave `parsed`. What is no JSON, and what answers another request, is
/// passed over.
pub open spec fn answer_in(parsed: Result<JsonV, Seq<char>>, want_id: u64) -> Option<
    Result<JsonV, Fault>,
> {
    match parsed {
        Ok(value) => if answers(value, want_id) {
            Some(extracted(value, want_id))
        } else {
            None
        },
        Err(_) => None,
    }
}

/// The answer that an event gives to a request.
pub open spec fn event_answer(event: Seq<char>, want_id: u64) -> Option<Result<JsonV, Fault>> {
    match event_data(event) {
        Some(data) => answer_in(parsed_json(data), want_id),
        None => None,
    }
}

/// What the events of a text come to: what is left of the text when the answer has
/// been found or no event is left, and the answer.
pub open spec fn drained(s: Seq<char>, want_id: u64) -> (Seq<char>, Option<Result<JsonV, Fault>>)
    decreases s.len(),
{
    proof {
        first_event_shrinks(s);
    }
    match first_event(s) {
        None => (s, None),
        Some((event, rest)) => match event_answer(event, want_id) {
            Some(answer) => (rest, Some(answer)),
            None => drained(rest, want_id),
        },
    }
}

/// The view of an answer that may not be there yet.
pub open spec fn opt_outcome(r: Option<Result<Json, Error>>) -> Option<Result<JsonV, Fault>> {
    match r {
        Some(r) => Some(outcome(r)),
        None => None,
    }
}

/// Whether an answer that may not be there yet is in good order.
pub open spec fn opt_wf(r: Option<Result<Json, Error>>) -> bool {
    r matches Some(Ok(v)) ==> v@.wf()
}

/// The answer that the data of an event gives to a request, from what reading the
/// data as JSON gave.
pub fn answer_from(parsed: Result<Json, String>, want_id: u64) -> (r: Option<Result<Json, Error>>)
    requires
        parse_wf(parsed),
    ensures
        opt_outcome(r) == answer_in(parse_view(parsed), want_id),
        opt_wf(r),
{
    match parsed {
        Ok(value) => if matches_id(&value, want_id) {
            Some(extract_result(value, want_id))
        } else {
            None
        },
        Err(_) => None,
    }
}

/// The end of a stream without an answer.
pub open spec fn stream_closed(want_id: u64) -> Fault {
    plain("MCP server closed the stream before answering request "@ + decimal(want_id as nat))
}

/// A stream of events on which the answer to one request is awaited.
pub struct EventStream {
    /// What has come in behind the last complete event.
    pub buffer: String,
    /// The request.
    pub want_id: u64,
}

impl EventStream {
    /// A stream from which nothing has been read.
    pub fn new(want_id: u64) -> (r: EventStream)
        ensures
            r.buffer@ == Seq::<char>::empty(),
            r.want_id == want_id,
    {
        EventStream { buffer: String::new(), want_id }
    }

    /// Takes in a piece of text, and gives the answer once it has come.
    pub fn push(&mut self, text: &str) -> (r: Option<Result<Json, Error>>)
        ensures
            (final(self).buffer@, opt_outcome(r)) == drained(old(self).buffer@ + text@, old(self).want_id),
            final(self).want_id == old(self).want_id,
            opt_wf(r),
    {
        let ghost want = self.want_id;
        self.buffer.append(text);
        let ghost whole = self.buffer@;
        loop
            invariant
                self.want_id == want,
                want == old(self).want_id,
                whole == old(self).buffer@ + text@,
                drained(self.buffer@, want) == drained(whole, want),
            decreases self.buffer@.len(),
        {
            proof {
                first_event_shrinks(self.buffer@);
            }
            match split_event(self.buffer.as_str()) {
                None => {
                    return None;
                },
                Some((event, rest)) => {
                    self.buffer = rest;
                    if let Some(data) = sse_data(event.as_str()) {
                        let answer = answer_from(parse_json(data.as_str()), self.want_id);
                        if answer.is_some() {
                            return answer;
                        }
                    }
                },
            }
        }
    }

    /// Takes in a chunk of bytes, and gives the answer once it has come.
    pub fn feed(&mut self, chunk: &[u8]) -> (r: Option<Result<Json, Error>>)
        ensures
            (final(self).buffer@, opt_outcome(r)) == drained(
                old(self).buffer@ + lossy_text(chunk@),
                old(self).want_id,
            ),
            final(self).want_id == old(self).want_id,
            opt_wf(r),
    {
        let text = decode_lossy(chunk);
        self.push(text.as_str())
    }

    /// The error that the stream ended too early.
    pub fn closed(&self) -> (r: Error)
        ensures
            r@ == stream_closed(self.want_id),
    {
        Error::plain(
            concat(
                "MCP server closed the stream before answering request ",
                show_u64(self.want_id).as_str(),
            ),
        )
    }
}

// ---------------------------------------------------------------------------
// Laws
// ---------------------------------------------------------------------------

/// Whether a character ends a line.
pub open spec fn is_break(c: char) -> bool {
    c == '\r' || c == '\n'
}

/// Whether a text consists of line endings only.
pub open spec fn all_breaks(s: Seq<char>) -> bool {
    forall|i: int| 0 <= i < s.len() ==> is_break(#[trigger] s[i])
}

/// Whether a blank line stands at a place.
pub open spec fn blank_line_at(s: Seq<char>, i: int) -> bool {
    at(s, seq!['\n', '\n'], i) || at(s, seq!['\r', '\n', '\r', '\n'], i)
}

/// Whether a text ends in the line endings of a blank line.
pub open spec fn ends_in_blank_line(s: Seq<char>) -> bool {
    exists|i: int| 0 <= i <= s.len() && #[trigger] blank_line_at(s, i) && all_breaks(s.skip(i))
}

/// Whether the line endings at the start of a text end in a carriage return that no
/// line feed follows.
pub open spec fn lone_return_at_start(s: Seq<char>) -> bool {
    exists|k: int|
        0 < k < s.len() && all_breaks(#[trigger] s.take(k)) && s[k - 1] == '\r' && !is_break(s[k])
}

/// Whether the line endings of a blank line never end in a carriage return that no
/// line feed follows.
pub open spec fn settled(s: Seq<char>) -> bool {
    forall|n: int|
        #![trigger s.take(n)]
        0 <= n <= s.len() ==> !(ends_in_blank_line(s.take(n)) && lone_return_at_start(s.skip(n)))
}

/// Whether no line adds to the data of an event.
spec fn no_data(parts: Seq<Seq<char>>) -> bool {
    forall|i: int| 0 <= i < parts.len() ==> data_in(#[trigger] parts[i]) is None
}

proof fn breaks_hold_no_data(line: Seq<char>)
    requires
        all_breaks(line),
    ensures
        data_in(line) is None,
{
    reveal_strlit("data:");
    assert("data:"@.len() == 5 && "data:"@[0] == 'd');
    if at(line, "data:"@, 0) {
        assert(line.subrange(0, 5)[0] == line[0]);
        assert(is_break(line[0]));
    }
}

proof fn gathered_nothing(parts: Seq<Seq<char>>)
    requires
        no_data(parts),
    ensures
        gathered(parts).len() == 0,
    decreases parts.len(),
{
    if parts.len() > 0 {
        assert forall|i: int| 0 <= i < parts.drop_last().len() implies data_in(
            #[trigger] parts.drop_last()[i],
        ) is None by {
            assert(parts.drop_last()[i] == parts[i]);
        }
        gathered_nothing(parts.drop_last());
        assert(data_in(parts[parts.len() - 1]) is None);
    }
}

proof fn gathered_behind(line: Seq<char>, parts: Seq<Seq<char>>)
    requires
        data_in(line) is None,
    ensures
        gathered(seq![line] + parts) == gathered(parts),
    decreases parts.len(),
{
    let all = seq![line] + parts;
    if parts.len() == 0 {
        assert(all.drop_last() =~= seq![]);
        assert(all.last() == line);
        assert(gathered(all.drop_last()) =~= seq![]);
        assert(gathered(all) =~= gathered(parts));
    } else {
        assert(all.drop_last() =~= seq![line] + parts.drop_last());
        assert(all.last() == parts.last());
        gathered_behind(line, parts.drop_last());
    }
}

/// Line endings alone are an event without data.
proof fn breaks_are_an_empty_event(s: Seq<char>)
    requires
        all_breaks(s),
    ensures
        no_data(lines(s)),
    decreases s.len(),
{
    if s.len() > 0 {
        found_char(s, '\n');
        match find(s, seq!['\n']) {
            Some(k) => {
                let head = without_cr(s.take(k));
                let rest = s.skip(k + 1);
                assert forall|i: int| 0 <= i < rest.len() implies is_break(#[trigger] rest[i]) by {
                    assert(rest[i] == s[i + k + 1]);
                }
                assert forall|i: int| 0 <= i < head.len() implies is_break(#[trigger] head[i]) by {
                    assert(head[i] == s[i]);
                }
                breaks_are_an_empty_event(rest);
                breaks_hold_no_data(head);
                let all = lines(s);
                assert(all == seq![head] + lines(rest));
                assert forall|i: int| 0 <= i < all.len() implies data_in(#[trigger] all[i]) is None by {
                    if i > 0 {
                        assert(all[i] == lines(rest)[i - 1]);
                    }
                }
            },
            None => {
                breaks_hold_no_data(s);
                assert(lines(s) =~= seq![s]);
            },
        }
    }
}

/// Line endings before an event add nothing to its data.
proof fn breaks_before_an_event(p: Seq<char>, e: Seq<char>)
    requires
        all_breaks(p),
        p.len() > 0 ==> p.last() == '\n',
    ensures
        gathered(lines(p + e)) == gathered(lines(e)),
    decreases p.len(),
{
    if p.len() == 0 {
        assert(p + e =~= e);
    } else {
        let s = p + e;
        found_char(s, '\n');
        assert(s[p.len() - 1] == '\n');
        let k = find(s, seq!['\n'])->0;
        assert(k < p.len());
        let head = without_cr(s.take(k));
        assert forall|i: int| 0 <= i < head.len() implies is_break(#[trigger] head[i]) by {
            assert(head[i] == p[i]);
        }
        breaks_hold_no_data(head);
        let q = p.skip(k + 1);
        assert(s.skip(k + 1) =~= q + e);
        assert forall|i: int| 0 <= i < q.len() implies is_break(#[trigger] q[i]) by {
            assert(q[i] == p[i + k + 1]);
        }
        breaks_before_an_event(q, e);
        assert(lines(s) == seq![head] + lines(q + e));
        gathered_behind(head, lines(q + e));
    }
}

/// How many line endings stand at the start of a text.
spec fn breaks_at_start(s: Seq<char>) -> nat
    decreases s.len(),
{
    if s.len() > 0 && is_break(s[0]) {
        1 + breaks_at_start(s.skip(1))
    } else {
        0
    }
}

proof fn start_is_breaks(s: Seq<char>)
    ensures
        breaks_at_start(s) <= s.len(),
        all_breaks(s.take(breaks_at_start(s) as int)),
        without_breaks(s) == s.skip(breaks_at_start(s) as int),
        breaks_at_start(s) < s.len() ==> !is_break(s[breaks_at_start(s) as int]),
    decreases s.len(),
{
    if s.len() > 0 && is_break(s[0]) {
        let t = s.skip(1);
        start_is_breaks(t);
        let n = breaks_at_start(t) as int;
        assert(s.skip(n + 1) =~= t.skip(n));
        assert forall|i: int| 0 <= i < n + 1 implies is_break(#[trigger] s.take(n + 1)[i]) by {
            if i > 0 {
                assert(t.take(n)[i - 1] == s[i]);
            }
        }
        if n < t.len() {
            assert(t[n] == s[n + 1]);
        }
    } else {
        assert(s.skip(0) =~= s);
    }
}

/// Line endings at the start of a text may be taken away in one go or in several.
proof fn more_breaks(p: Seq<char>, u: Seq<char>)
    requires
        all_breaks(p),
    ensures
        without_breaks(p + u) == without_breaks(u),
    decreases p.len(),
{
    if p.len() == 0 {
        assert(p + u =~= u);
    } else {
        assert((p + u)[0] == p[0]);
        assert((p + u).skip(1) =~= p.skip(1) + u);
        assert forall|i: int| 0 <= i < p.skip(1).len() implies is_break(#[trigger] p.skip(1)[i]) by {
            assert(p.skip(1)[i] == p[i + 1]);
        }
        more_breaks(p.skip(1), u);
    }
}

proof fn breaks_end_at_other(s: Seq<char>, u: Seq<char>)
    requires
        without_breaks(s).len() > 0,
    ensures
        without_breaks(s + u) == without_breaks(s) + u,
    decreases s.len(),
{
    if s.len() > 0 && is_break(s[0]) {
        assert((s + u).skip(1) =~= s.skip(1) + u);
        breaks_end_at_other(s.skip(1), u);
    }
}

proof fn boundary_is_first(s: Seq<char>)
    ensures
        match boundary(s) {
            Some(i) => 0 <= i && blank_line_at(s, i) && (forall|j: int|
                0 <= j < i ==> !#[trigger] blank_line_at(s, j)),
            None => forall|j: int| 0 <= j ==> !#[trigger] blank_line_at(s, j),
        },
{
    find_is_first(s, seq!['\n', '\n'], 0);
    find_is_first(s, seq!['\r', '\n', '\r', '\n'], 0);
}

proof fn boundary_is(s: Seq<char>, i: int)
    requires
        0 <= i,
        blank_line_at(s, i),
        forall|j: int| 0 <= j < i ==> !#[trigger] blank_line_at(s, j),
    ensures
        boundary(s) == Some(i),
{
    boundary_is_first(s);
    match boundary(s) {
        Some(k) => {
            if k < i {
                assert(!blank_line_at(s, k));
            }
            if i < k {
                assert(!blank_line_at(s, i));
            }
        },
        None => {
            assert(!blank_line_at(s, i));
        },
    }
}

/// A blank line is told by its characters.
proof fn blank_line_chars(s: Seq<char>, i: int)
    requires
        0 <= i,
    ensures
        blank_line_at(s, i) <==> {
            ||| i + 2 <= s.len() && s[i] == '\n' && s[i + 1] == '\n'
            ||| i + 4 <= s.len() && s[i] == '\r' && s[i + 1] == '\n' && s[i + 2] == '\r' && s[i + 3]
                == '\n'
        },
{
    let lf = seq!['\n', '\n'];
    let crlf = seq!['\r', '\n', '\r', '\n'];
    assert(lf.len() == 2);
    assert(crlf.len() == 4);
    if i + 2 <= s.len() {
        let sub = s.subrange(i, i + 2);
        assert(sub[0] == s[i] && sub[1] == s[i + 1]);
        assert(lf[0] == '\n' && lf[1] == '\n');
        if s[i] == '\n' && s[i + 1] == '\n' {
            assert(sub =~= lf);
        }
    }
    if i + 4 <= s.len() {
        let sub = s.subrange(i, i + 4);
        assert(sub[0] == s[i] && sub[1] == s[i + 1] && sub[2] == s[i + 2] && sub[3] == s[i + 3]);
        assert(crlf[0] == '\r' && crlf[1] == '\n' && crlf[2] == '\r' && crlf[3] == '\n');
        if s[i] == '\r' && s[i + 1] == '\n' && s[i + 2] == '\r' && s[i + 3] == '\n' {
            assert(sub =~= crlf);
        }
    }
}

/// A blank line stays where it is when more text follows, and none comes before it.
proof fn boundary_stays(a: Seq<char>, b: Seq<char>, i: int)
    requires
        boundary(a) == Some(i),
    ensures
        boundary(a + b) == Some(i),
{
    let s = a + b;
    boundary_is_first(a);
    blank_line_chars(a, i);
    blank_line_chars(s, i);
    assert(forall|k: int| 0 <= k < a.len() ==> s[k] == a[k]);
    assert forall|j: int| 0 <= j < i implies !#[trigger] blank_line_at(s, j) by {
        blank_line_chars(a, j);
        blank_line_chars(s, j);
        assert(!blank_line_at(a, j));
    }
    boundary_is(s, i);
}

/// Line endings at the start of a stream change nothing of its answer.
proof fn breaks_change_nothing(s: Seq<char>, want_id: u64)
    requires
        !lone_return_at_start(s),
    ensures
        drained(s, want_id).1 == drained(without_breaks(s), want_id).1,
{
    let n = breaks_at_start(s) as int;
    start_is_breaks(s);
    let p = s.take(n);
    let u = s.skip(n);
    assert(s =~= p + u);
    if n == 0 {
        assert(u =~= s);
    } else {
        assert(is_break(p[n - 1]));
        assert(n < s.len() ==> all_breaks(s.take(n)) && p.last() == '\n');
        boundary_is_first(s);
        boundary_is_inside(s);
        match boundary(s) {
            Some(k) => {
                first_event_shrinks(s);
                if k < n {
                    let event = s.take(k);
                    assert forall|i: int| 0 <= i < event.len() implies is_break(#[trigger] event[i]) by {
                        assert(event[i] == p[i]);
                    }
                    breaks_are_an_empty_event(event);
                    gathered_nothing(lines(event));
                    let q = p.skip(k);
                    assert forall|i: int| 0 <= i < q.len() implies is_break(#[trigger] q[i]) by {
                        assert(q[i] == p[i + k]);
                    }
                    assert(s.skip(k) =~= q + u);
                    more_breaks(q, u);
                    assert(first_event(s) == Some((event, u)));
                    assert(drained(s, want_id) == drained(u, want_id));
                } else {
                    let e = u.take(k - n);
                    assert forall|j: int| 0 <= j < k - n implies !#[trigger] blank_line_at(u, j) by {
                        blank_line_chars(u, j);
                        blank_line_chars(s, j + n);
                        assert(!blank_line_at(s, j + n));
                    }
                    blank_line_chars(s, k);
                    blank_line_chars(u, k - n);
                    boundary_is(u, k - n);
                    assert(s.take(k) =~= p + e);
                    breaks_before_an_event(p, e);
                    assert(s.skip(k) =~= u.skip(k - n));
                    first_event_shrinks(u);
                    assert(event_data(s.take(k)) == event_data(e));
                    assert(drained(s, want_id) == drained(u, want_id));
                }
            },
            None => {
                assert forall|j: int| 0 <= j implies !#[trigger] blank_line_at(u, j) by {
                    blank_line_chars(u, j);
                    blank_line_chars(s, j + n);
                    assert(!blank_line_at(s, j + n));
                }
                boundary_is_first(u);
            },
        }
    }
}

/// An answer that a stream gives is that of a message which bears the number of the
/// request.
pub proof fn a_stream_answers_its_request(s: Seq<char>, want_id: u64)
    ensures
        drained(s, want_id).1 matches Some(answer) ==> exists|value: JsonV| #[trigger]
            answers(value, want_id) && answer == extracted(value, want_id),
    decreases s.len(),
{
    first_event_shrinks(s);
    if let Some((event, rest)) = first_event(s) {
        if event_answer(event, want_id) is None {
            a_stream_answers_its_request(rest, want_id);
        }
    }
}

/// How a stream is cut into pieces changes nothing of the answer: an answer that has
/// come stays, and what is left of the pieces so far leads to the same answer as the
/// whole. The exception is a cut inside the line endings of a blank line, where these
/// end in a carriage return that no line feed follows.
pub proof fn pieces_change_nothing(a: Seq<char>, b: Seq<char>, want_id: u64)
    requires
        !(ends_in_blank_line(a) && lone_return_at_start(b)),
    ensures
        drained(a, want_id).1 matches Some(answer) ==> drained(a + b, want_id).1 == Some(answer),
        drained(a, want_id).1 is None ==> drained(drained(a, want_id).0 + b, want_id).1 == drained(
            a + b,
            want_id,
        ).1,
    decreases a.len(),
{
    match boundary(a) {
        None => {},
        Some(i) => {
            let s = a + b;
            boundary_is_inside(a);
            boundary_is_first(a);
            boundary_stays(a, b, i);
            first_event_shrinks(a);
            first_event_shrinks(s);
            assert(s.take(i) =~= a.take(i));
            assert(s.skip(i) =~= a.skip(i) + b);
            if event_answer(a.take(i), want_id) is None {
                let tail = a.skip(i);
                let rest = without_breaks(tail);
                start_is_breaks(tail);
                if rest.len() > 0 {
                    breaks_end_at_other(tail, b);
                    let n = i + breaks_at_start(tail);
                    assert(rest =~= a.skip(n));
                    if ends_in_blank_line(rest) {
                        blank_line_at_end(a, n);
                    }
                    pieces_change_nothing(rest, b, want_id);
                } else {
                    assert(tail.take(tail.len() as int) =~= tail);
                    assert(ends_in_blank_line(a));
                    more_breaks(tail, b);
                    breaks_change_nothing(b, want_id);
                    assert(rest =~= seq![]);
                    boundary_is_inside(rest);
                    assert(drained(rest, want_id) == (rest, None::<Result<JsonV, Fault>>));
                    assert(rest + b =~= b);
                }
            }
        },
    }
}

/// A text ends in a blank line if what stands from some place on does.
proof fn blank_line_at_end(s: Seq<char>, n: int)
    requires
        0 <= n <= s.len(),
        ends_in_blank_line(s.skip(n)),
    ensures
        ends_in_blank_line(s),
{
    let t = s.skip(n);
    let i = choose|i: int|
        0 <= i <= t.len() && #[trigger] blank_line_at(t, i) && all_breaks(t.skip(i));
    blank_line_chars(t, i);
    blank_line_chars(s, i + n);
    assert(s.skip(i + n) =~= t.skip(i));
    assert(blank_line_at(s, i + n));
}

/// What pieces make together.
pub open spec fn whole_of(pieces: Seq<Seq<char>>) -> Seq<char>
    decreases pieces.len(),
{
    if pieces.len() == 0 {
        seq![]
    } else {
        pieces[0] + whole_of(pieces.skip(1))
    }
}

/// The answer that pieces give which come in one after another, with some text in hand.
pub open spec fn answer_of_pieces(buffer: Seq<char>, pieces: Seq<Seq<char>>, want_id: u64) -> Option<
    Result<JsonV, Fault>,
>
    decreases pieces.len(),
{
    if pieces.len() == 0 {
        None
    } else {
        let (rest, answer) = drained(buffer + pieces[0], want_id);
        match answer {
            Some(answer) => Some(answer),
            None => answer_of_pieces(rest, pieces.skip(1), want_id),
        }
    }
}

/// A stream gives the same answer however many pieces it comes in, and wherever it is
/// cut, as long as the line endings of no blank line in it end in a carriage return
/// that no line feed follows.
pub proof fn a_stream_may_come_in_any_pieces(pieces: Seq<Seq<char>>, want_id: u64)
    requires
        settled(whole_of(pieces)),
    ensures
        answer_of_pieces(seq![], pieces, want_id) == drained(whole_of(pieces), want_id).1,
{
    let nothing = Seq::<char>::empty();
    boundary_is_inside(nothing);
    assert(nothing + whole_of(pieces) =~= whole_of(pieces));
    pieces_behind_a_buffer(nothing, pieces, want_id);
}

proof fn pieces_behind_a_buffer(buffer: Seq<char>, pieces: Seq<Seq<char>>, want_id: u64)
    requires
        drained(buffer, want_id).1 is None,
        settled(buffer + whole_of(pieces)),
    ensures
        answer_of_pieces(buffer, pieces, want_id) == drained(buffer + whole_of(pieces), want_id).1,
    decreases pieces.len(),
{
    if pieces.len() == 0 {
        assert(buffer + whole_of(pieces) =~= buffer);
    } else {
        let a = buffer + pieces[0];
        let b = whole_of(pieces.skip(1));
        let s = buffer + whole_of(pieces);
        assert(s =~= a + b);
        assert(s.take(a.len() as int) =~= a);
        assert(s.skip(a.len() as int) =~= b);
        pieces_change_nothing(a, b, want_id);
        if drained(a, want_id).1 is None {
            let rest = drained(a, want_id).0;
            let n = a.len() - rest.len();
            what_is_left_is_an_end(a, want_id);
            assert(rest + b =~= s.skip(n));
            settled_from(s, n);
            pieces_behind_a_buffer(rest, pieces.skip(1), want_id);
        }
    }
}

/// What is left of a text without an answer is the end of it, and gives no answer
/// either.
proof fn what_is_left_is_an_end(s: Seq<char>, want_id: u64)
    requires
        drained(s, want_id).1 is None,
    ensures
        ({
            let rest = drained(s, want_id).0;
            &&& rest.len() <= s.len()
            &&& rest == s.skip(s.len() - rest.len())
            &&& drained(rest, want_id).1 is None
        }),
    decreases s.len(),
{
    first_event_shrinks(s);
    match boundary(s) {
        None => {
            assert(s.skip(0) =~= s);
        },
        Some(i) => {
            boundary_is_inside(s);
            let tail = s.skip(i);
            let left = without_breaks(tail);
            start_is_breaks(tail);
            what_is_left_is_an_end(left, want_id);
            let rest = drained(left, want_id).0;
            assert(s.skip(s.len() - rest.len()) =~= left.skip(left.len() - rest.len()));
        },
    }
}

/// What holds of the blank lines of a text holds of those from some place on.
proof fn settled_from(s: Seq<char>, n: int)
    requires
        settled(s),
        0 <= n <= s.len(),
    ensures
        settled(s.skip(n)),
{
    let t = s.skip(n);
    assert forall|m: int| #![trigger t.take(m)] 0 <= m <= t.len() implies !(ends_in_blank_line(
        t.take(m),
    ) && lone_return_at_start(t.skip(m))) by {
        let whole = s.take(n + m);
        assert(whole.skip(n) =~= t.take(m));
        assert(s.skip(n + m) =~= t.skip(m));
        if ends_in_blank_line(t.take(m)) {
            blank_line_at_end(whole, n);
        }
    }
}

/// A blank line is two line feeds, or two pairs of a carriage return and a line feed.
pub proof fn blank_lines_are_told_by_their_characters(s: Seq<char>, i: int)
    requires
        0 <= i,
    ensures
        blank_line_at(s, i) <==> {
            ||| i + 2 <= s.len() && s[i] == '\n' && s[i + 1] == '\n'
            ||| i + 4 <= s.len() && s[i] == '\r' && s[i + 1] == '\n' && s[i + 2] == '\r' && s[i + 3]
                == '\n'
        },
{
    blank_line_chars(s, i);
}

/// An event ends where the first blank line stands, and what follows begins behind the
/// line endings there.
pub proof fn the_first_blank_line_ends_an_event(
    s: Seq<char>,
    event: Seq<char>,
    breaks: Seq<char>,
    rest: Seq<char>,
)
    requires
        s == event + breaks + rest,
        blank_line_at(s, event.len() as int),
        forall|j: int| 0 <= j < event.len() ==> !#[trigger] blank_line_at(s, j),
        forall|i: int| 0 <= i < breaks.len() ==> (#[trigger] breaks[i]) == '\r' || breaks[i] == '\n',
        rest.len() > 0 ==> rest[0] != '\r' && rest[0] != '\n',
    ensures
        first_event(s) == Some((event, rest)),
        byte_place(s, boundary(s)) == Some(bytes_in(event) as int),
{
    boundary_is(s, event.len() as int);
    assert(s.take(event.len() as int) =~= event);
    assert(s.skip(event.len() as int) =~= breaks + rest);
    assert(all_breaks(breaks)) by {
        assert forall|i: int| 0 <= i < breaks.len() implies is_break(#[trigger] breaks[i]) by {}
    }
    more_breaks(breaks, rest);
}

/// Without a blank line there is no complete event, and nothing is taken from the text.
pub proof fn an_unfinished_event_is_kept(s: Seq<char>, want_id: u64)
    requires
        forall|j: int| 0 <= j ==> !#[trigger] blank_line_at(s, j),
    ensures
        first_event(s) is None,
        drained(s, want_id) == (s, None::<Result<JsonV, Fault>>),
{
    boundary_is_first(s);
    if let Some(i) = boundary(s) {
        assert(!blank_line_at(s, i));
    }
}

/// A line of data begins with its name and a colon; one space behind that does not count.
pub proof fn data_stands_behind_its_name(value: Seq<char>, line: Seq<char>)
    ensures
        data_in("data: "@ + value) == Some(value),
        value.len() == 0 || value[0] != ' ' ==> data_in("data:"@ + value) == Some(value),
        !begins(line, "data:"@) ==> data_in(line) is None,
{
    reveal_strlit("data: ");
    reveal_strlit("data:");
    let space = seq![' '];
    assert("data: "@ + value =~= "data:"@ + (space + value));
    a_beginning_is_a_prefix(line, "data:"@, space + value);
    a_beginning_is_a_prefix(space + value, space, value);
    a_beginning_is_a_prefix(line, "data:"@, value);
    a_beginning_is_a_prefix(value, space, value);
    if begins(value, space) {
        assert(value[0] == space[0]);
    }
}

/// The data of an event is that of its lines, with a line break between two of them;
/// other lines add nothing.
pub proof fn lines_of_data_are_put_together(lines: Seq<Seq<char>>, line: Seq<char>, value: Seq<char>)
    ensures
        gathered(seq![]).len() == 0,
        data_in(line) is None ==> gathered(lines.push(line)) == gathered(lines),
        data_in(line) == Some(value) && gathered(lines).len() == 0 ==> gathered(lines.push(line)) == value,
        data_in(line) == Some(value) && gathered(lines).len() > 0 ==> gathered(lines.push(line))
            == gathered(lines) + seq!['\n'] + value,
{
    assert(lines.push(line).drop_last() =~= lines);
    assert(gathered(lines).push('\n') =~= gathered(lines) + seq!['\n']);
}

/// An event has data if its lines have any.
pub proof fn an_event_has_the_data_of_its_lines(event: Seq<char>)
    ensures
        gathered(lines(event)).len() > 0 ==> event_data(event) == Some(gathered(lines(event))),
        gathered(lines(event)).len() == 0 ==> event_data(event) is None,
{
}

/// An event whose data is a message with the identifier of the request ends the wait with
/// what that message answers; any other event is passed over.
pub proof fn the_answering_event_ends_the_wait(
    s: Seq<char>,
    event: Seq<char>,
    rest: Seq<char>,
    data: Seq<char>,
    value: JsonV,
    want_id: u64,
)
    requires
        first_event(s) == Some((event, rest)),
    ensures
        event_data(event) == Some(data) && parsed_json(data) == Ok::<JsonV, Seq<char>>(value) && value.get(
            "id"@,
        ) == Some(JsonV::Number(JsonNumber::PosInt(want_id))) ==> drained(s, want_id) == (
            rest,
            Some(extracted(value, want_id)),
        ),
        event_data(event) is None ==> drained(s, want_id) == drained(rest, want_id),
        event_data(event) == Some(data) && parsed_json(data) is Err ==> drained(s, want_id) == drained(
            rest,
            want_id,
        ),
        event_data(event) == Some(data) && parsed_json(data) == Ok::<JsonV, Seq<char>>(value) && value.get(
            "id"@,
        ) != Some(JsonV::Number(JsonNumber::PosInt(want_id))) ==> drained(s, want_id) == drained(
            rest,
            want_id,
        ),
{
    first_event_shrinks(s);
}

/// A stream that ends too early is reported with the request that it left open.
pub proof fn an_early_end_names_the_request(want_id: u64)
    ensures
        stream_closed(want_id) == plain(
            "MCP server closed the stream before answering request "@ + decimal(want_id as nat),
        ),
{
}

} // verus!
