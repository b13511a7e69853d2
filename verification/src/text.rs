//! Text as a sequence of characters: searching, trimming, splitting and joining.
//!
//! The specification functions work on `Seq<char>`, the view that strings have.
//! The executable functions work on slices of characters, made from a string by
//! [`chars_of`] and turned back into one by [`string_of`].

use vstd::prelude::*;
use vstd::slice::slice_subrange;
use vstd::string::*;
use vstd::utf8::encode_utf8;

verus! {

/// Whether a character has the Unicode property `White_Space`.
pub open spec fn white_space(c: char) -> bool {
    ||| '\u{9}' <= c <= '\u{d}'
    ||| c == ' '
    ||| c == '\u{85}'
    ||| c == '\u{a0}'
    ||| c == '\u{1680}'
    ||| '\u{2000}' <= c <= '\u{200a}'
    ||| c == '\u{2028}'
    ||| c == '\u{2029}'
    ||| c == '\u{202f}'
    ||| c == '\u{205f}'
    ||| c == '\u{3000}'
}

/// Whether a character is white space.
pub fn is_white_space(c: char) -> (r: bool)
    ensures
        r == white_space(c),
{
    ('\u{9}' <= c && c <= '\u{d}') || c == ' ' || c == '\u{85}' || c == '\u{a0}' || c == '\u{1680}' || (
    '\u{2000}' <= c && c <= '\u{200a}') || c == '\u{2028}' || c == '\u{2029}' || c == '\u{202f}' || c
        == '\u{205f}' || c == '\u{3000}'
}

/// An ASCII letter in lower case, any other character as it is.
pub open spec fn ascii_lower(c: char) -> char {
    if 'A' <= c <= 'Z' {
        ((c as u32 + 32) as u32) as char
    } else {
        c
    }
}

/// `String::push`: puts one character at the end of a string.
pub assume_specification[ String::push ](s: &mut String, c: char)
    ensures
        final(s)@ == old(s)@.push(c),
;

/// What `{:?}` prints for a string: quoted, with escapes.
pub uninterp spec fn quoted(s: Seq<char>) -> Seq<char>;

/// The `Debug` rendering of `str`: the text in double quotes, escaped.
#[verifier::external_body]
pub(crate) fn quote(s: &str) -> (r: String)
    ensures
        r@ == quoted(s@),
{
    format!("{s:?}")
}

/// What a character outside ASCII becomes in lower case: the characters that
/// `char::to_lowercase` hands out.
pub uninterp spec fn lower_char(c: char) -> Seq<char>;

/// What a character becomes in lower case.
pub open spec fn in_lower_case(c: char) -> Seq<char> {
    if c <= '\u{7f}' {
        seq![ascii_lower(c)]
    } else {
        lower_char(c)
    }
}

/// `char::to_lowercase`: the lower case mapping of one character, which may be
/// more than one character. Of ASCII the letters are mapped, each to one letter.
#[verifier::external_body]
fn to_lower_char(c: char) -> (r: Vec<char>)
    ensures
        c <= '\u{7f}' ==> r@ == seq![ascii_lower(c)],
        c > '\u{7f}' ==> r@ == lower_char(c),
{
    c.to_lowercase().collect()
}

/// What `str::to_lowercase` makes of a text. It is no mapping of single
/// characters: a final sigma is lowered by what stands around it.
pub uninterp spec fn lower_text(s: Seq<char>) -> Seq<char>;

/// `str::to_lowercase`: the lower case form of a whole text.
#[verifier::external_body]
pub(crate) fn to_lower_text(s: &str) -> (r: String)
    ensures
        r@ == lower_text(s@),
{
    s.to_lowercase()
}

/// The text that bytes stand for when every malformed sequence is replaced by
/// U+FFFD.
pub uninterp spec fn lossy_text(bytes: Seq<u8>) -> Seq<char>;

/// `String::from_utf8_lossy`: reads bytes as UTF-8, replacing what is malformed.
#[verifier::external_body]
pub(crate) fn decode_lossy(bytes: &[u8]) -> (r: String)
    ensures
        r@ == lossy_text(bytes@),
{
    String::from_utf8_lossy(bytes).into_owned()
}

/// The views of the strings of a vector.
pub open spec fn views(parts: Seq<String>) -> Seq<Seq<char>> {
    parts.map_values(|s: String| s@)
}

/// The view of an optional string.
pub open spec fn opt_view(s: Option<String>) -> Option<Seq<char>> {
    match s {
        Some(s) => Some(s@),
        None => None,
    }
}

/// The view of an optional string slice.
pub open spec fn opt_str(s: Option<&str>) -> Option<Seq<char>> {
    match s {
        Some(s) => Some(s@),
        None => None,
    }
}

/// The characters of a string.
pub fn chars_of(s: &str) -> (r: Vec<char>)
    ensures
        r@ == s@,
{
    let mut out: Vec<char> = Vec::new();
    for c in it: s.chars()
        invariant
            it.seq() == s@,
            out@ == s@.take(it.index()),
    {
        out.push(c);
        assert(s@.take(it.index()).push(c) =~= s@.take(it.index() + 1));
    }
    assert(s@.take(s@.len() as int) =~= s@);
    out
}

/// The string that holds the given characters.
pub fn string_of(chars: &[char]) -> (r: String)
    ensures
        r@ == chars@,
{
    let mut out = String::new();
    let mut i: usize = 0;
    while i < chars.len()
        invariant
            i <= chars@.len(),
            out@ == chars@.take(i as int),
        decreases chars@.len() - i,
    {
        out.push(chars[i]);
        assert(chars@.take(i as int).push(chars@[i as int]) =~= chars@.take(i + 1));
        i += 1;
    }
    assert(chars@.take(chars@.len() as int) =~= chars@);
    out
}

/// How many bytes the characters take in UTF-8.
pub open spec fn bytes_in(s: Seq<char>) -> nat {
    encode_utf8(s).len()
}

/// How many bytes a text takes.
pub fn byte_len(text: &str) -> (r: usize)
    ensures
        r == bytes_in(text@),
{
    text.as_bytes().len()
}

/// Whether two strings hold the same characters.
pub fn same(a: &str, b: &str) -> (r: bool)
    ensures
        r == (a@ == b@),
{
    a.to_owned() == b.to_owned()
}

/// Whether two character sequences are equal.
pub fn same_chars(a: &[char], b: &[char]) -> (r: bool)
    ensures
        r == (a@ == b@),
{
    if a.len() != b.len() {
        return false;
    }
    let mut i: usize = 0;
    while i < a.len()
        invariant
            a@.len() == b@.len(),
            i <= a@.len(),
            a@.take(i as int) =~= b@.take(i as int),
        decreases a@.len() - i,
    {
        if a[i] != b[i] {
            assert(a@[i as int] != b@[i as int]);
            return false;
        }
        assert(a@.take(i + 1) =~= a@.take(i as int).push(a@[i as int]));
        assert(b@.take(i + 1) =~= b@.take(i as int).push(b@[i as int]));
        i += 1;
    }
    assert(a@.take(a@.len() as int) =~= a@);
    assert(b@.take(b@.len() as int) =~= b@);
    true
}

/// Whether an optional string is present and reads as given.
pub fn is_text(value: &Option<String>, text: &str) -> (r: bool)
    ensures
        r == (opt_view(*value) == Some(text@)),
{
    match value {
        Some(s) => same(s.as_str(), text),
        None => false,
    }
}

// ---------------------------------------------------------------------------
// Searching
// ---------------------------------------------------------------------------

/// Whether `pat` stands in `s` from position `i` on.
pub open spec fn at(s: Seq<char>, pat: Seq<char>, i: int) -> bool {
    0 <= i && i + pat.len() <= s.len() && s.subrange(i, i + pat.len()) == pat
}

/// Whether `s` begins with `pat`.
pub open spec fn begins(s: Seq<char>, pat: Seq<char>) -> bool {
    at(s, pat, 0)
}

/// The first position from `i` on at which `pat` stands in `s`.
pub open spec fn find_from(s: Seq<char>, pat: Seq<char>, i: int) -> Option<int>
    decreases s.len() + 1 - i,
{
    if i + pat.len() > s.len() {
        None
    } else if at(s, pat, i) {
        Some(i)
    } else {
        find_from(s, pat, i + 1)
    }
}

/// The first position at which `pat` stands in `s`.
pub open spec fn find(s: Seq<char>, pat: Seq<char>) -> Option<int> {
    find_from(s, pat, 0)
}

/// Whether `pat` stands somewhere in `s`.
pub open spec fn has(s: Seq<char>, pat: Seq<char>) -> bool {
    find(s, pat) is Some
}

/// `find` gives the least position at which the pattern stands, and nothing
/// when it stands nowhere.
pub proof fn find_is_first(s: Seq<char>, pat: Seq<char>, from: int)
    requires
        0 <= from,
    ensures
        match find_from(s, pat, from) {
            Some(i) => from <= i && at(s, pat, i) && (forall|j: int|
                from <= j < i ==> !at(s, pat, j)),
            None => forall|j: int| from <= j ==> !at(s, pat, j),
        },
    decreases s.len() + 1 - from,
{
    if from + pat.len() > s.len() {
    } else if at(s, pat, from) {
    } else {
        find_is_first(s, pat, from + 1);
    }
}

/// The part of `s` behind the prefix `pat`, if `s` begins with it.
pub open spec fn behind(s: Seq<char>, pat: Seq<char>) -> Option<Seq<char>> {
    if begins(s, pat) {
        Some(s.skip(pat.len() as int))
    } else {
        None
    }
}

/// The parts of `s` before and behind the first `c`.
pub open spec fn split_at_first(s: Seq<char>, c: char) -> Option<(Seq<char>, Seq<char>)> {
    match find(s, seq![c]) {
        Some(i) => Some((s.take(i), s.skip(i + 1))),
        None => None,
    }
}

/// Whether `pat` stands in `s` from position `i` on.
fn stands_at(s: &[char], pat: &[char], i: usize) -> (r: bool)
    ensures
        r == at(s@, pat@, i as int),
{
    if i > s.len() || pat.len() > s.len() - i {
        return false;
    }
    same_chars(slice_subrange(s, i, i + pat.len()), pat)
}

/// The first position at which `pat` stands in `s`.
pub fn position(s: &[char], pat: &[char]) -> (r: Option<usize>)
    ensures
        match r {
            Some(i) => find(s@, pat@) == Some(i as int) && i + pat@.len() <= s@.len(),
            None => find(s@, pat@) is None,
        },
{
    if pat.len() > s.len() {
        return None;
    }
    let last: usize = s.len() - pat.len();
    let mut i: usize = 0;
    loop
        invariant
            last == s@.len() - pat@.len(),
            i <= last,
            find(s@, pat@) == find_from(s@, pat@, i as int),
        decreases last - i,
    {
        if stands_at(s, pat, i) {
            return Some(i);
        }
        if i == last {
            assert(find_from(s@, pat@, i + 1) is None);
            return None;
        }
        i += 1;
    }
}

/// Whether `text` begins with `prefix`.
pub fn starts_with(text: &str, prefix: &str) -> (r: bool)
    ensures
        r == begins(text@, prefix@),
{
    stands_at(chars_of(text).as_slice(), chars_of(prefix).as_slice(), 0)
}

/// Whether `text` ends in `suffix`.
pub fn ends_with(text: &str, suffix: &str) -> (r: bool)
    ensures
        r == suffix@.is_suffix_of(text@),
{
    let chars = chars_of(text);
    let end = chars_of(suffix);
    if end.len() > chars.len() {
        return false;
    }
    stands_at(chars.as_slice(), end.as_slice(), chars.len() - end.len())
}

/// Whether `pattern` stands somewhere in `text`.
pub fn contains(text: &str, pattern: &str) -> (r: bool)
    ensures
        r == has(text@, pattern@),
{
    position(chars_of(text).as_slice(), chars_of(pattern).as_slice()).is_some()
}

/// The part of `s` behind the prefix `pat`.
pub fn strip<'a>(s: &'a [char], pat: &[char]) -> (r: Option<&'a [char]>)
    ensures
        match r {
            Some(rest) => behind(s@, pat@) == Some(rest@),
            None => behind(s@, pat@) is None,
        },
{
    if stands_at(s, pat, 0) {
        Some(slice_subrange(s, pat.len(), s.len()))
    } else {
        None
    }
}

/// The parts of `s` before and behind the first `c`.
pub fn split_first(s: &[char], c: char) -> (r: Option<(&[char], &[char])>)
    ensures
        match r {
            Some((a, b)) => split_at_first(s@, c) == Some((a@, b@)),
            None => split_at_first(s@, c) is None,
        },
{
    let pat: [char; 1] = [c];
    assert(pat@ =~= seq![c]);
    match position(s, &pat) {
        Some(i) => {
            let n: usize = s.len();
            let a = slice_subrange(s, 0, i);
            let b = slice_subrange(s, i + 1, n);
            assert(a@ =~= s@.take(i as int));
            assert(b@ =~= s@.skip(i + 1));
            Some((a, b))
        },
        None => None,
    }
}

// ---------------------------------------------------------------------------
// Trimming
// ---------------------------------------------------------------------------

/// `s` without leading white space.
pub open spec fn trim_start(s: Seq<char>) -> Seq<char>
    decreases s.len(),
{
    if s.len() > 0 && white_space(s[0]) {
        trim_start(s.skip(1))
    } else {
        s
    }
}

/// `s` without trailing white space.
pub open spec fn trim_end(s: Seq<char>) -> Seq<char>
    decreases s.len(),
{
    if s.len() > 0 && white_space(s.last()) {
        trim_end(s.drop_last())
    } else {
        s
    }
}

/// `s` without white space at either end.
pub open spec fn trim(s: Seq<char>) -> Seq<char> {
    trim_end(trim_start(s))
}

/// What is left of `s` by trimming has no white space at either end.
pub proof fn trimmed_ends_are_no_space(s: Seq<char>)
    ensures
        trim(s).len() > 0 ==> !white_space(trim(s)[0]) && !white_space(trim(s).last()),
{
    start_is_no_space(s);
    end_is_no_space(trim_start(s));
}

proof fn start_is_no_space(s: Seq<char>)
    ensures
        trim_start(s).len() > 0 ==> !white_space(trim_start(s)[0]),
    decreases s.len(),
{
    if s.len() > 0 && white_space(s[0]) {
        start_is_no_space(s.skip(1));
    }
}

proof fn end_is_no_space(s: Seq<char>)
    ensures
        trim_end(s).len() > 0 ==> !white_space(trim_end(s).last()),
        trim_end(s).len() <= s.len(),
        trim_end(s) == s.take(trim_end(s).len() as int),
    decreases s.len(),
{
    if s.len() > 0 && white_space(s.last()) {
        end_is_no_space(s.drop_last());
        let n = trim_end(s).len() as int;
        assert(s.drop_last().take(n) =~= s.take(n));
    } else {
        assert(s.take(s.len() as int) =~= s);
    }
}

/// Trimming leaves a text alone that has no white space at either end.
pub proof fn trimming_nothing(s: Seq<char>)
    requires
        s.len() > 0 ==> !white_space(s[0]) && !white_space(s.last()),
    ensures
        trim(s) == s,
{
}

proof fn start_of_space(s: Seq<char>)
    ensures
        trim_start(s).len() == 0 <==> (forall|i: int| 0 <= i < s.len() ==> white_space(#[trigger] s[i])),
    decreases s.len(),
{
    if s.len() > 0 && white_space(s[0]) {
        let t = s.skip(1);
        start_of_space(t);
        assert forall|i: int| 0 < i < s.len() implies s[i] == #[trigger] t[i - 1] by {}
        if trim_start(s).len() == 0 {
            assert forall|i: int| 0 <= i < s.len() implies white_space(#[trigger] s[i]) by {
                if i > 0 {
                    assert(white_space(t[i - 1]));
                }
            }
        }
        if forall|i: int| 0 <= i < s.len() ==> white_space(#[trigger] s[i]) {
            assert forall|i: int| 0 <= i < t.len() implies white_space(#[trigger] t[i]) by {
                assert(white_space(s[i + 1]));
            }
        }
    } else if s.len() > 0 {
        assert(!white_space(s[0]));
    }
}

proof fn end_of_space(s: Seq<char>)
    requires
        trim_end(s).len() == 0,
        s.len() > 0,
    ensures
        white_space(s[0]),
    decreases s.len(),
{
    if s.len() > 1 {
        end_of_space(s.drop_last());
    }
}

/// A text is blank if each of its characters is white space.
pub proof fn blank_is_all_space(s: Seq<char>)
    ensures
        blank(s) <==> (forall|i: int| 0 <= i < s.len() ==> white_space(#[trigger] s[i])),
{
    start_of_space(s);
    start_is_no_space(s);
    let t = trim_start(s);
    if t.len() > 0 && trim_end(t).len() == 0 {
        end_of_space(t);
    }
}

/// `s` without trailing `c`s.
pub open spec fn trim_end_char(s: Seq<char>, c: char) -> Seq<char>
    decreases s.len(),
{
    if s.len() > 0 && s.last() == c {
        trim_end_char(s.drop_last(), c)
    } else {
        s
    }
}

/// Whether `s` holds nothing but white space.
pub open spec fn blank(s: Seq<char>) -> bool {
    trim(s).len() == 0
}

fn left_trimmed(s: &[char]) -> (r: &[char])
    ensures
        r@ == trim_start(s@),
{
    let mut i: usize = 0;
    assert(s@.skip(0) =~= s@);
    while i < s.len() && is_white_space(s[i])
        invariant
            i <= s@.len(),
            trim_start(s@) == trim_start(s@.skip(i as int)),
        decreases s@.len() - i,
    {
        assert(s@.skip(i as int).skip(1) =~= s@.skip(i + 1));
        i += 1;
    }
    let out = slice_subrange(s, i, s.len());
    assert(out@ =~= s@.skip(i as int));
    out
}

fn right_trimmed(s: &[char]) -> (r: &[char])
    ensures
        r@ == trim_end(s@),
{
    let mut n: usize = s.len();
    assert(s@.take(n as int) =~= s@);
    while n > 0 && is_white_space(s[n - 1])
        invariant
            n <= s@.len(),
            trim_end(s@) == trim_end(s@.take(n as int)),
        decreases n,
    {
        assert(s@.take(n as int).drop_last() =~= s@.take(n - 1));
        n -= 1;
    }
    let out = slice_subrange(s, 0, n);
    assert(out@ =~= s@.take(n as int));
    out
}

/// `s` without white space at either end.
pub fn trimmed(s: &[char]) -> (r: &[char])
    ensures
        r@ == trim(s@),
{
    right_trimmed(left_trimmed(s))
}

/// `text` without white space at either end.
pub fn trim_text(text: &str) -> (r: String)
    ensures
        r@ == trim(text@),
{
    string_of(trimmed(chars_of(text).as_slice()))
}

/// Whether `text` holds nothing but white space.
pub fn is_blank(text: &str) -> (r: bool)
    ensures
        r == blank(text@),
{
    trimmed(chars_of(text).as_slice()).len() == 0
}

/// `text` without trailing `c`s.
pub fn trim_end_of(text: &str, c: char) -> (r: String)
    ensures
        r@ == trim_end_char(text@, c),
{
    let chars = chars_of(text);
    let mut n: usize = chars.len();
    assert(chars@.take(n as int) =~= chars@);
    while n > 0 && chars[n - 1] == c
        invariant
            n <= chars@.len(),
            trim_end_char(chars@, c) == trim_end_char(chars@.take(n as int), c),
        decreases n,
    {
        assert(chars@.take(n as int).drop_last() =~= chars@.take(n - 1));
        n -= 1;
    }
    let out = slice_subrange(chars.as_slice(), 0, n);
    assert(out@ =~= chars@.take(n as int));
    string_of(out)
}

// ---------------------------------------------------------------------------
// Splitting
// ---------------------------------------------------------------------------

/// The pieces of `s` between the occurrences of `c`: one more than there are
/// occurrences.
pub open spec fn pieces(s: Seq<char>, c: char) -> Seq<Seq<char>>
    decreases s.len(),
{
    match find(s, seq![c]) {
        Some(i) => if 0 <= i < s.len() {
            seq![s.take(i)] + pieces(s.skip(i + 1), c)
        } else {
            seq![s]
        },
        None => seq![s],
    }
}

/// `s` without one carriage return at its end.
pub open spec fn without_cr(s: Seq<char>) -> Seq<char> {
    if s.len() > 0 && s.last() == '\r' {
        s.drop_last()
    } else {
        s
    }
}

/// The lines of `s`, without their endings. A line ends in `\n` or `\r\n`; the
/// last ending is optional.
pub open spec fn lines(s: Seq<char>) -> Seq<Seq<char>>
    decreases s.len(),
{
    if s.len() == 0 {
        seq![]
    } else {
        match find(s, seq!['\n']) {
            Some(i) => if 0 <= i < s.len() {
                seq![without_cr(s.take(i))] + lines(s.skip(i + 1))
            } else {
                seq![s]
            },
            None => seq![s],
        }
    }
}

/// How many characters of `s` stand before its first white space.
pub open spec fn word_len(s: Seq<char>) -> nat
    decreases s.len(),
{
    if s.len() == 0 || white_space(s[0]) {
        0
    } else {
        1 + word_len(s.skip(1))
    }
}

/// The word at the start of `s`, behind any white space, and what follows it.
pub open spec fn first_word(s: Seq<char>) -> Option<(Seq<char>, Seq<char>)> {
    let t = trim_start(s);
    if t.len() == 0 {
        None
    } else {
        Some((t.take(word_len(t) as int), t.skip(word_len(t) as int)))
    }
}

/// The second of the words of `s`, which white space separates.
pub open spec fn second_word(s: Seq<char>) -> Option<Seq<char>> {
    match first_word(s) {
        Some((_, rest)) => match first_word(rest) {
            Some((word, _)) => Some(word),
            None => None,
        },
        None => None,
    }
}

/// A single character stands at the place where `find` reports it.
pub proof fn found_char(s: Seq<char>, c: char)
    ensures
        match find(s, seq![c]) {
            Some(i) => 0 <= i < s.len() && s[i] == c && (forall|j: int| 0 <= j < i ==> s[j] != c),
            None => forall|j: int| 0 <= j < s.len() ==> s[j] != c,
        },
{
    let pat = seq![c];
    find_is_first(s, pat, 0);
    assert forall|j: int| 0 <= j < s.len() implies (at(s, pat, j) <==> s[j] == c) by {
        let sub = s.subrange(j, j + 1);
        assert(sub.len() == 1 && sub[0] == s[j]);
        assert(pat.len() == 1 && pat[0] == c);
        if s[j] == c {
            assert(sub =~= pat);
        }
    }
}

/// The pieces of a text between the occurrences of a character.
pub fn split_on(s: &[char], c: char) -> (r: Vec<String>)
    ensures
        views(r@) == pieces(s@, c),
{
    let mut out: Vec<String> = Vec::new();
    let mut i: usize = 0;
    assert(s@.skip(0) =~= s@);
    assert(views(out@) + pieces(s@, c) =~= pieces(s@, c));
    loop
        invariant
            i <= s@.len(),
            views(out@) + pieces(s@.skip(i as int), c) == pieces(s@, c),
        decreases s@.len() - i,
    {
        let rest = slice_subrange(s, i, s.len());
        assert(rest@ =~= s@.skip(i as int));
        proof {
            found_char(rest@, c);
        }
        let ghost before = views(out@);
        match split_first(rest, c) {
            Some((a, b)) => {
                out.push(string_of(a));
                assert(views(out@) =~= before.push(a@));
                let ghost k = find(rest@, seq![c])->0;
                assert(a@.len() == k);
                assert(rest@.skip(k + 1) =~= s@.skip(i + k + 1));
                assert(before + (seq![a@] + pieces(rest@.skip(k + 1), c)) =~= views(out@)
                    + pieces(s@.skip(i + k + 1), c));
                i = i + a.len() + 1;
            },
            None => {
                out.push(string_of(rest));
                assert(views(out@) =~= before.push(rest@));
                assert(before + seq![rest@] =~= views(out@));
                return out;
            },
        }
    }
}

fn drop_cr(s: &[char]) -> (r: &[char])
    ensures
        r@ == without_cr(s@),
{
    if s.len() > 0 && s[s.len() - 1] == '\r' {
        let out = slice_subrange(s, 0, s.len() - 1);
        assert(out@ =~= s@.drop_last());
        out
    } else {
        s
    }
}

/// The lines of a text, without their endings.
pub fn lines_of(s: &[char]) -> (r: Vec<String>)
    ensures
        views(r@) == lines(s@),
{
    let mut out: Vec<String> = Vec::new();
    let mut i: usize = 0;
    assert(s@.skip(0) =~= s@);
    assert(views(out@) + lines(s@) =~= lines(s@));
    while i < s.len()
        invariant
            i <= s@.len(),
            views(out@) + lines(s@.skip(i as int)) == lines(s@),
        decreases s@.len() - i,
    {
        let rest = slice_subrange(s, i, s.len());
        assert(rest@ =~= s@.skip(i as int));
        proof {
            found_char(rest@, '\n');
        }
        let ghost before = views(out@);
        match split_first(rest, '\n') {
            Some((a, b)) => {
                let line = drop_cr(a);
                out.push(string_of(line));
                assert(views(out@) =~= before.push(line@));
                let ghost k = find(rest@, seq!['\n'])->0;
                assert(a@.len() == k);
                assert(rest@.skip(k + 1) =~= s@.skip(i + k + 1));
                assert(before + (seq![line@] + lines(rest@.skip(k + 1))) =~= views(out@) + lines(
                    s@.skip(i + k + 1),
                ));
                i = i + a.len() + 1;
            },
            None => {
                out.push(string_of(rest));
                assert(views(out@) =~= before.push(rest@));
                assert(before + seq![rest@] =~= views(out@));
                return out;
            },
        }
    }
    assert(lines(s@.skip(i as int)) =~= seq![]);
    assert(views(out@) + lines(s@.skip(i as int)) =~= views(out@));
    out
}

/// The first word of a text and what follows it.
fn take_word(s: &[char]) -> (r: Option<(&[char], &[char])>)
    ensures
        match r {
            Some((word, rest)) => first_word(s@) == Some((word@, rest@)),
            None => first_word(s@) is None,
        },
{
    let t = left_trimmed(s);
    if t.len() == 0 {
        return None;
    }
    let mut n: usize = 0;
    assert(t@.skip(0) =~= t@);
    while n < t.len() && !is_white_space(t[n])
        invariant
            n <= t@.len(),
            word_len(t@) == n + word_len(t@.skip(n as int)),
        decreases t@.len() - n,
    {
        assert(t@.skip(n as int).skip(1) =~= t@.skip(n + 1));
        n += 1;
    }
    assert(word_len(t@) == n);
    let word = slice_subrange(t, 0, n);
    let rest = slice_subrange(t, n, t.len());
    assert(word@ =~= t@.take(n as int));
    assert(rest@ =~= t@.skip(n as int));
    Some((word, rest))
}

/// The second of the words of a text.
pub fn second_word_of(s: &[char]) -> (r: Option<String>)
    ensures
        opt_view(r) == second_word(s@),
{
    match take_word(s) {
        Some((_, rest)) => match take_word(rest) {
            Some((word, _)) => Some(string_of(word)),
            None => None,
        },
        None => None,
    }
}

// ---------------------------------------------------------------------------
// Joining and padding
// ---------------------------------------------------------------------------

/// The parts one after another, with `sep` between neighbours.
pub open spec fn joined(parts: Seq<Seq<char>>, sep: Seq<char>) -> Seq<char>
    decreases parts.len(),
{
    if parts.len() == 0 {
        seq![]
    } else if parts.len() == 1 {
        parts[0]
    } else {
        joined(parts.drop_last(), sep) + sep + parts.last()
    }
}

/// The parts one after another, with `sep` between neighbours.
pub fn join(parts: &Vec<String>, sep: &str) -> (r: String)
    ensures
        r@ == joined(views(parts@), sep@),
{
    let mut out = String::new();
    let mut i: usize = 0;
    let ghost all = views(parts@);
    while i < parts.len()
        invariant
            all == views(parts@),
            i <= parts@.len(),
            out@ == joined(all.take(i as int), sep@),
        decreases parts@.len() - i,
    {
        let ghost before = out@;
        assert(all.take(i + 1).drop_last() =~= all.take(i as int));
        assert(all.take(i + 1).last() == parts@[i as int]@);
        if i > 0 {
            out.append(sep);
        } else {
            assert(all.take(0) =~= seq![]);
            assert(before =~= seq![]);
        }
        out.append(parts[i].as_str());
        assert(out@ =~= joined(all.take(i + 1), sep@));
        i += 1;
    }
    assert(all.take(parts@.len() as int) =~= all);
    out
}

/// `s` with as many spaces behind it as make it `width` characters long.
pub open spec fn padded(s: Seq<char>, width: nat) -> Seq<char> {
    if s.len() < width {
        s + Seq::new((width - s.len()) as nat, |i: int| ' ')
    } else {
        s
    }
}

/// `text` with as many spaces behind it as make it `width` characters long.
pub fn pad(text: &str, width: usize) -> (r: String)
    ensures
        r@ == padded(text@, width as nat),
{
    let mut out: Vec<char> = chars_of(text);
    let ghost start = out@;
    while out.len() < width
        invariant
            start.len() <= out@.len(),
            out@.len() <= width || out@ == start,
            out@ =~= start + Seq::new((out@.len() - start.len()) as nat, |i: int| ' '),
        decreases width - out@.len(),
    {
        out.push(' ');
    }
    assert(out@ =~= padded(start, width as nat));
    string_of(out.as_slice())
}

/// One text behind another.
pub fn concat(a: &str, b: &str) -> (r: String)
    ensures
        r@ == a@ + b@,
{
    let mut out = a.to_owned();
    out.append(b);
    out
}

/// Three texts one behind another.
pub fn concat3(a: &str, b: &str, c: &str) -> (r: String)
    ensures
        r@ == a@ + b@ + c@,
{
    let mut out = a.to_owned();
    out.append(b);
    out.append(c);
    out
}

// ---------------------------------------------------------------------------
// Comparing names without case and separators
// ---------------------------------------------------------------------------

/// `s` in lower case, without the word separators `-` and `_`.
pub open spec fn plain_name(s: Seq<char>) -> Seq<char>
    decreases s.len(),
{
    if s.len() == 0 {
        seq![]
    } else {
        let c = s.last();
        plain_name(s.drop_last()) + if c == '-' || c == '_' {
            seq![]
        } else {
            in_lower_case(c)
        }
    }
}

/// `text` in lower case, without the word separators `-` and `_`.
pub fn normalize(text: &str) -> (r: Vec<char>)
    ensures
        r@ == plain_name(text@),
{
    let chars = chars_of(text);
    let mut out: Vec<char> = Vec::new();
    let mut i: usize = 0;
    while i < chars.len()
        invariant
            i <= chars@.len(),
            out@ == plain_name(chars@.take(i as int)),
        decreases chars@.len() - i,
    {
        let c = chars[i];
        assert(chars@.take(i + 1).drop_last() =~= chars@.take(i as int));
        if c != '-' && c != '_' {
            let mut low = to_lower_char(c);
            out.append(&mut low);
        } else {
            assert(out@ + seq![] =~= out@);
        }
        i += 1;
    }
    assert(chars@.take(chars@.len() as int) =~= chars@);
    out
}

/// Names are compared part by part.
proof fn plain_name_of_parts(a: Seq<char>, b: Seq<char>)
    ensures
        plain_name(a + b) == plain_name(a) + plain_name(b),
    decreases b.len(),
{
    if b.len() == 0 {
        assert(a + b =~= a);
        assert(plain_name(a) + seq![] =~= plain_name(a));
    } else {
        assert((a + b).drop_last() =~= a + b.drop_last());
        plain_name_of_parts(a, b.drop_last());
        assert(plain_name(a + b) =~= plain_name(a) + plain_name(b));
    }
}

/// A word separator anywhere in a name does not count.
pub proof fn separators_do_not_count(a: Seq<char>, separator: char, b: Seq<char>)
    requires
        separator == '-' || separator == '_',
    ensures
        plain_name(a + seq![separator] + b) == plain_name(a + b),
{
    reveal_with_fuel(plain_name, 2);
    let middle = seq![separator];
    plain_name_of_parts(a + middle, b);
    plain_name_of_parts(a, middle);
    plain_name_of_parts(a, b);
    assert(middle.drop_last() =~= seq![]);
    assert(plain_name(middle) =~= seq![]);
    assert(plain_name(a) + seq![] =~= plain_name(a));
}

/// The case of an ASCII letter anywhere in a name does not count.
pub proof fn case_does_not_count(a: Seq<char>, letter: char, b: Seq<char>)
    requires
        'A' <= letter <= 'Z',
    ensures
        plain_name(a + seq![letter] + b) == plain_name(a + seq![ascii_lower(letter)] + b),
{
    reveal_with_fuel(plain_name, 2);
    let upper = seq![letter];
    let lower = seq![ascii_lower(letter)];
    plain_name_of_parts(a + upper, b);
    plain_name_of_parts(a, upper);
    plain_name_of_parts(a + lower, b);
    plain_name_of_parts(a, lower);
    assert(upper.drop_last() =~= seq![]);
    assert(lower.drop_last() =~= seq![]);
    assert(plain_name(upper) =~= lower);
    assert(plain_name(lower) =~= lower);
}

// ---------------------------------------------------------------------------
// Laws
// ---------------------------------------------------------------------------

/// A text begins with another exactly if it is that one with something behind it.
pub proof fn a_beginning_is_a_prefix(s: Seq<char>, pat: Seq<char>, tail: Seq<char>)
    ensures
        begins(pat + tail, pat),
        behind(pat + tail, pat) == Some(tail),
        begins(s, pat) ==> s == pat + s.skip(pat.len() as int),
        !begins(s, pat) ==> behind(s, pat) is None,
{
    let whole = pat + tail;
    assert(whole.subrange(0, pat.len() as int) =~= pat);
    assert(whole.skip(pat.len() as int) =~= tail);
    if begins(s, pat) {
        assert(s.subrange(0, pat.len() as int) == pat);
        assert(s =~= s.subrange(0, pat.len() as int) + s.skip(pat.len() as int));
    }
}

/// A text holds another exactly if it is that one with something before and behind it.
pub proof fn a_part_is_found(s: Seq<char>, before: Seq<char>, pat: Seq<char>, tail: Seq<char>)
    ensures
        has(before + pat + tail, pat),
        has(s, pat) ==> exists|i: int|
            0 <= i && i + pat.len() <= s.len() && #[trigger] s.subrange(i, i + pat.len()) == pat,
{
    let whole = before + pat + tail;
    let n = before.len() as int;
    assert(whole.subrange(n, n + pat.len()) =~= pat);
    find_is_first(whole, pat, 0);
    if find(whole, pat) is None {
        assert(!at(whole, pat, n));
    }
    find_is_first(s, pat, 0);
    if let Some(i) = find(s, pat) {
        assert(at(s, pat, i));
        assert(s.subrange(i, i + pat.len()) == pat);
    }
}

/// A text is split at the first of the signs, which belongs to neither part.
pub proof fn a_text_is_split_at_the_first_sign(a: Seq<char>, c: char, b: Seq<char>)
    requires
        !a.contains(c),
    ensures
        split_at_first(a + seq![c] + b, c) == Some((a, b)),
        split_at_first(a, c) is None,
{
    let s = a + seq![c] + b;
    found_char(s, c);
    found_char(a, c);
    assert(s[a.len() as int] == c);
    let i = find(s, seq![c])->0;
    if i < a.len() {
        assert(s[i] == a[i]);
        assert(a.contains(a[i]));
    }
    assert(s.take(a.len() as int) =~= a);
    assert(s.skip(a.len() as int + 1) =~= b);
    if let Some(j) = find(a, seq![c]) {
        assert(a.contains(a[j]));
    }
}

proof fn space_before(space: Seq<char>, s: Seq<char>)
    requires
        forall|i: int| 0 <= i < space.len() ==> white_space(#[trigger] space[i]),
    ensures
        trim_start(space + s) == trim_start(s),
    decreases space.len(),
{
    if space.len() == 0 {
        assert(space + s =~= s);
    } else {
        let rest = space.skip(1);
        assert((space + s)[0] == space[0]);
        assert((space + s).skip(1) =~= rest + s);
        assert forall|i: int| 0 <= i < rest.len() implies white_space(#[trigger] rest[i]) by {
            assert(rest[i] == space[i + 1]);
        }
        space_before(rest, s);
    }
}

proof fn space_behind(s: Seq<char>, space: Seq<char>)
    requires
        forall|i: int| 0 <= i < space.len() ==> white_space(#[trigger] space[i]),
    ensures
        trim_end(s + space) == trim_end(s),
    decreases space.len(),
{
    if space.len() == 0 {
        assert(s + space =~= s);
    } else {
        let rest = space.drop_last();
        assert((s + space).last() == space[space.len() - 1]);
        assert((s + space).drop_last() =~= s + rest);
        assert forall|i: int| 0 <= i < rest.len() implies white_space(#[trigger] rest[i]) by {
            assert(rest[i] == space[i]);
        }
        space_behind(s, rest);
    }
}

/// Trimming takes away the white space at both ends, all of it, and nothing else.
pub proof fn trimming_takes_the_space_around(before: Seq<char>, s: Seq<char>, tail: Seq<char>)
    requires
        forall|i: int| 0 <= i < before.len() ==> white_space(#[trigger] before[i]),
        forall|i: int| 0 <= i < tail.len() ==> white_space(#[trigger] tail[i]),
        s.len() > 0 ==> !white_space(s[0]) && !white_space(s.last()),
    ensures
        trim(before + s + tail) == s,
{
    assert(before + s + tail =~= before + (s + tail));
    space_before(before, s + tail);
    if s.len() == 0 {
        assert(s + tail =~= tail);
        start_of_space(tail);
        assert(trim_start(tail) =~= s);
    } else {
        assert((s + tail)[0] == s[0]);
        space_behind(s, tail);
    }
}

/// Space, tab and the line endings are white space; what ASCII prints is not.
pub proof fn printed_characters_are_no_space(c: char)
    ensures
        white_space(' ') && white_space('\t') && white_space('\n') && white_space('\r'),
        '!' <= c <= '~' ==> !white_space(c),
{
}

/// All signs of a kind are taken away from the end of a text, and nothing else.
pub proof fn trailing_signs_are_taken(s: Seq<char>, c: char, n: nat)
    requires
        s.len() > 0 ==> s.last() != c,
    ensures
        trim_end_char(s + Seq::new(n, |i: int| c), c) == s,
    decreases n,
{
    let signs = Seq::new(n, |i: int| c);
    if n == 0 {
        assert(s + signs =~= s);
    } else {
        let fewer = Seq::new((n - 1) as nat, |i: int| c);
        assert((s + signs).last() == c);
        assert((s + signs).drop_last() =~= s + fewer);
        trailing_signs_are_taken(s, c, (n - 1) as nat);
    }
}

proof fn joined_from_the_front(first: Seq<char>, rest: Seq<Seq<char>>, sep: Seq<char>)
    requires
        rest.len() > 0,
    ensures
        joined(seq![first] + rest, sep) == first + sep + joined(rest, sep),
    decreases rest.len(),
{
    let all = seq![first] + rest;
    assert(all.last() == rest.last());
    assert(all.drop_last() =~= seq![first] + rest.drop_last());
    if rest.len() == 1 {
        assert(rest.drop_last() =~= seq![]);
        assert(all.drop_last() =~= seq![first]);
        assert(joined(seq![first], sep) == first);
        assert(rest[0] == rest.last());
    } else {
        joined_from_the_front(first, rest.drop_last(), sep);
        assert(joined(all, sep) =~= first + sep + joined(rest, sep));
    }
}

/// Texts are joined in their order, with the separator between two of them and nowhere
/// else.
pub proof fn texts_are_joined_in_order(
    first: Seq<char>,
    rest: Seq<Seq<char>>,
    sep: Seq<char>,
)
    ensures
        joined(seq![], sep).len() == 0,
        joined(seq![first], sep) == first,
        rest.len() > 0 ==> joined(seq![first] + rest, sep) == first + sep + joined(rest, sep),
{
    if rest.len() > 0 {
        joined_from_the_front(first, rest, sep);
    }
}

/// The pieces between signs make the text again when the signs are put between them,
/// and no piece holds such a sign.
pub proof fn pieces_make_the_text(s: Seq<char>, c: char)
    ensures
        joined(pieces(s, c), seq![c]) == s,
        pieces(s, c).len() > 0,
        forall|i: int| 0 <= i < pieces(s, c).len() ==> !(#[trigger] pieces(s, c)[i]).contains(c),
    decreases s.len(),
{
    found_char(s, c);
    match find(s, seq![c]) {
        Some(k) => {
            let head = s.take(k);
            let rest = s.skip(k + 1);
            pieces_make_the_text(rest, c);
            joined_from_the_front(head, pieces(rest, c), seq![c]);
            assert(head + seq![c] + rest =~= s);
            let all = pieces(s, c);
            assert(all == seq![head] + pieces(rest, c));
            assert forall|i: int| 0 <= i < all.len() implies !(#[trigger] all[i]).contains(c) by {
                if i > 0 {
                    assert(all[i] == pieces(rest, c)[i - 1]);
                } else {
                    assert forall|j: int| 0 <= j < head.len() implies head[j] != c by {
                        assert(head[j] == s[j]);
                    }
                }
            }
        },
        None => {
            assert(pieces(s, c) =~= seq![s]);
        },
    }
}

/// A line ends before a line feed, or before a carriage return and a line feed. What
/// stands behind the last line feed is a line too, unless it is empty.
pub proof fn lines_end_at_line_feeds(line: Seq<char>, rest: Seq<char>)
    requires
        !line.contains('\n'),
    ensures
        line.len() == 0 || line.last() != '\r' ==> lines(line + seq!['\n'] + rest) == seq![line]
            + lines(rest),
        lines(line + seq!['\r', '\n'] + rest) == seq![line] + lines(rest),
        line.len() > 0 ==> lines(line) == seq![line],
        lines(seq![]).len() == 0,
{
    let plain = line + seq!['\n'] + rest;
    found_char(plain, '\n');
    assert(plain[line.len() as int] == '\n');
    let i = find(plain, seq!['\n'])->0;
    if i < line.len() {
        assert(plain[i] == line[i]);
        assert(line.contains(line[i]));
    }
    assert(plain.take(line.len() as int) =~= line);
    assert(plain.skip(line.len() as int + 1) =~= rest);
    let wide = line + seq!['\r', '\n'] + rest;
    found_char(wide, '\n');
    assert(wide[line.len() as int] == '\r');
    assert(wide[line.len() as int + 1] == '\n');
    let j = find(wide, seq!['\n'])->0;
    if j < line.len() {
        assert(wide[j] == line[j]);
        assert(line.contains(line[j]));
    }
    assert(j == line.len() as int + 1);
    let taken = wide.take(line.len() as int + 1);
    assert(taken.last() == '\r');
    assert(taken.drop_last() =~= line);
    assert(wide.skip(line.len() as int + 2) =~= rest);
    found_char(line, '\n');
    if let Some(k) = find(line, seq!['\n']) {
        assert(line.contains(line[k]));
    }
}

proof fn word_ends_at_space(word: Seq<char>, rest: Seq<char>)
    requires
        forall|i: int| 0 <= i < word.len() ==> !white_space(#[trigger] word[i]),
        rest.len() > 0 ==> white_space(rest[0]),
    ensures
        word_len(word + rest) == word.len(),
    decreases word.len(),
{
    if word.len() == 0 {
        assert(word + rest =~= rest);
    } else {
        let tail = word.skip(1);
        assert((word + rest)[0] == word[0]);
        assert((word + rest).skip(1) =~= tail + rest);
        assert forall|i: int| 0 <= i < tail.len() implies !white_space(#[trigger] tail[i]) by {
            assert(tail[i] == word[i + 1]);
        }
        word_ends_at_space(tail, rest);
    }
}

/// The second word of a line is what stands behind the first space between words, up to
/// the next.
pub proof fn words_stand_between_spaces(
    indent: Seq<char>,
    first: Seq<char>,
    gap: Seq<char>,
    second: Seq<char>,
    rest: Seq<char>,
)
    requires
        forall|i: int| 0 <= i < indent.len() ==> white_space(#[trigger] indent[i]),
        forall|i: int| 0 <= i < first.len() ==> !white_space(#[trigger] first[i]),
        forall|i: int| 0 <= i < gap.len() ==> white_space(#[trigger] gap[i]),
        forall|i: int| 0 <= i < second.len() ==> !white_space(#[trigger] second[i]),
        first.len() > 0,
        gap.len() > 0,
        second.len() > 0,
        rest.len() > 0 ==> white_space(rest[0]),
    ensures
        second_word(indent + first + gap + second + rest) == Some(second),
        second_word(indent + first + gap) is None,
{
    let tail = gap + second + rest;
    let whole = indent + first + gap + second + rest;
    assert(whole =~= indent + (first + tail));
    space_before(indent, first + tail);
    assert((first + tail)[0] == first[0]);
    word_ends_at_space(first, tail);
    assert((first + tail).skip(first.len() as int) =~= tail);
    assert(tail =~= gap + (second + rest));
    space_before(gap, second + rest);
    assert((second + rest)[0] == second[0]);
    word_ends_at_space(second, rest);
    assert((second + rest).take(second.len() as int) =~= second);
    let short = indent + first + gap;
    assert(short =~= indent + (first + gap));
    space_before(indent, first + gap);
    assert((first + gap)[0] == first[0]);
    word_ends_at_space(first, gap);
    assert((first + gap).skip(first.len() as int) =~= gap);
    start_of_space(gap);
}

/// A padded text is the text and then spaces up to the width, and never cut.
pub proof fn padding_fills_up_with_spaces(s: Seq<char>, width: nat)
    ensures
        padded(s, width).len() == if s.len() > width {
            s.len()
        } else {
            width
        },
        begins(padded(s, width), s),
        forall|i: int| s.len() <= i < padded(s, width).len() ==> #[trigger] padded(s, width)[i] == ' ',
{
    assert(padded(s, width).subrange(0, s.len() as int) =~= s);
}

/// A name in small letters and digits without separators is compared as it is.
pub proof fn small_names_stay(s: Seq<char>)
    requires
        forall|i: int| 0 <= i < s.len() ==> 'a' <= (#[trigger] s[i]) <= 'z' || '0' <= s[i] <= '9',
    ensures
        plain_name(s) == s,
    decreases s.len(),
{
    if s.len() > 0 {
        let before = s.drop_last();
        assert forall|i: int| 0 <= i < before.len() implies 'a' <= (#[trigger] before[i]) <= 'z' || '0'
            <= before[i] <= '9' by {
            assert(before[i] == s[i]);
        }
        small_names_stay(before);
        assert(s[s.len() - 1] == s.last());
        assert(before.push(s.last()) =~= s);
    } else {
        assert(plain_name(s) =~= s);
    }
}

/// Of ASCII only the capital letters change in lower case, each to its small letter.
pub proof fn capital_letters_become_small(c: char)
    ensures
        'A' <= c <= 'Z' ==> ascii_lower(c) as int == c as int + 32,
        !('A' <= c <= 'Z') ==> ascii_lower(c) == c,
        c <= '\u{7f}' ==> in_lower_case(c) == seq![ascii_lower(c)],
{
}

/// Pieces that are joined by a sign come apart again at that sign.
pub proof fn joined_pieces_come_apart(parts: Seq<Seq<char>>, c: char)
    requires
        parts.len() > 0,
        forall|i: int| 0 <= i < parts.len() ==> !(#[trigger] parts[i]).contains(c),
    ensures
        pieces(joined(parts, seq![c]), c) == parts,
    decreases parts.len(),
{
    let first = parts[0];
    let rest = parts.skip(1);
    assert(parts =~= seq![first] + rest);
    if rest.len() == 0 {
        assert(parts =~= seq![first]);
        a_text_is_split_at_the_first_sign(first, c, seq![]);
        assert(find(first, seq![c]) is None);
    } else {
        joined_from_the_front(first, rest, seq![c]);
        assert forall|i: int| 0 <= i < rest.len() implies !(#[trigger] rest[i]).contains(c) by {
            assert(rest[i] == parts[i + 1]);
        }
        joined_pieces_come_apart(rest, c);
        let tail = joined(rest, seq![c]);
        let s = first + seq![c] + tail;
        a_text_is_split_at_the_first_sign(first, c, tail);
        found_char(s, c);
        let i = find(s, seq![c])->0;
        assert(s.take(i) == first && s.skip(i + 1) == tail);
        assert(pieces(s, c) =~= seq![first] + pieces(tail, c));
    }
}

/// A line with one word has no second.
pub proof fn one_word_is_no_two(word: Seq<char>)
    requires
        forall|i: int| 0 <= i < word.len() ==> !white_space(#[trigger] word[i]),
    ensures
        second_word(word) is None,
{
    if word.len() > 0 {
        assert(word + Seq::<char>::empty() =~= word);
        word_ends_at_space(word, seq![]);
        assert(word.skip(word.len() as int) =~= seq![]);
    }
}

/// Texts are seen as they are, whether they are there or not.
pub proof fn texts_are_seen_as_they_are(text: String, part: &str, parts: Seq<String>, i: int)
    ensures
        opt_view(Some(text)) == Some(text@) && opt_view(None) is None,
        opt_str(Some(part)) == Some(part@) && opt_str(None) is None,
        views(parts).len() == parts.len(),
        0 <= i < parts.len() ==> views(parts)[i] == parts[i]@,
{
}

} // verus!
