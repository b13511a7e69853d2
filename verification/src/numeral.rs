//! Decimal numerals: how numbers are written and read.

use vstd::prelude::*;
use vstd::slice::slice_subrange;
use vstd::string::*;

use crate::text::{chars_of, concat, string_of};

verus! {

/// The digit that stands for a number below ten.
pub open spec fn digit(n: nat) -> char {
    (48 + n) as char
}

/// The decimal numeral of a natural number.
pub open spec fn decimal(n: nat) -> Seq<char>
    decreases n,
{
    if n < 10 {
        seq![digit(n)]
    } else {
        decimal(n / 10).push(digit(n % 10))
    }
}

/// The decimal numeral of an integer, with a minus sign where it is negative.
pub open spec fn decimal_int(i: int) -> Seq<char> {
    if i < 0 {
        seq!['-'] + decimal((-i) as nat)
    } else {
        decimal(i as nat)
    }
}

/// Whether a character is one of the ten digits.
pub open spec fn is_digit(c: char) -> bool {
    '0' <= c <= '9'
}

/// The number that a run of digits stands for; nothing if there is any other
/// character in it.
pub open spec fn digits_value(s: Seq<char>) -> Option<nat>
    decreases s.len(),
{
    if s.len() == 0 {
        Some(0)
    } else {
        match digits_value(s.drop_last()) {
            Some(v) => if is_digit(s.last()) {
                Some((v * 10 + (s.last() as int - 48)) as nat)
            } else {
                None
            },
            None => None,
        }
    }
}

/// The number that a numeral without a sign stands for: at least one digit.
pub open spec fn magnitude(s: Seq<char>) -> Option<nat> {
    if s.len() == 0 {
        None
    } else {
        digits_value(s)
    }
}

/// What a text reads as when a number of 64 bits without a sign is expected: an
/// optional `+` and digits, within the range of the type.
pub open spec fn read_u64(s: Seq<char>) -> Option<u64> {
    let digits = if s.len() > 0 && s[0] == '+' {
        s.skip(1)
    } else {
        s
    };
    match magnitude(digits) {
        Some(v) => if v <= u64::MAX {
            Some(v as u64)
        } else {
            None
        },
        None => None,
    }
}

/// What a text reads as when a signed number of 64 bits is expected: an optional
/// sign and digits, within the range of the type.
pub open spec fn read_i64(s: Seq<char>) -> Option<i64> {
    let signed = s.len() > 0 && (s[0] == '+' || s[0] == '-');
    let digits = if signed {
        s.skip(1)
    } else {
        s
    };
    match magnitude(digits) {
        Some(v) => {
            let value: int = if signed && s[0] == '-' {
                -(v as int)
            } else {
                v as int
            };
            if i64::MIN <= value <= i64::MAX {
                Some(value as i64)
            } else {
                None
            }
        },
        None => None,
    }
}

/// A longer run of digits stands for a number that is no smaller.
proof fn prefix_is_smaller(s: Seq<char>, k: int)
    requires
        0 <= k <= s.len(),
    ensures
        digits_value(s) is Some ==> digits_value(s.take(k)) is Some && digits_value(s.take(k))->0
            <= digits_value(s)->0,
    decreases s.len(),
{
    if k == s.len() {
        assert(s.take(k) =~= s);
    } else {
        prefix_is_smaller(s.drop_last(), k);
        assert(s.drop_last().take(k) =~= s.take(k));
    }
}

/// The number that digits stand for, if it fits into 64 bits.
fn digits_of(s: &[char]) -> (r: Option<u64>)
    ensures
        match r {
            Some(v) => magnitude(s@) == Some(v as nat),
            None => magnitude(s@) is None || magnitude(s@)->0 > u64::MAX,
        },
{
    if s.len() == 0 {
        return None;
    }
    let mut value: u64 = 0;
    let mut i: usize = 0;
    while i < s.len()
        invariant
            s@.len() > 0,
            i <= s@.len(),
            digits_value(s@.take(i as int)) == Some(value as nat),
        decreases s@.len() - i,
    {
        let c = s[i];
        assert(s@.take(i + 1).drop_last() =~= s@.take(i as int));
        proof {
            prefix_is_smaller(s@, i + 1);
        }
        if !('0' <= c && c <= '9') {
            return None;
        }
        let d: u64 = (c as u64) - 48;
        if value > (u64::MAX - d) / 10 {
            return None;
        }
        value = value * 10 + d;
        i += 1;
    }
    assert(s@.take(s@.len() as int) =~= s@);
    Some(value)
}

/// Reads a number of 64 bits without a sign.
pub fn parse_u64(text: &str) -> (r: Option<u64>)
    ensures
        r == read_u64(text@),
{
    let chars = chars_of(text);
    let s = chars.as_slice();
    if s.len() > 0 && s[0] == '+' {
        let digits = slice_subrange(s, 1, s.len());
        assert(digits@ =~= s@.skip(1));
        digits_of(digits)
    } else {
        digits_of(s)
    }
}

/// Reads a signed number of 64 bits.
pub fn parse_i64(text: &str) -> (r: Option<i64>)
    ensures
        r == read_i64(text@),
{
    let chars = chars_of(text);
    let s = chars.as_slice();
    let mut negative: bool = false;
    let mut digits: &[char] = s;
    if s.len() > 0 && (s[0] == '+' || s[0] == '-') {
        negative = s[0] == '-';
        digits = slice_subrange(s, 1, s.len());
        assert(digits@ =~= s@.skip(1));
    }
    match digits_of(digits) {
        Some(v) => {
            if negative {
                if v == 0x8000_0000_0000_0000 {
                    Some(i64::MIN)
                } else if v < 0x8000_0000_0000_0000 {
                    Some(-(v as i64))
                } else {
                    None
                }
            } else if v <= 0x7fff_ffff_ffff_ffff {
                Some(v as i64)
            } else {
                None
            }
        },
        None => None,
    }
}

/// Writes a natural number in decimal.
pub fn show_u64(n: u64) -> (r: String)
    ensures
        r@ == decimal(n as nat),
    decreases n,
{
    let c: char = (48u8 + (n % 10) as u8) as char;
    if n < 10 {
        let one: [char; 1] = [c];
        assert(one@ =~= decimal(n as nat));
        string_of(&one)
    } else {
        let mut out = show_u64(n / 10);
        out.push(c);
        out
    }
}

/// Writes an integer in decimal.
pub fn show_i64(i: i64) -> (r: String)
    ensures
        r@ == decimal_int(i as int),
{
    if i < 0 {
        let magnitude: u64 = if i == i64::MIN {
            0x8000_0000_0000_0000
        } else {
            (-i) as u64
        };
        proof {
            reveal_strlit("-");
        }
        assert("-"@ =~= seq!['-']);
        concat("-", show_u64(magnitude).as_str())
    } else {
        show_u64(i as u64)
    }
}

/// Writing a number of 64 bits and reading it again gives the number back.
pub proof fn decimal_reads_back(n: u64)
    ensures
        read_u64(decimal(n as nat)) == Some(n),
{
    decimal_digits(n as nat);
    assert(decimal(n as nat)[0] != '+');
}

/// Writing a signed number of 64 bits and reading it again gives the number back.
pub proof fn decimal_int_reads_back(i: i64)
    ensures
        read_i64(decimal_int(i as int)) == Some(i),
{
    if i < 0 {
        decimal_digits((-i) as nat);
        assert(decimal_int(i as int).skip(1) =~= decimal((-i) as nat));
    } else {
        decimal_digits(i as nat);
    }
}

/// A numeral holds digits only, at least one, and stands for its number.
proof fn decimal_digits(n: nat)
    ensures
        decimal(n).len() > 0,
        digits_value(decimal(n)) == Some(n),
        forall|i: int| 0 <= i < decimal(n).len() ==> is_digit(#[trigger] decimal(n)[i]),
    decreases n,
{
    assert(is_digit(digit(n % 10)));
    assert(digit(n % 10) as int == 48 + n % 10);
    if n < 10 {
        assert(decimal(n).drop_last() =~= seq![]);
        assert(digits_value(decimal(n).drop_last()) == Some(0nat));
    } else {
        decimal_digits(n / 10);
        assert(decimal(n).drop_last() =~= decimal(n / 10));
    }
}

/// A number is written with a digit for each power of ten, the highest first.
pub proof fn numbers_are_written_in_tens(n: nat, d: nat)
    requires
        d < 10,
    ensures
        decimal(d) == seq![(48 + d) as char],
        n > 0 ==> decimal(10 * n + d) == decimal(n).push((48 + d) as char),
        decimal_int(-(n as int)) == if n == 0 {
            seq!['0']
        } else {
            seq!['-'] + decimal(n)
        },
        decimal_int(n as int) == decimal(n),
{
    let m = 10 * n + d;
    assert(m / 10 == n && m % 10 == d) by (nonlinear_arith)
        requires
            m == 10 * n + d,
            d < 10,
    ;
    if n == 0 {
        assert(decimal(0) =~= seq!['0']);
    }
}

proof fn digits_have_a_value(s: Seq<char>)
    ensures
        digits_value(s) is Some <==> (forall|i: int| 0 <= i < s.len() ==> '0' <= (#[trigger] s[i]) <= '9'),
    decreases s.len(),
{
    if s.len() > 0 {
        let before = s.drop_last();
        digits_have_a_value(before);
        assert(s[s.len() - 1] == s.last());
        if forall|i: int| 0 <= i < s.len() ==> '0' <= (#[trigger] s[i]) <= '9' {
            assert forall|i: int| 0 <= i < before.len() implies '0' <= (#[trigger] before[i]) <= '9' by {
                assert(before[i] == s[i]);
            }
        }
        if digits_value(s) is Some {
            assert forall|i: int| 0 <= i < s.len() implies '0' <= (#[trigger] s[i]) <= '9' by {
                if i < before.len() {
                    assert(before[i] == s[i]);
                }
            }
        }
    }
}

/// Only digits are read as a number, at least one of them, behind at most one sign.
pub proof fn only_digits_are_numbers(s: Seq<char>)
    ensures
        read_u64(s) is Some ==> s.len() > 0 && (s[0] == '+' ==> s.len() > 1) && forall|i: int|
            0 <= i < s.len() ==> '0' <= (#[trigger] s[i]) <= '9' || (i == 0 && s[0] == '+'),
        read_i64(s) is Some ==> s.len() > 0 && (s[0] == '+' || s[0] == '-' ==> s.len() > 1)
            && forall|i: int|
            0 <= i < s.len() ==> '0' <= (#[trigger] s[i]) <= '9' || (i == 0 && (s[0] == '+' || s[0]
                == '-')),
{
    digits_have_a_value(s);
    if s.len() > 0 {
        let rest = s.skip(1);
        digits_have_a_value(rest);
        assert forall|i: int| 0 < i < s.len() implies #[trigger] s[i] == rest[i - 1] by {}
    }
}

/// A plus sign before digits does not count, a minus sign turns the number round, and a
/// number that is too large for its type is refused.
pub proof fn signs_and_sizes_of_numbers(n: nat)
    ensures
        read_u64(seq!['+'] + decimal(n)) == read_u64(decimal(n)),
        read_u64(decimal(n)) == if n <= u64::MAX {
            Some(n as u64)
        } else {
            None
        },
        read_u64(seq!['-'] + decimal(n)) is None,
        read_i64(seq!['+'] + decimal(n)) == read_i64(decimal(n)),
        read_i64(decimal(n)) == if n <= i64::MAX {
            Some(n as i64)
        } else {
            None
        },
        read_i64(seq!['-'] + decimal(n)) == if n <= i64::MAX + 1 {
            Some((-(n as int)) as i64)
        } else {
            None
        },
{
    decimal_digits(n);
    let d = decimal(n);
    assert(is_digit(d[0]));
    assert((seq!['+'] + d).skip(1) =~= d);
    assert((seq!['-'] + d).skip(1) =~= d);
    only_digits_are_numbers(seq!['-'] + d);
    assert((seq!['-'] + d)[0] == '-');
}

/// The value of digits grows by tens from left to right, zeros at the front add nothing,
/// and a text of digits is read as that value where it fits.
pub proof fn digits_count_in_tens(s: Seq<char>, d: char, v: nat)
    requires
        '0' <= d <= '9',
        digits_value(s) == Some(v),
    ensures
        digits_value(s.push(d)) == Some((10 * v + (d as int - '0' as int)) as nat),
        digits_value(seq![]) == Some(0nat),
        s.len() > 0 && v <= u64::MAX ==> read_u64(s) == Some(v as u64),
        s.len() > 0 && v > u64::MAX ==> read_u64(s) is None,
        s.len() > 0 && v <= i64::MAX ==> read_i64(s) == Some(v as i64),
        s.len() > 0 && v > i64::MAX ==> read_i64(s) is None,
        s.len() > 0 && v <= i64::MAX + 1 ==> read_i64(seq!['-'] + s) == Some((-(v as int)) as i64),
        s.len() > 0 && v > i64::MAX + 1 ==> read_i64(seq!['-'] + s) is None,
        s.len() > 0 ==> read_i64(seq!['+'] + s) == read_i64(s) && read_u64(seq!['+'] + s) == read_u64(s),
{
    assert(s.push(d).drop_last() =~= s);
    digits_have_a_value(s);
    if s.len() > 0 {
        assert('0' <= s[0] <= '9');
        assert((seq!['+'] + s).skip(1) =~= s);
        assert((seq!['-'] + s).skip(1) =~= s);
    }
}

} // verus!
