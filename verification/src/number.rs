//! Parameter literals: decimal, or hexadecimal behind `0x`, or binary
//! behind `0b`.

use crate::text::chars_of;
use vstd::prelude::*;

verus! {

/// A literal that is not a number in its radix, or one that does not fit in
/// 32 bits.
#[derive(Clone, Copy, Debug, PartialEq, Eq)]
pub struct NumberFormatError;

/// What `c` counts as a digit: `0` to `9` as written, and the letters of
/// either case from ten upwards.
pub open spec fn digit_value(c: char) -> Option<nat> {
    if '0' <= c <= '9' {
        Some((c as int - '0' as int) as nat)
    } else if 'a' <= c <= 'z' {
        Some((c as int - 'a' as int + 10) as nat)
    } else if 'A' <= c <= 'Z' {
        Some((c as int - 'A' as int + 10) as nat)
    } else {
        None
    }
}

/// Whether `c` is a digit of the given radix.
pub open spec fn is_digit(c: char, radix: nat) -> bool {
    digit_value(c) matches Some(d) && d < radix
}

/// Whether `s` holds digits of the given radix and nothing else.
pub open spec fn all_digits(s: Seq<char>, radix: nat) -> bool {
    forall|i: int| 0 <= i < s.len() ==> is_digit(#[trigger] s[i], radix)
}

/// The number that a run of digits stands for, the first digit weighing
/// most.
pub open spec fn digits_value(s: Seq<char>, radix: nat) -> nat
    decreases s.len(),
{
    if s.len() == 0 {
        0
    } else {
        digits_value(s.drop_last(), radix) * radix + digit_value(s.last()).unwrap()
    }
}

/// The signed 32-bit number that `s` stands for in the given radix: an
/// optional `+` or `-`, then at least one digit, then nothing. There is
/// none if `s` is not of that form or the number does not fit.
pub open spec fn signed_value(s: Seq<char>, radix: nat) -> Option<int> {
    let signed = s.len() > 0 && (s[0] == '+' || s[0] == '-');
    let negative = s.len() > 0 && s[0] == '-';
    let digits = if signed {
        s.skip(1)
    } else {
        s
    };
    let magnitude = digits_value(digits, radix) as int;
    let value = if negative {
        -magnitude
    } else {
        magnitude
    };
    if digits.len() > 0 && all_digits(digits, radix) && i32::MIN <= value <= i32::MAX {
        Some(value)
    } else {
        None
    }
}

/// The radix that the first two characters of a literal announce.
pub open spec fn radix_of(s: Seq<char>) -> nat {
    if s.len() >= 2 && s[0] == '0' && s[1] == 'x' {
        16
    } else if s.len() >= 2 && s[0] == '0' && s[1] == 'b' {
        2
    } else {
        10
    }
}

/// The number that a literal stands for. Only its first two characters
/// decide the radix; behind `0x` or `0b` the rest is read, else the whole.
pub open spec fn number_value(s: Seq<char>) -> Option<int> {
    let radix = radix_of(s);
    if radix == 10 {
        signed_value(s, 10)
    } else {
        signed_value(s.skip(2), radix)
    }
}

/// Two literals that start with the same two characters are read in the
/// same radix, and one of fewer than two characters is decimal.
pub proof fn lemma_radix_from_first_two(s: Seq<char>, t: Seq<char>)
    ensures
        s.len() >= 2 && t.len() >= 2 && s[0] == t[0] && s[1] == t[1] ==> radix_of(s) == radix_of(t),
        s.len() < 2 ==> radix_of(s) == 10,
{
}

/// A longer run of digits stands for no smaller a number than its start.
proof fn lemma_digits_value_grows(s: Seq<char>, radix: nat, n: int)
    requires
        0 <= n <= s.len(),
        radix >= 1,
    ensures
        digits_value(s.take(n), radix) <= digits_value(s, radix),
    decreases s.len(),
{
    if n < s.len() {
        let front = s.drop_last();
        lemma_digits_value_grows(front, radix, n);
        assert(front.take(n) =~= s.take(n));
        assert(digits_value(front, radix) * radix >= digits_value(front, radix)) by (nonlinear_arith)
            requires
                radix >= 1,
        ;
    } else {
        assert(s.take(n) =~= s);
    }
}

/// Reads one digit of the given radix.
fn digit(c: char, radix: u32) -> (d: Option<u32>)
    requires
        2 <= radix <= 36,
    ensures
        d matches Some(v) ==> is_digit(c, radix as nat) && digit_value(c) == Some(v as nat),
        d is None ==> !is_digit(c, radix as nat),
{
    let value: u32 = if '0' <= c && c <= '9' {
        c as u32 - '0' as u32
    } else if 'a' <= c && c <= 'z' {
        c as u32 - 'a' as u32 + 10
    } else if 'A' <= c && c <= 'Z' {
        c as u32 - 'A' as u32 + 10
    } else {
        return None;
    };
    if value < radix {
        Some(value)
    } else {
        None
    }
}

/// Reads a signed number in the given radix: an optional sign, then
/// digits to the end.
pub fn from_chars_radix(s: &[char], radix: u32) -> (r: Result<i32, NumberFormatError>)
    requires
        2 <= radix <= 36,
    ensures
        match r {
            Ok(v) => signed_value(s@, radix as nat) == Some(v as int),
            Err(_) => signed_value(s@, radix as nat) is None,
        },
{
    let n = s.len();
    if n == 0 {
        return Err(NumberFormatError);
    }
    let negative = s[0] == '-';
    let start: usize = if s[0] == '-' || s[0] == '+' {
        1
    } else {
        0
    };
    if start == n {
        return Err(NumberFormatError);
    }
    let ghost digits = s@.skip(start as int);
    assert(s@.skip(0) =~= s@);
    let limit: u64 = if negative {
        0x8000_0000
    } else {
        0x7FFF_FFFF
    };
    let mut magnitude: u64 = 0;
    let mut i: usize = start;
    while i < n
        invariant
            start < n == s@.len(),
            start <= i <= n,
            negative == (s@[0] == '-'),
            start == if s@[0] == '-' || s@[0] == '+' { 1int } else { 0int },
            limit == if negative { 0x8000_0000int } else { 0x7FFF_FFFFint },
            2 <= radix <= 36,
            digits == s@.skip(start as int),
            start == 0 ==> digits == s@,
            all_digits(digits.take(i - start), radix as nat),
            magnitude == digits_value(digits.take(i - start), radix as nat),
            magnitude <= limit,
        decreases n - i,
    {
        let ghost read = digits.take(i - start);
        let ghost more = digits.take(i + 1 - start);
        assert(more.drop_last() =~= read);
        assert(more.last() == s@[i as int]);
        match digit(s[i], radix) {
            None => {
                assert(!is_digit(digits[i - start], radix as nat));
                return Err(NumberFormatError);
            },
            Some(d) => {
                assert(magnitude * radix + d <= 0x8000_0000 * 36 + 36) by (nonlinear_arith)
                    requires
                        magnitude <= 0x8000_0000,
                        radix <= 36,
                        d < radix,
                ;
                magnitude = magnitude * (radix as u64) + d as u64;
                if magnitude > limit {
                    proof {
                        if all_digits(digits, radix as nat) {
                            lemma_digits_value_grows(digits, radix as nat, i + 1 - start);
                        }
                    }
                    return Err(NumberFormatError);
                }
            },
        }
        i += 1;
    }
    assert(digits.take(i - start) =~= digits);
    if negative {
        Ok((-(magnitude as i64)) as i32)
    } else {
        Ok(magnitude as i32)
    }
}

/// Reads a literal, given as characters.
pub fn parse_chars(literal: &[char]) -> (r: Result<i32, NumberFormatError>)
    ensures
        match r {
            Ok(v) => number_value(literal@) == Some(v as int),
            Err(_) => number_value(literal@) is None,
        },
{
    let n = literal.len();
    if n >= 2 && literal[0] == '0' && literal[1] == 'x' {
        from_chars_radix(vstd::slice::slice_subrange(literal, 2, n), 16)
    } else if n >= 2 && literal[0] == '0' && literal[1] == 'b' {
        from_chars_radix(vstd::slice::slice_subrange(literal, 2, n), 2)
    } else {
        from_chars_radix(literal, 10)
    }
}

/// Reads a literal: decimal, or hexadecimal behind `0x`, or binary behind
/// `0b`, with an optional sign before the digits.
pub fn parse_number(literal: &str) -> (r: Result<i32, NumberFormatError>)
    ensures
        match r {
            Ok(v) => number_value(literal@) == Some(v as int),
            Err(_) => number_value(literal@) is None,
        },
{
    let chars = chars_of(literal);
    parse_chars(chars.as_slice())
}

} // verus!
