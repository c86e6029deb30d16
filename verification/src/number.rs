//! Reading signed integers from decimal text.
//!
//! The accepted form is an optional `+` or `-` sign followed by one or more
//! ASCII digits and nothing else: no whitespace, no separators, no exponent.

use vstd::prelude::*;

verus! {

/// `c` is one of the ten ASCII digits.
pub open spec fn is_digit(c: char) -> bool {
    0x30 <= c as u32 <= 0x39
}

/// The number that the ASCII digit `c` stands for.
pub open spec fn digit_value(c: char) -> int {
    c as u32 - 0x30
}

/// Every character of `s` is an ASCII digit.
pub open spec fn all_digits(s: Seq<char>) -> bool {
    forall|i: int| 0 <= i < s.len() ==> is_digit(#[trigger] s[i])
}

/// The natural number that a run of digits denotes in base ten; the empty
/// run denotes zero.
pub open spec fn digits_value(s: Seq<char>) -> int
    decreases s.len(),
{
    if s.len() == 0 {
        0
    } else {
        digits_value(s.drop_last()) * 10 + digit_value(s.last())
    }
}

/// `s` starts with a sign character.
pub open spec fn has_sign(s: Seq<char>) -> bool {
    s.len() > 0 && (s[0] == '-' || s[0] == '+')
}

/// The digits of `s`: what follows the sign, or all of `s` if it has none.
pub open spec fn digits_part(s: Seq<char>) -> Seq<char> {
    if has_sign(s) {
        s.skip(1)
    } else {
        s
    }
}

/// The integer that `s` denotes, if `s` is an optional sign followed by at
/// least one digit.
pub open spec fn integer_of_text(s: Seq<char>) -> Option<int> {
    let digits = digits_part(s);
    if digits.len() > 0 && all_digits(digits) {
        if s[0] == '-' {
            Some(-digits_value(digits))
        } else {
            Some(digits_value(digits))
        }
    } else {
        None
    }
}

/// The integer that `s` denotes, if it denotes one between `low` and `high`.
pub open spec fn integer_in_range(s: Seq<char>, low: int, high: int) -> Option<int> {
    match integer_of_text(s) {
        Some(v) => if low <= v <= high {
            Some(v)
        } else {
            None
        },
        None => None,
    }
}

/// The 128-bit number that `s` denotes, if it denotes one.
pub open spec fn i128_of_text(s: Seq<char>) -> Option<i128> {
    match integer_in_range(s, i128::MIN as int, i128::MAX as int) {
        Some(v) => Some(v as i128),
        None => None,
    }
}

/// The 64-bit number that `s` denotes, if it denotes one.
pub open spec fn i64_of_text(s: Seq<char>) -> Option<i64> {
    match integer_in_range(s, i64::MIN as int, i64::MAX as int) {
        Some(v) => Some(v as i64),
        None => None,
    }
}

/// A run of digits denotes a non-negative number.
pub proof fn lemma_digits_value_nonnegative(s: Seq<char>)
    requires
        all_digits(s),
    ensures
        digits_value(s) >= 0,
    decreases s.len(),
{
    if s.len() > 0 {
        lemma_digits_value_nonnegative(s.drop_last());
    }
}

/// A prefix of a run of digits denotes no more than the whole run.
pub proof fn lemma_digits_prefix_le(s: Seq<char>, k: int)
    requires
        all_digits(s),
        0 <= k <= s.len(),
    ensures
        0 <= digits_value(s.take(k)) <= digits_value(s),
    decreases s.len() - k,
{
    lemma_digits_value_nonnegative(s.take(k));
    if k == s.len() {
        assert(s.take(k) =~= s);
    } else {
        lemma_digits_prefix_le(s, k + 1);
        assert(s.take(k + 1).drop_last() =~= s.take(k));
    }
}

fn digit_of(c: char) -> (d: Option<u8>)
    ensures
        d is Some <==> is_digit(c),
        d matches Some(v) ==> v == digit_value(c),
{
    let code: u32 = c as u32;
    if 0x30 <= code && code <= 0x39 {
        Some((code - 0x30) as u8)
    } else {
        None
    }
}

/// Reads `text` as a 128-bit signed integer.
///
/// Returns the number when `text` is an optional sign followed by one or
/// more ASCII digits whose value fits in 128 bits, and `None` for any other
/// text.
pub fn parse_i128(text: &Vec<char>) -> (r: Option<i128>)
    ensures
        r == i128_of_text(text@),
{
    let n = text.len();
    if n == 0 {
        return None;
    }
    let negative = text[0] == '-';
    let start: usize = if text[0] == '-' || text[0] == '+' {
        1
    } else {
        0
    };
    if start == n {
        return None;
    }
    let ghost digits = digits_part(text@);
    assert(digits =~= text@.subrange(start as int, n as int));
    let mut acc: i128 = 0;
    let mut i: usize = start;
    while i < n
        invariant
            start <= i <= n,
            n == text.len(),
            digits == digits_part(text@),
            digits == text@.subrange(start as int, n as int),
            negative <==> text@[0] == '-',
            all_digits(digits.take(i - start)),
            negative ==> acc == -digits_value(digits.take(i - start)),
            !negative ==> acc == digits_value(digits.take(i - start)),
        decreases n - i,
    {
        let ghost before = digits.take(i - start);
        let ghost after = digits.take(i - start + 1);
        proof {
            assert(after.drop_last() =~= before);
            assert(after.last() == text[i as int]);
            lemma_digits_value_nonnegative(before);
        }
        let d: i128 = match digit_of(text[i]) {
            Some(d) => d as i128,
            None => {
                assert(!is_digit(digits[i - start]));
                return None;
            },
        };
        assert(all_digits(after)) by {
            assert forall|j: int| 0 <= j < after.len() implies is_digit(#[trigger] after[j]) by {
                if j < before.len() {
                    assert(after[j] == before[j]);
                }
            }
        }
        let next = if negative {
            if acc < (i128::MIN + d) / 10 {
                None
            } else {
                Some(acc * 10 - d)
            }
        } else {
            if acc > (i128::MAX - d) / 10 {
                None
            } else {
                Some(acc * 10 + d)
            }
        };
        match next {
            Some(v) => {
                acc = v;
            },
            None => {
                proof {
                    if all_digits(digits) {
                        lemma_digits_prefix_le(digits, i - start + 1);
                    }
                }
                return None;
            },
        }
        i += 1;
    }
    assert(digits.take(i - start) =~= digits);
    Some(acc)
}

/// Reads `text` as a 64-bit signed integer.
///
/// Returns the number when `text` is an optional sign followed by one or
/// more ASCII digits whose value fits in 64 bits, and `None` for any other
/// text.
pub fn parse_i64(text: &Vec<char>) -> (r: Option<i64>)
    ensures
        r == i64_of_text(text@),
{
    match parse_i128(text) {
        Some(v) => {
            if -0x8000_0000_0000_0000 <= v && v <= 0x7fff_ffff_ffff_ffff {
                Some(v as i64)
            } else {
                None
            }
        },
        None => None,
    }
}

} // verus!
