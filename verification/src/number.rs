//! Decimal integers as `i8::from_str` reads them.

use vstd::prelude::*;
use crate::text::chars_of;

verus! {

/// An ASCII decimal digit.
pub open spec fn is_digit(c: char) -> bool {
    48 <= (c as u32) <= 57
}

/// The value of a decimal digit.
pub open spec fn digit_value(c: char) -> int {
    (c as u32) - 48
}

/// Every character of `s` is a decimal digit.
pub open spec fn all_digits(s: Seq<char>) -> bool {
    forall|i: int| 0 <= i < s.len() ==> is_digit(#[trigger] s[i])
}

/// The value of the decimal numeral `s` (most significant digit first).
pub open spec fn decimal(s: Seq<char>) -> int
    decreases s.len(),
{
    if s.len() == 0 {
        0
    } else {
        decimal(s.drop_last()) * 10 + digit_value(s.last())
    }
}

/// What `i8::from_str` gives: an optional `+` or `-`, then at least one
/// decimal digit and nothing else, denoting a value in `-128..=127`.
pub open spec fn i8_of(s: Seq<char>) -> Option<i8> {
    if s.len() == 0 {
        None
    } else {
        let signed = s[0] == '+' || s[0] == '-';
        let digits = if signed { s.skip(1) } else { s };
        if digits.len() == 0 || !all_digits(digits) {
            None
        } else {
            let v = if s[0] == '-' { -decimal(digits) } else { decimal(digits) };
            if -128 <= v <= 127 {
                Some(v as i8)
            } else {
                None
            }
        }
    }
}

/// What `u64::from_str` gives: an optional `+`, then at least one decimal
/// digit and nothing else, denoting a value below 2^64.
pub open spec fn u64_of(s: Seq<char>) -> Option<u64> {
    if s.len() == 0 {
        None
    } else {
        let digits = if s[0] == '+' { s.skip(1) } else { s };
        if digits.len() == 0 || !all_digits(digits) {
            None
        } else if decimal(digits) <= u64::MAX {
            Some(decimal(digits) as u64)
        } else {
            None
        }
    }
}

/// Parses `s` as `i8::from_str` does; `None` where it returns an error.
pub fn parse_i8(s: &str) -> (r: Option<i8>)
    ensures
        r == i8_of(s@),
{
    let cs = chars_of(s);
    let n = cs.len();
    if n == 0 {
        return None;
    }
    let first = cs[0];
    let negative = first == '-';
    let start: usize = if first == '+' || first == '-' { 1 } else { 0 };
    let ghost digits = if start == 1 { s@.skip(1) } else { s@ };
    assert(digits =~= cs@.subrange(start as int, n as int));
    if start == n {
        return None;
    }
    let mut v: u32 = 0;
    let mut big = false;
    let mut i = start;
    while i < n
        invariant
            start <= i <= n,
            n == cs@.len(),
            cs@ == s@,
            start == 0 || start == 1,
            s@.len() > 0,
            (start == 1) == (s@[0] == '+' || s@[0] == '-'),
            negative == (s@[0] == '-'),
            digits == cs@.subrange(start as int, n as int),
            digits == (if start == 1 { s@.skip(1) } else { s@ }),
            all_digits(cs@.subrange(start as int, i as int)),
            !big ==> v as int == decimal(cs@.subrange(start as int, i as int)) && v <= 128,
            big ==> decimal(cs@.subrange(start as int, i as int)) > 128,
        decreases n - i,
    {
        let c = cs[i];
        let u = c as u32;
        let ghost prev = cs@.subrange(start as int, i as int);
        let ghost next = cs@.subrange(start as int, i + 1);
        assert(next.drop_last() =~= prev);
        if u < 48 || u > 57 {
            assert(digits[i - start] == c);
            assert(!is_digit(digits[i - start]));
            assert(!all_digits(digits));
            return None;
        }
        assert(all_digits(next)) by {
            assert forall|j: int| 0 <= j < next.len() implies is_digit(#[trigger] next[j]) by {
                if j < prev.len() {
                    assert(next[j] == prev[j]);
                }
            }
        }
        if !big {
            let w = v * 10 + (u - 48);
            if w > 128 {
                big = true;
            } else {
                v = w;
            }
        }
        i = i + 1;
    }
    assert(cs@.subrange(start as int, n as int) =~= digits);
    if big {
        return None;
    }
    if negative {
        if v == 128 {
            Some(-128i8)
        } else {
            let m = v as i8;
            Some(-m)
        }
    } else {
        if v > 127 {
            None
        } else {
            Some(v as i8)
        }
    }
}

} // verus!
