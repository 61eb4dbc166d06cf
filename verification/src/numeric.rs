//! Which texts read as a number. The grammar is that of Rust's own reading of
//! a floating-point number from a string: an optional sign, then `inf`,
//! `infinity` or `nan` in any case, or digits with at most one point among
//! them and an optional exponent.

use vstd::prelude::*;
use vstd::string::*;
use crate::decimal::{digit_of, is_digit};
use crate::text::{chars_of, drop_prefix, lowered, same_text, to_lower};

verus! {

/// A plus or minus sign.
pub open spec fn is_sign(c: char) -> bool {
    c == '+' || c == '-'
}

/// `s` without the sign in front of it, if there is one.
pub open spec fn unsigned(s: Seq<char>) -> Seq<char> {
    if s.len() > 0 && is_sign(s[0]) {
        s.subrange(1, s.len() as int)
    } else {
        s
    }
}

/// The place of the first character of `s`, at `from` or after it, that is
/// no digit.
pub open spec fn digits_end(s: Seq<char>, from: int) -> int
    decreases s.len() - from,
{
    if 0 <= from < s.len() && is_digit(s[from]) {
        digits_end(s, from + 1)
    } else {
        from
    }
}

/// From place `e` to its end, `s` is an exponent: `e` or `E`, an optional
/// sign, one digit or more.
pub open spec fn is_exponent_at(s: Seq<char>, e: int) -> bool {
    &&& 0 <= e < s.len()
    &&& (s[e] == 'e' || s[e] == 'E')
    &&& {
        let c = if e + 1 < s.len() && is_sign(s[e + 1]) {
            e + 2
        } else {
            e + 1
        };
        digits_end(s, c) > c && digits_end(s, c) == s.len()
    }
}

/// `s` is a decimal number: digits with at most one point among them, at
/// least one digit in all, then an optional exponent.
pub open spec fn is_decimal_number(s: Seq<char>) -> bool {
    let a = digits_end(s, 0);
    let pointed = a < s.len() && s[a] == '.';
    let b = if pointed {
        digits_end(s, a + 1)
    } else {
        a
    };
    let digits = if pointed {
        b - 1
    } else {
        b
    };
    digits > 0 && (b == s.len() || is_exponent_at(s, b))
}

/// `s` names infinity or not-a-number, in any case.
pub open spec fn is_special_number(s: Seq<char>) -> bool {
    lowered(s) == "inf"@ || lowered(s) == "infinity"@ || lowered(s) == "nan"@
}

/// `s` reads as a number.
pub open spec fn is_float_text(s: Seq<char>) -> bool {
    is_special_number(unsigned(s)) || is_decimal_number(unsigned(s))
}

/// The place of the first character of `v`, at `from` or after it, that is no
/// digit.
fn skip_digits(v: &Vec<char>, from: usize) -> (r: usize)
    requires
        from <= v.len(),
    ensures
        r == digits_end(v@, from as int),
        from <= r <= v.len(),
{
    let mut i: usize = from;
    while i < v.len() && digit_of(v[i]).is_some()
        invariant
            from <= i <= v.len(),
            digits_end(v@, from as int) == digits_end(v@, i as int),
        decreases v.len() - i,
    {
        i = i + 1;
    }
    i
}

/// Is `v` a decimal number?
fn reads_as_decimal(v: &Vec<char>) -> (r: bool)
    ensures
        r == is_decimal_number(v@),
{
    let n = v.len();
    let a = skip_digits(v, 0);
    let pointed = a < n && v[a] == '.';
    let b = if pointed {
        skip_digits(v, a + 1)
    } else {
        a
    };
    let digits = if pointed {
        b - 1
    } else {
        b
    };
    if digits == 0 {
        return false;
    }
    if b == n {
        return true;
    }
    if !(v[b] == 'e' || v[b] == 'E') {
        return false;
    }
    let c = if b + 1 < n && (v[b + 1] == '+' || v[b + 1] == '-') {
        b + 2
    } else {
        b + 1
    };
    let d = skip_digits(v, c);
    d > c && d == n
}

/// Does `s` read as a number?
pub fn reads_as_number(s: &str) -> (r: bool)
    ensures
        r == is_float_text(s@),
{
    let v = chars_of(s);
    let body = if v.len() > 0 && (v[0] == '+' || v[0] == '-') {
        drop_prefix(s, 1)
    } else {
        String::from_str(s)
    };
    let low = to_lower(body.as_str());
    if same_text(low.as_str(), "inf") || same_text(low.as_str(), "infinity") || same_text(
        low.as_str(),
        "nan",
    ) {
        return true;
    }
    let w = chars_of(body.as_str());
    reads_as_decimal(&w)
}

} // verus!
