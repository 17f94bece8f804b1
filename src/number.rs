//! The textual form of a number, as it appears in collected output.
//!
//! A number is an optional sign, decimal digits with at most one decimal
//! point (at least one digit in all), and an optional exponent
//! (`e` or `E`, an optional sign, one or more digits).

use vstd::prelude::*;

verus! {

pub open spec fn is_digit(c: char) -> bool {
    '0' <= c && c <= '9'
}

pub open spec fn is_sign(c: char) -> bool {
    c == '+' || c == '-'
}

/// The number of consecutive digits in `s` starting at `i`.
pub open spec fn digits_from(s: Seq<char>, i: int) -> int
    decreases s.len() - i,
{
    if 0 <= i < s.len() && is_digit(s[i]) {
        1 + digits_from(s, i + 1)
    } else {
        0
    }
}

/// 1 when `s` holds a sign at `i`, else 0.
pub open spec fn sign_at(s: Seq<char>, i: int) -> int {
    if 0 <= i < s.len() && is_sign(s[i]) {
        1
    } else {
        0
    }
}

/// Whether `s[q..]` is an exponent: `e` or `E`, an optional sign, digits.
pub open spec fn is_exponent_from(s: Seq<char>, q: int) -> bool {
    &&& 0 <= q < s.len()
    &&& (s[q] == 'e' || s[q] == 'E')
    &&& digits_from(s, q + 1 + sign_at(s, q + 1)) > 0
    &&& q + 1 + sign_at(s, q + 1) + digits_from(s, q + 1 + sign_at(s, q + 1)) == s.len()
}

/// Where the digits and the decimal point of `s` end.
pub open spec fn mantissa_end(s: Seq<char>) -> int {
    let p: int = sign_at(s, 0) + digits_from(s, sign_at(s, 0) as int);
    if p < s.len() && s[p] == '.' {
        p + 1 + digits_from(s, p + 1)
    } else {
        p
    }
}

/// Whether `s` is the text of a number.
pub open spec fn is_number(s: Seq<char>) -> bool {
    let p: int = sign_at(s, 0) + digits_from(s, sign_at(s, 0) as int);
    let q = mantissa_end(s);
    &&& (digits_from(s, sign_at(s, 0) as int) > 0 || q > p + 1)
    &&& (q == s.len() || is_exponent_from(s, q))
}

/// How many digits `v` holds from `i` on.
fn digits_len(v: &Vec<char>, i: usize) -> (r: usize)
    requires
        i <= v.len(),
    ensures
        r == digits_from(v@, i as int),
        i + r <= v.len(),
{
    let mut k: usize = i;
    while k < v.len() && '0' <= v[k] && v[k] <= '9'
        invariant
            i <= k <= v.len(),
            digits_from(v@, i as int) == (k - i) + digits_from(v@, k as int),
        decreases v.len() - k,
    {
        k = k + 1;
    }
    k - i
}

fn sign_len(v: &Vec<char>, i: usize) -> (r: usize)
    requires
        i <= v.len(),
    ensures
        r == sign_at(v@, i as int),
{
    if i < v.len() && (v[i] == '+' || v[i] == '-') {
        1
    } else {
        0
    }
}

/// Whether `v` is the text of a number.
pub fn is_number_text(v: &Vec<char>) -> (r: bool)
    ensures
        r == is_number(v@),
{
    let n = v.len();
    let s0 = sign_len(v, 0);
    let d1 = digits_len(v, s0);
    let p = s0 + d1;
    let q = if p < n && v[p] == '.' {
        p + 1 + digits_len(v, p + 1)
    } else {
        p
    };
    if !(d1 > 0 || q > p + 1) {
        return false;
    }
    if q == n {
        return true;
    }
    if !(v[q] == 'e' || v[q] == 'E') {
        return false;
    }
    let s1 = sign_len(v, q + 1);
    let d3 = digits_len(v, q + 1 + s1);
    d3 > 0 && q + 1 + s1 + d3 == n
}

} // verus!
