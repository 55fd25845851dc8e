//! Numeric tokens of the ASCII encoding.
//!
//! A numeric token is a decimal literal: an optional sign, one or more
//! digits, an optional fraction, an optional exponent.  The decoder
//! validates this shape; turning a validated token into an IEEE-754
//! single-precision bit pattern is numeric work that the caller performs,
//! handing the finished words back to [`crate::STL::from_words`].

use vstd::prelude::*;

verus! {

/// An ASCII decimal digit.
pub open spec fn is_digit(b: u8) -> bool {
    48 <= b <= 57
}

/// An ASCII sign character, `+` or `-`.
pub open spec fn is_sign(b: u8) -> bool {
    b == 43 || b == 45
}

/// The first position at or after `i` that does not hold a digit
/// (or the end of the sequence).
pub open spec fn digits_end(s: Seq<u8>, i: int) -> int
    decreases s.len() - i,
{
    if 0 <= i < s.len() && is_digit(s[i]) {
        digits_end(s, i + 1)
    } else {
        i
    }
}

/// Position after the optional fraction part starting at `i`
/// (`.` followed by one or more digits), or `-1` if a lone `.` stands there.
pub open spec fn frac_end(s: Seq<u8>, i: int) -> int {
    if 0 <= i < s.len() && s[i] == 46 {
        let j = digits_end(s, i + 1);
        if j > i + 1 {
            j
        } else {
            -1
        }
    } else {
        i
    }
}

/// Position after the optional exponent part starting at `i`
/// (`e` or `E`, an optional sign, one or more digits), `-1` on a malformed
/// exponent, and `i` handed through unchanged when it is already `-1`.
pub open spec fn exp_end(s: Seq<u8>, i: int) -> int {
    if i < 0 {
        -1
    } else if i < s.len() && (s[i] == 101 || s[i] == 69) {
        let k = if i + 1 < s.len() && is_sign(s[i + 1]) {
            i + 2
        } else {
            i + 1
        };
        let j = digits_end(s, k);
        if j > k {
            j
        } else {
            -1
        }
    } else {
        i
    }
}

/// The shape of a numeric token: an optional sign, at least one integer
/// digit, an optional `.`-fraction with at least one digit, an optional
/// exponent with at least one digit — and nothing after it.
pub open spec fn is_float_token(s: Seq<u8>) -> bool {
    let i0: int = if s.len() > 0 && is_sign(s[0]) {
        1
    } else {
        0
    };
    let i1 = digits_end(s, i0);
    let i2 = frac_end(s, i1);
    let i3 = exp_end(s, i2);
    i1 > i0 && i3 == s.len()
}

/// `digits_end` never moves backwards and never passes the end.
pub proof fn lemma_digits_end_bounds(s: Seq<u8>, i: int)
    requires
        0 <= i <= s.len(),
    ensures
        i <= digits_end(s, i) <= s.len(),
    decreases s.len() - i,
{
    if i < s.len() && is_digit(s[i]) {
        lemma_digits_end_bounds(s, i + 1);
    }
}

/// Scans the digit run that starts at `i`.
pub(crate) fn digits_end_exec(s: &[u8], i: usize) -> (r: usize)
    requires
        i <= s@.len(),
    ensures
        r == digits_end(s@, i as int),
        i <= r <= s@.len(),
{
    let mut k = i;
    loop
        invariant
            i <= k <= s@.len(),
            digits_end(s@, i as int) == digits_end(s@, k as int),
        decreases s@.len() - k,
    {
        if k < s.len() && 48 <= s[k] && s[k] <= 57 {
            k = k + 1;
        } else {
            proof {
                lemma_digits_end_bounds(s@, k as int);
            }
            return k;
        }
    }
}

/// Decides [`is_float_token`] for a byte slice.
pub fn is_float_token_exec(s: &[u8]) -> (b: bool)
    ensures
        b == is_float_token(s@),
{
    let n = s.len();
    let i0: usize = if n > 0 && (s[0] == 43 || s[0] == 45) {
        1
    } else {
        0
    };
    let i1 = digits_end_exec(s, i0);
    if i1 == i0 {
        return false;
    }
    let i2: usize = if i1 < n && s[i1] == 46 {
        let j = digits_end_exec(s, i1 + 1);
        if j > i1 + 1 {
            j
        } else {
            return false;
        }
    } else {
        i1
    };
    let i3: usize = if i2 < n && (s[i2] == 101 || s[i2] == 69) {
        let k: usize = if i2 + 1 < n && (s[i2 + 1] == 43 || s[i2 + 1] == 45) {
            i2 + 2
        } else {
            i2 + 1
        };
        let j = digits_end_exec(s, k);
        if j > k {
            j
        } else {
            return false;
        }
    } else {
        i2
    };
    i3 == n
}

} // verus!
