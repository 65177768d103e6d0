//! Decimal numerals, as GPX carries them in `lat`/`lon` attributes and `ele`
//! elements, read into fixed-point integers scaled by 10^9.
//!
//! The accepted shape is an optional sign, then digits with at most one
//! decimal point and at least one digit on one side of it ("45", "-122.5",
//! ".5"). At most nine significant integer digits are accepted (a coordinate
//! or elevation never has more); fraction digits beyond the ninth are
//! truncated.

use vstd::prelude::*;

use crate::chars::B_0;
use crate::chars::B_9;
use crate::chars::B_DOT;
use crate::chars::B_MINUS;
use crate::chars::B_PLUS;

verus! {

pub open spec fn is_digit(c: u8) -> bool {
    B_0 <= c <= B_9
}

/// First position at or after `i` that does not hold a digit (clamped to the
/// end of `s`).
pub open spec fn digits_end(s: Seq<u8>, i: int) -> int
    decreases s.len() - i,
{
    if 0 <= i < s.len() && is_digit(s[i]) {
        digits_end(s, i + 1)
    } else {
        i
    }
}

/// Numeric value of the digit run `s[a..b)`.
pub open spec fn digits_val(s: Seq<u8>, a: int, b: int) -> int
    decreases b - a,
{
    if a < b {
        digits_val(s, a, b - 1) * 10 + (s[b - 1] - B_0)
    } else {
        0
    }
}

/// First position in `[i, e)` that does not hold a zero digit.
pub open spec fn zeros_end(s: Seq<u8>, i: int, e: int) -> int
    decreases e - i,
{
    if 0 <= i < s.len() && i < e && s[i] == B_0 {
        zeros_end(s, i + 1, e)
    } else {
        i
    }
}

pub open spec fn pow10(k: nat) -> int
    decreases k,
{
    if k == 0 {
        1
    } else {
        10 * pow10((k - 1) as nat)
    }
}

/// The value of the numeral `s`, scaled by 10^9, or `None` if `s` is not a
/// decimal numeral this library accepts.
pub open spec fn spec_decimal(s: Seq<u8>) -> Option<int> {
    if s.len() == 0 {
        None
    } else {
        let sign: int = if s[0] == B_MINUS {
            -1
        } else {
            1
        };
        let i0: int = if s[0] == B_MINUS || s[0] == B_PLUS {
            1
        } else {
            0
        };
        let ie = digits_end(s, i0);
        let zi = zeros_end(s, i0, ie);
        if ie - zi > 9 {
            None
        } else if ie == s.len() {
            if ie > i0 {
                Some(sign * digits_val(s, zi, ie) * 1_000_000_000)
            } else {
                None
            }
        } else if s[ie] == B_DOT {
            let fe = digits_end(s, ie + 1);
            if fe == s.len() && fe > ie + 1 {
                let fcut: int = if fe > ie + 10 {
                    ie + 10
                } else {
                    fe
                };
                let fv = digits_val(s, ie + 1, fcut) * pow10((9 - (fcut - ie - 1)) as nat);
                Some(sign * (digits_val(s, zi, ie) * 1_000_000_000 + fv))
            } else {
                None
            }
        } else {
            None
        }
    }
}

pub proof fn lemma_pow10_concrete()
    ensures
        pow10(0) == 1,
        pow10(1) == 10,
        pow10(2) == 100,
        pow10(3) == 1000,
        pow10(4) == 10000,
        pow10(5) == 100000,
        pow10(6) == 1000000,
        pow10(7) == 10000000,
        pow10(8) == 100000000,
        pow10(9) == 1000000000,
{
    assert(pow10(0) == 1);
    assert(pow10(1) == 10);
    assert(pow10(2) == 100);
    assert(pow10(3) == 1000);
    assert(pow10(4) == 10000);
    assert(pow10(5) == 100000);
    assert(pow10(6) == 1000000);
    assert(pow10(7) == 10000000);
    assert(pow10(8) == 100000000);
    assert(pow10(9) == 1000000000);
}

pub proof fn lemma_digits_val_bound(s: Seq<u8>, a: int, b: int)
    requires
        a <= b,
        forall|j: int| a <= j < b ==> is_digit(s[j]),
    ensures
        0 <= digits_val(s, a, b) < pow10((b - a) as nat),
    decreases b - a,
{
    if a < b {
        lemma_digits_val_bound(s, a, b - 1);
        assert(pow10((b - a) as nat) == 10 * pow10((b - a - 1) as nat));
    }
}

/// Reads the numeral `s` as its fixed-point value, deciding `spec_decimal`.
pub fn parse_decimal(s: &Vec<u8>) -> (r: Option<i64>)
    ensures
        match r {
            Some(x) => spec_decimal(s@) == Some(x as int),
            None => spec_decimal(s@) is None,
        },
{
    let n = s.len();
    if n == 0 {
        return None;
    }
    let c0 = s[0];
    let neg = c0 == B_MINUS;
    let i0: usize = if c0 == B_MINUS || c0 == B_PLUS {
        1
    } else {
        0
    };
    let mut ie: usize = i0;
    while ie < n && B_0 <= s[ie] && s[ie] <= B_9
        invariant
            i0 <= ie <= n,
            n == s@.len(),
            digits_end(s@, i0 as int) == digits_end(s@, ie as int),
            forall|j: int| i0 <= j < ie ==> is_digit(s@[j]),
        decreases n - ie,
    {
        ie = ie + 1;
    }
    proof {
        assert(digits_end(s@, ie as int) == ie as int);
    }
    let mut zi: usize = i0;
    while zi < ie && s[zi] == B_0
        invariant
            i0 <= zi <= ie <= n,
            n == s@.len(),
            zeros_end(s@, i0 as int, ie as int) == zeros_end(s@, zi as int, ie as int),
        decreases ie - zi,
    {
        zi = zi + 1;
    }
    proof {
        assert(zeros_end(s@, zi as int, ie as int) == zi as int);
    }
    if ie - zi > 9 {
        return None;
    }
    let iv = digit_run_val(s, zi, ie);
    proof {
        lemma_pow10_concrete();
        lemma_digits_val_bound(s@, zi as int, ie as int);
    }
    if ie == n {
        if ie > i0 {
            let v: i64 = (iv as i64) * 1_000_000_000;
            proof {
                assert(spec_decimal(s@) == Some(
                    (if s@[0] == B_MINUS { -1int } else { 1int }) * digits_val(s@, zi as int, ie as int)
                        * 1_000_000_000,
                ));
            }
            return Some(if neg { -v } else { v });
        } else {
            return None;
        }
    }
    if s[ie] != B_DOT {
        return None;
    }
    let mut fe: usize = ie + 1;
    while fe < n && B_0 <= s[fe] && s[fe] <= B_9
        invariant
            ie + 1 <= fe <= n,
            n == s@.len(),
            digits_end(s@, (ie + 1) as int) == digits_end(s@, fe as int),
            forall|j: int| ie + 1 <= j < fe ==> is_digit(s@[j]),
        decreases n - fe,
    {
        fe = fe + 1;
    }
    proof {
        assert(digits_end(s@, fe as int) == fe as int);
    }
    if !(fe == n && fe > ie + 1) {
        return None;
    }
    let fcut: usize = if fe - ie > 10 {
        ie + 10
    } else {
        fe
    };
    let fv = digit_run_val(s, ie + 1, fcut);
    let k: usize = fcut - ie - 1;
    let scale = pow10_x((9 - k) as u32);
    proof {
        lemma_pow10_concrete();
        lemma_frac_bound(s@, ie + 1, fcut as int);
    }
    let frac: u64 = fv * scale;
    let v: i64 = (iv as i64) * 1_000_000_000 + (frac as i64);
    Some(if neg { -v } else { v })
}

/// A digit run of at most nine digits, scaled out to nine fractional
/// places, stays below 10^9.
pub proof fn lemma_frac_bound(s: Seq<u8>, a: int, b: int)
    requires
        a <= b,
        b - a <= 9,
        forall|j: int| a <= j < b ==> is_digit(s[j]),
    ensures
        0 <= digits_val(s, a, b) * pow10((9 - (b - a)) as nat) < 1_000_000_000,
{
    lemma_digits_val_bound(s, a, b);
    lemma_pow10_pos((9 - (b - a)) as nat);
    lemma_pow10_mul((b - a) as nat, (9 - (b - a)) as nat);
    lemma_pow10_concrete();
    let dv = digits_val(s, a, b);
    let sc = pow10((9 - (b - a)) as nat);
    assert(dv * sc <= (pow10((b - a) as nat) - 1) * sc) by (nonlinear_arith)
        requires
            dv <= pow10((b - a) as nat) - 1,
            sc >= 0,
    ;
    assert((pow10((b - a) as nat) - 1) * sc == pow10((b - a) as nat) * sc - sc)
        by (nonlinear_arith);
    assert(dv * sc >= 0) by (nonlinear_arith)
        requires
            dv >= 0,
            sc >= 0,
    ;
}

pub proof fn lemma_pow10_mul(a: nat, b: nat)
    ensures
        pow10(a) * pow10(b) == pow10(a + b),
    decreases a,
{
    if a == 0 {
    } else {
        lemma_pow10_mul((a - 1) as nat, b);
        assert(pow10(a) * pow10(b) == 10 * (pow10((a - 1) as nat) * pow10(b)))
            by (nonlinear_arith)
            requires
                pow10(a) == 10 * pow10((a - 1) as nat),
        ;
    }
}

pub proof fn lemma_pow10_pos(a: nat)
    ensures
        pow10(a) >= 1,
    decreases a,
{
    if a > 0 {
        lemma_pow10_pos((a - 1) as nat);
    }
}

pub(crate) fn pow10_x(k: u32) -> (r: u64)
    requires
        k <= 9,
    ensures
        r as int == pow10(k as nat),
{
    proof {
        lemma_pow10_concrete();
    }
    if k == 0 {
        1
    } else if k == 1 {
        10
    } else if k == 2 {
        100
    } else if k == 3 {
        1000
    } else if k == 4 {
        10000
    } else if k == 5 {
        100000
    } else if k == 6 {
        1000000
    } else if k == 7 {
        10000000
    } else if k == 8 {
        100000000
    } else {
        1000000000
    }
}

/// Value of the digit run `s[a..b)`, which must be at most nine digits long.
pub(crate) fn digit_run_val(s: &Vec<u8>, a: usize, b: usize) -> (r: u64)
    requires
        a <= b <= s@.len(),
        b - a <= 9,
        forall|j: int| a <= j < b ==> is_digit(s@[j]),
    ensures
        r == digits_val(s@, a as int, b as int),
        r < 1_000_000_000,
{
    let mut j: usize = a;
    let mut acc: u64 = 0;
    proof {
        lemma_pow10_concrete();
    }
    while j < b
        invariant
            a <= j <= b <= s@.len(),
            b - a <= 9,
            forall|jj: int| a <= jj < b ==> is_digit(s@[jj]),
            acc == digits_val(s@, a as int, j as int),
            acc < pow10((j - a) as nat),
            pow10(9) == 1_000_000_000,
        decreases b - j,
    {
        proof {
            assert(pow10((j + 1 - a) as nat) == 10 * pow10((j - a) as nat));
            lemma_pow10_le((j + 1 - a) as nat, 9);
        }
        acc = acc * 10 + ((s[j] - B_0) as u64);
        j = j + 1;
    }
    proof {
        lemma_pow10_le((b - a) as nat, 9);
    }
    acc
}

pub proof fn lemma_pow10_le(a: nat, b: nat)
    requires
        a <= b,
    ensures
        pow10(a) <= pow10(b),
    decreases b,
{
    if a < b {
        lemma_pow10_le(a, (b - 1) as nat);
        lemma_pow10_pos((b - 1) as nat);
    }
}

} // verus!
