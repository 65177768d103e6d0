//! UTF-8 validation of the uploaded bytes.
//!
//! `spec_utf8_from` is the mathematical statement of UTF-8 well-formedness
//! (including the rejection of overlong forms, surrogate code points and
//! values above U+10FFFF), and `utf8_ok` decides it.

use vstd::prelude::*;

verus! {

/// A UTF-8 continuation byte: `10xxxxxx`.
pub open spec fn is_cont(c: u8) -> bool {
    0x80 <= c <= 0xBF
}

/// The bytes of `s` from position `i` on form a valid UTF-8 sequence.
pub open spec fn spec_utf8_from(s: Seq<u8>, i: int) -> bool
    decreases s.len() - i,
{
    if !(0 <= i < s.len()) {
        true
    } else {
        let b0 = s[i];
        if b0 < 0x80 {
            spec_utf8_from(s, i + 1)
        } else if 0xC2 <= b0 <= 0xDF {
            i + 1 < s.len() && is_cont(s[i + 1]) && spec_utf8_from(s, i + 2)
        } else if b0 == 0xE0 {
            i + 2 < s.len() && 0xA0 <= s[i + 1] <= 0xBF && is_cont(s[i + 2]) && spec_utf8_from(
                s,
                i + 3,
            )
        } else if (0xE1 <= b0 <= 0xEC) || b0 == 0xEE || b0 == 0xEF {
            i + 2 < s.len() && is_cont(s[i + 1]) && is_cont(s[i + 2]) && spec_utf8_from(s, i + 3)
        } else if b0 == 0xED {
            i + 2 < s.len() && 0x80 <= s[i + 1] <= 0x9F && is_cont(s[i + 2]) && spec_utf8_from(
                s,
                i + 3,
            )
        } else if b0 == 0xF0 {
            i + 3 < s.len() && 0x90 <= s[i + 1] <= 0xBF && is_cont(s[i + 2]) && is_cont(s[i + 3])
                && spec_utf8_from(s, i + 4)
        } else if 0xF1 <= b0 <= 0xF3 {
            i + 3 < s.len() && is_cont(s[i + 1]) && is_cont(s[i + 2]) && is_cont(s[i + 3])
                && spec_utf8_from(s, i + 4)
        } else if b0 == 0xF4 {
            i + 3 < s.len() && 0x80 <= s[i + 1] <= 0x8F && is_cont(s[i + 2]) && is_cont(s[i + 3])
                && spec_utf8_from(s, i + 4)
        } else {
            false
        }
    }
}

/// Decides whether `s` is valid UTF-8.
pub fn utf8_ok(s: &[u8]) -> (r: bool)
    ensures
        r == spec_utf8_from(s@, 0),
{
    let n = s.len();
    let mut i: usize = 0;
    loop
        invariant
            i <= n,
            n == s@.len(),
            spec_utf8_from(s@, 0) == spec_utf8_from(s@, i as int),
        decreases n - i,
    {
        if i >= n {
            return true;
        }
        let b0 = s[i];
        if b0 < 0x80 {
            i = i + 1;
        } else if 0xC2 <= b0 && b0 <= 0xDF {
            if n - i >= 2 && is_cont_x(s[i + 1]) {
                i = i + 2;
            } else {
                return false;
            }
        } else if b0 == 0xE0 {
            if n - i >= 3 && 0xA0 <= s[i + 1] && s[i + 1] <= 0xBF && is_cont_x(s[i + 2]) {
                i = i + 3;
            } else {
                return false;
            }
        } else if (0xE1 <= b0 && b0 <= 0xEC) || b0 == 0xEE || b0 == 0xEF {
            if n - i >= 3 && is_cont_x(s[i + 1]) && is_cont_x(s[i + 2]) {
                i = i + 3;
            } else {
                return false;
            }
        } else if b0 == 0xED {
            if n - i >= 3 && 0x80 <= s[i + 1] && s[i + 1] <= 0x9F && is_cont_x(s[i + 2]) {
                i = i + 3;
            } else {
                return false;
            }
        } else if b0 == 0xF0 {
            if n - i >= 4 && 0x90 <= s[i + 1] && s[i + 1] <= 0xBF && is_cont_x(s[i + 2])
                && is_cont_x(s[i + 3]) {
                i = i + 4;
            } else {
                return false;
            }
        } else if 0xF1 <= b0 && b0 <= 0xF3 {
            if n - i >= 4 && is_cont_x(s[i + 1]) && is_cont_x(s[i + 2]) && is_cont_x(s[i + 3]) {
                i = i + 4;
            } else {
                return false;
            }
        } else if b0 == 0xF4 {
            if n - i >= 4 && 0x80 <= s[i + 1] && s[i + 1] <= 0x8F && is_cont_x(s[i + 2])
                && is_cont_x(s[i + 3]) {
                i = i + 4;
            } else {
                return false;
            }
        } else {
            return false;
        }
    }
}

fn is_cont_x(c: u8) -> (r: bool)
    ensures
        r == is_cont(c),
{
    0x80 <= c && c <= 0xBF
}

} // verus!
