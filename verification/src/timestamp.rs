//! Date-times as GPX carries them in `time` elements: a calendar date and a
//! time of day, an optional fraction of a second, and an optional UTC
//! designator or offset ("2023-01-02T03:04:05.5Z", "2023-01-02T03:04:05+02:00").
//!
//! Fields are range-checked (months 1..=12, days against the month and leap
//! year, hours to 23, minutes and seconds to 59, offset hours to 23);
//! fraction digits beyond the ninth are truncated.

use vstd::prelude::*;

use crate::chars::B_COLON;
use crate::chars::B_DOT;
use crate::chars::B_MINUS;
use crate::chars::B_PLUS;
use crate::chars::B_UP_T;
use crate::chars::B_UP_Z;
use crate::chars::B_0;
use crate::chars::B_9;
use crate::decimal::digits_end;
use crate::decimal::digits_val;
use crate::decimal::is_digit;
use crate::decimal::lemma_digits_val_bound;
use crate::decimal::lemma_frac_bound;
use crate::decimal::lemma_pow10_concrete;
use crate::decimal::pow10;
use crate::model::SpecTimestamp;
use crate::model::Timestamp;

verus! {

pub open spec fn all_digits(s: Seq<u8>, a: int, b: int) -> bool {
    forall|j: int| a <= j < b ==> is_digit(#[trigger] s[j])
}

pub open spec fn spec_leap_year(y: int) -> bool {
    y % 4 == 0 && (y % 100 != 0 || y % 400 == 0)
}

pub open spec fn spec_days_in_month(y: int, m: int) -> int {
    if m == 2 {
        if spec_leap_year(y) {
            29
        } else {
            28
        }
    } else if m == 4 || m == 6 || m == 9 || m == 11 {
        30
    } else {
        31
    }
}

/// The date-time the text `s` denotes, or `None` if `s` is not a well-formed
/// date-time.
pub open spec fn spec_timestamp(s: Seq<u8>) -> Option<SpecTimestamp> {
    if s.len() < 19 {
        None
    } else if !(all_digits(s, 0, 4) && s[4] == B_MINUS && all_digits(s, 5, 7) && s[7] == B_MINUS
        && all_digits(s, 8, 10) && s[10] == B_UP_T && all_digits(s, 11, 13) && s[13] == B_COLON
        && all_digits(s, 14, 16) && s[16] == B_COLON && all_digits(s, 17, 19)) {
        None
    } else {
        let year = digits_val(s, 0, 4);
        let month = digits_val(s, 5, 7);
        let day = digits_val(s, 8, 10);
        let hour = digits_val(s, 11, 13);
        let minute = digits_val(s, 14, 16);
        let second = digits_val(s, 17, 19);
        if !(1 <= month <= 12 && 1 <= day && day <= spec_days_in_month(year, month) && hour <= 23
            && minute <= 59 && second <= 59) {
            None
        } else if s.len() > 19 && s[19] == B_DOT && digits_end(s, 20) == 20 {
            None
        } else {
            let fe: int = if s.len() > 19 && s[19] == B_DOT {
                digits_end(s, 20)
            } else {
                19
            };
            let fcut: int = if fe > 29 {
                29
            } else {
                fe
            };
            let nanos: int = if fe > 19 {
                digits_val(s, 20, fcut) * pow10((9 - (fcut - 20)) as nat)
            } else {
                0
            };
            if fe == s.len() {
                Some(
                    SpecTimestamp {
                        year,
                        month,
                        day,
                        hour,
                        minute,
                        second,
                        nanos,
                        offset_minutes: None,
                    },
                )
            } else if s[fe] == B_UP_Z && fe + 1 == s.len() {
                Some(
                    SpecTimestamp {
                        year,
                        month,
                        day,
                        hour,
                        minute,
                        second,
                        nanos,
                        offset_minutes: Some(0),
                    },
                )
            } else if (s[fe] == B_PLUS || s[fe] == B_MINUS) && fe + 6 == s.len() && all_digits(
                s,
                fe + 1,
                fe + 3,
            ) && s[fe + 3] == B_COLON && all_digits(s, fe + 4, fe + 6) {
                let oh = digits_val(s, fe + 1, fe + 3);
                let om = digits_val(s, fe + 4, fe + 6);
                if oh <= 23 && om <= 59 {
                    Some(
                        SpecTimestamp {
                            year,
                            month,
                            day,
                            hour,
                            minute,
                            second,
                            nanos,
                            offset_minutes: Some(
                                if s[fe] == B_MINUS {
                                    -(oh * 60 + om)
                                } else {
                                    oh * 60 + om
                                },
                            ),
                        },
                    )
                } else {
                    None
                }
            } else {
                None
            }
        }
    }
}

fn all_digits_x(s: &Vec<u8>, a: usize, b: usize) -> (r: bool)
    requires
        a <= b <= s@.len(),
    ensures
        r == all_digits(s@, a as int, b as int),
{
    let mut j: usize = a;
    while j < b
        invariant
            a <= j <= b <= s@.len(),
            forall|jj: int| a <= jj < j ==> is_digit(#[trigger] s@[jj]),
        decreases b - j,
    {
        if !(B_0 <= s[j] && s[j] <= B_9) {
            return false;
        }
        j = j + 1;
    }
    true
}

fn days_in_month_x(y: u64, m: u64) -> (r: u64)
    ensures
        r as int == spec_days_in_month(y as int, m as int),
{
    if m == 2 {
        if y % 4 == 0 && (y % 100 != 0 || y % 400 == 0) {
            29
        } else {
            28
        }
    } else if m == 4 || m == 6 || m == 9 || m == 11 {
        30
    } else {
        31
    }
}

/// Reads the text `s` as a date-time, deciding `spec_timestamp`.
pub fn parse_timestamp(s: &Vec<u8>) -> (r: Option<Timestamp>)
    ensures
        match r {
            Some(t) => spec_timestamp(s@) == Some(t@),
            None => spec_timestamp(s@) is None,
        },
{
    let n = s.len();
    if n < 19 {
        return None;
    }
    if !(all_digits_x(s, 0, 4) && s[4] == B_MINUS && all_digits_x(s, 5, 7) && s[7] == B_MINUS
        && all_digits_x(s, 8, 10) && s[10] == B_UP_T && all_digits_x(s, 11, 13) && s[13] == B_COLON
        && all_digits_x(s, 14, 16) && s[16] == B_COLON && all_digits_x(s, 17, 19)) {
        return None;
    }
    proof {
        lemma_pow10_concrete();
        lemma_digits_val_bound(s@, 0, 4);
        lemma_digits_val_bound(s@, 5, 7);
        lemma_digits_val_bound(s@, 8, 10);
        lemma_digits_val_bound(s@, 11, 13);
        lemma_digits_val_bound(s@, 14, 16);
        lemma_digits_val_bound(s@, 17, 19);
    }
    let year = crate::decimal::digit_run_val(s, 0, 4);
    let month = crate::decimal::digit_run_val(s, 5, 7);
    let day = crate::decimal::digit_run_val(s, 8, 10);
    let hour = crate::decimal::digit_run_val(s, 11, 13);
    let minute = crate::decimal::digit_run_val(s, 14, 16);
    let second = crate::decimal::digit_run_val(s, 17, 19);
    if !(1 <= month && month <= 12 && 1 <= day && day <= days_in_month_x(year, month) && hour <= 23
        && minute <= 59 && second <= 59) {
        return None;
    }
    let mut fe: usize = 19;
    let mut nanos: u32 = 0;
    if n > 19 && s[19] == B_DOT {
        fe = 20;
        while fe < n && B_0 <= s[fe] && s[fe] <= B_9
            invariant
                20 <= fe <= n,
                n == s@.len(),
                digits_end(s@, 20) == digits_end(s@, fe as int),
                forall|j: int| 20 <= j < fe ==> is_digit(#[trigger] s@[j]),
            decreases n - fe,
        {
            fe = fe + 1;
        }
        proof {
            assert(digits_end(s@, fe as int) == fe as int);
        }
        if fe == 20 {
            return None;
        }
        let fcut: usize = if fe > 29 {
            29
        } else {
            fe
        };
        let fv = crate::decimal::digit_run_val(s, 20, fcut);
        let scale = crate::decimal::pow10_x((9 - (fcut - 20)) as u32);
        proof {
            lemma_frac_bound(s@, 20, fcut as int);
        }
        nanos = ((fv * scale) as u32);
    }
    let ts = Timestamp {
        year: year as u16,
        month: month as u8,
        day: day as u8,
        hour: hour as u8,
        minute: minute as u8,
        second: second as u8,
        nanos,
        offset_minutes: None,
    };
    if fe == n {
        return Some(ts);
    }
    let c = s[fe];
    if c == B_UP_Z && fe + 1 == n {
        return Some(Timestamp { offset_minutes: Some(0), ..ts });
    }
    if (c == B_PLUS || c == B_MINUS) && n - fe == 6 && all_digits_x(s, fe + 1, fe + 3) && s[fe + 3]
        == B_COLON && all_digits_x(s, fe + 4, fe + 6) {
        proof {
            lemma_digits_val_bound(s@, fe + 1, fe + 3);
            lemma_digits_val_bound(s@, fe + 4, fe + 6);
        }
        let oh = crate::decimal::digit_run_val(s, fe + 1, fe + 3);
        let om = crate::decimal::digit_run_val(s, fe + 4, fe + 6);
        if oh <= 23 && om <= 59 {
            let off: i32 = (oh * 60 + om) as i32;
            let soff: i32 = if c == B_MINUS {
                -off
            } else {
                off
            };
            let out = Timestamp { offset_minutes: Some(soff), ..ts };
            proof {
                assert(off as int == oh * 60 + om);
                assert(spec_timestamp(s@) == Some(out@));
            }
            return Some(out);
        } else {
            return None;
        }
    }
    None
}

} // verus!
