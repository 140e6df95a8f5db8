//! Calendar dates in the proleptic Gregorian calendar, with a day-number
//! conversion that turns a date difference into a whole number of days.

use vstd::prelude::*;

use crate::num::all_digits;
use crate::num::dec_val;
use crate::num::lemma_dec_val_bound;
use crate::num::lemma_pow10_small;
use crate::num::parse_u32;
use vstd::arithmetic::div_mod::lemma_fundamental_div_mod;
use vstd::arithmetic::div_mod::lemma_fundamental_div_mod_converse;

verus! {

/// A calendar date. Valid dates (see [`Date::valid`]) cover the years
/// 0000 through 9999, the range writable as a four-digit year.
#[derive(Clone, Copy, PartialEq, Eq, Structural, Debug)]
pub struct Date {
    pub year: u32,
    pub month: u32,
    pub day: u32,
}

/// A leap year in the Gregorian rule: divisible by 4, except centuries,
/// which must be divisible by 400.
pub open spec fn is_leap_year(y: int) -> bool {
    (y % 4 == 0 && y % 100 != 0) || y % 400 == 0
}

/// Number of days in month `m` of year `y`, for `1 <= m <= 12`.
pub open spec fn days_in_month(y: int, m: int) -> int {
    if m == 2 {
        if is_leap_year(y) {
            29
        } else {
            28
        }
    } else if m == 4 || m == 6 || m == 9 || m == 11 {
        30
    } else {
        31
    }
}

/// A well-formed year/month/day triple.
pub open spec fn valid_ymd(y: int, m: int, d: int) -> bool {
    &&& 0 <= y <= 9999
    &&& 1 <= m <= 12
    &&& 1 <= d <= days_in_month(y, m)
}

impl Date {
    /// The date denotes an existing calendar day within years 0000..=9999.
    pub open spec fn valid(self) -> bool {
        valid_ymd(self.year as int, self.month as int, self.day as int)
    }
}

/// Days elapsed from 1970-01-01 to the given date (negative for earlier
/// dates), by the standard civil-calendar formula: years are counted in
/// 400-year eras of 146097 days, and the day of year is taken in a year
/// that starts in March so that the leap day comes last. The year is
/// shifted by +400 (one era) so every intermediate value is nonnegative
/// on the valid range.
pub open spec fn day_number(y: int, m: int, d: int) -> int {
    let yy = if m <= 2 {
        y + 399
    } else {
        y + 400
    };
    let era = yy / 400;
    let yoe = yy - era * 400;
    let mp = if m >= 3 {
        m - 3
    } else {
        m + 9
    };
    let doy = (153 * mp + 2) / 5 + d - 1;
    let doe = yoe * 365 + yoe / 4 - yoe / 100 + doy;
    era * 146097 + doe - 719468 - 146097
}

/// Day number of a valid date.
pub open spec fn date_day_number(d: Date) -> int {
    day_number(d.year as int, d.month as int, d.day as int)
}

/// Whether `y` is a leap year.
pub fn is_leap_year_exec(y: u32) -> (r: bool)
    ensures
        r == is_leap_year(y as int),
{
    (y % 4 == 0 && y % 100 != 0) || y % 400 == 0
}

/// Number of days in month `m` of year `y`.
pub fn days_in_month_exec(y: u32, m: u32) -> (r: u32)
    requires
        1 <= m <= 12,
    ensures
        r as int == days_in_month(y as int, m as int),
{
    if m == 2 {
        if is_leap_year_exec(y) {
            29
        } else {
            28
        }
    } else if m == 4 || m == 6 || m == 9 || m == 11 {
        30
    } else {
        31
    }
}

impl Date {
    /// Days elapsed from 1970-01-01 to this date.
    pub fn day_number(&self) -> (r: i64)
        requires
            self.valid(),
        ensures
            r as int == date_day_number(*self),
    {
        let y = self.year as u64;
        let m = self.month as u64;
        let d = self.day as u64;
        let yy: u64 = if m <= 2 {
            y + 399
        } else {
            y + 400
        };
        let era: u64 = yy / 400;
        let yoe: u64 = yy - era * 400;
        let mp: u64 = if m >= 3 {
            m - 3
        } else {
            m + 9
        };
        let doy: u64 = (153 * mp + 2) / 5 + d - 1;
        let doe: u64 = (yoe * 365 + yoe / 4 + doy) - yoe / 100;
        let total: u64 = era * 146097 + doe;
        (total as i64) - 865565
    }
}

/// The calendar day after a valid date.
pub open spec fn next_date(d: Date) -> Date {
    if d.day < days_in_month(d.year as int, d.month as int) {
        Date { year: d.year, month: d.month, day: (d.day + 1) as u32 }
    } else if d.month < 12 {
        Date { year: d.year, month: (d.month + 1) as u32, day: 1 }
    } else {
        Date { year: (d.year + 1) as u32, month: 1, day: 1 }
    }
}

/// The numbering starts at zero on 1970-01-01.
pub proof fn lemma_epoch_day_zero()
    ensures
        day_number(1970, 1, 1) == 0,
{
}

/// Rolling the last day of February over to March 1 advances the day
/// number by one: the extra day of the formula's `yoe/4 - yoe/100` terms
/// appears exactly in the leap years of the Gregorian rule.
proof fn lemma_feb_rolls_to_march(y: int)
    requires
        0 <= y <= 9999,
    ensures
        day_number(y, 3, 1) == day_number(y, 2, days_in_month(y, 2)) + 1,
{
    let a = y + 399;
    let era = a / 400;
    let yoe = a - era * 400;
    lemma_fundamental_div_mod(a, 400);
    assert(0 <= yoe < 400);
    if yoe < 399 {
        let b = yoe + 1;
        lemma_fundamental_div_mod_converse(a + 1, 400, era, b);
        assert(y == 400 * (era - 1) + b);
        lemma_fundamental_div_mod(b, 4);
        lemma_fundamental_div_mod(b, 100);
        assert(0 <= b % 4 < 4);
        assert(0 <= b % 100 < 100);
        lemma_fundamental_div_mod_converse(y, 4, 100 * (era - 1) + b / 4, b % 4);
        lemma_fundamental_div_mod_converse(y, 100, 4 * (era - 1) + b / 100, b % 100);
        lemma_fundamental_div_mod_converse(y, 400, era - 1, b);
        if b % 4 == 0 {
            lemma_fundamental_div_mod_converse(yoe, 4, b / 4 - 1, 3);
        } else {
            lemma_fundamental_div_mod_converse(yoe, 4, b / 4, b % 4 - 1);
        }
        if b % 100 == 0 {
            lemma_fundamental_div_mod_converse(b, 4, 25 * (b / 100), 0);
            lemma_fundamental_div_mod_converse(yoe, 100, b / 100 - 1, 99);
        } else {
            lemma_fundamental_div_mod_converse(yoe, 100, b / 100, b % 100 - 1);
        }
        assert(day_number(y, 3, 1) == day_number(y, 2, days_in_month(y, 2)) + 1);
    } else {
        assert(y == 400 * era);
        lemma_fundamental_div_mod_converse(y, 400, era, 0);
        lemma_fundamental_div_mod_converse(y, 4, 100 * era, 0);
        lemma_fundamental_div_mod_converse(y, 100, 4 * era, 0);
        assert(is_leap_year(y));
        lemma_fundamental_div_mod_converse(a + 1, 400, era + 1, 0);
        assert(day_number(y, 3, 1) == day_number(y, 2, days_in_month(y, 2)) + 1);
    }
}

/// The day number counts calendar days one by one: every valid date short
/// of the last one has a valid successor whose day number is one higher.
/// Together with [`lemma_epoch_day_zero`] this pins the whole numbering.
pub proof fn lemma_day_number_counts_days(d: Date)
    requires
        d.valid(),
        !(d.year == 9999 && d.month == 12 && d.day == 31),
    ensures
        next_date(d).valid(),
        date_day_number(next_date(d)) == date_day_number(d) + 1,
{
    let y = d.year as int;
    let m = d.month as int;
    let dd = d.day as int;
    if dd < days_in_month(y, m) {
    } else if m < 12 {
        if m == 2 {
            lemma_feb_rolls_to_march(y);
        }
    } else {
    }
}

/// `s` has the shape `YYYY-MM-DD`: ten characters, digits in the year,
/// month and day positions, `-` between them.
pub open spec fn date_format_ok(s: Seq<char>) -> bool {
    &&& s.len() == 10
    &&& s[4] == '-'
    &&& s[7] == '-'
    &&& all_digits(s.subrange(0, 4))
    &&& all_digits(s.subrange(5, 7))
    &&& all_digits(s.subrange(8, 10))
}

pub open spec fn year_of(s: Seq<char>) -> int {
    dec_val(s.subrange(0, 4))
}

pub open spec fn month_of(s: Seq<char>) -> int {
    dec_val(s.subrange(5, 7))
}

pub open spec fn day_of(s: Seq<char>) -> int {
    dec_val(s.subrange(8, 10))
}

/// The date a string denotes: defined exactly when the string has the
/// `YYYY-MM-DD` shape and the triple is an existing calendar day.
pub open spec fn parse_date_spec(s: Seq<char>) -> Option<Date> {
    if date_format_ok(s) && valid_ymd(year_of(s), month_of(s), day_of(s)) {
        Some(
            Date {
                year: year_of(s) as u32,
                month: month_of(s) as u32,
                day: day_of(s) as u32,
            },
        )
    } else {
        None
    }
}

/// Parse a strict `YYYY-MM-DD` date. Any other length, a misplaced `-`, a
/// non-digit, or a month or day outside the calendar (including a day 29 of
/// February in a non-leap year) is rejected.
pub fn parse_date(s: &str) -> (r: Option<Date>)
    ensures
        r == parse_date_spec(s@),
        r matches Some(d) ==> d.valid(),
{
    let n = s.unicode_len();
    if n != 10 {
        return None;
    }
    if s.get_char(4) != '-' || s.get_char(7) != '-' {
        return None;
    }
    let ys = s.substring_char(0, 4);
    let ms = s.substring_char(5, 7);
    let ds = s.substring_char(8, 10);
    let y = match parse_u32(ys) {
        Some(v) => v,
        None => {
            proof {
                if all_digits(ys@) {
                    lemma_dec_val_bound(ys@);
                    lemma_pow10_small();
                }
            }
            return None;
        },
    };
    let m = match parse_u32(ms) {
        Some(v) => v,
        None => {
            proof {
                if all_digits(ms@) {
                    lemma_dec_val_bound(ms@);
                    lemma_pow10_small();
                }
            }
            return None;
        },
    };
    let d = match parse_u32(ds) {
        Some(v) => v,
        None => {
            proof {
                if all_digits(ds@) {
                    lemma_dec_val_bound(ds@);
                    lemma_pow10_small();
                }
            }
            return None;
        },
    };
    proof {
        lemma_dec_val_bound(ys@);
        lemma_pow10_small();
    }
    if m < 1 || m > 12 {
        return None;
    }
    if d < 1 || d > days_in_month_exec(y, m) {
        return None;
    }
    Some(Date { year: y, month: m, day: d })
}

/// Whole days from `start` to `today`: positive when `start` lies in the
/// past, zero on the same day, negative when `start` lies in the future.
pub fn days_between(today: &Date, start: &Date) -> (r: i64)
    requires
        today.valid(),
        start.valid(),
    ensures
        r as int == date_day_number(*today) - date_day_number(*start),
{
    let a = today.day_number();
    let b = start.day_number();
    a - b
}

} // verus!
