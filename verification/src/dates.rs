//! Calendar dates and timestamps, with calendar-aware month subtraction.

use vstd::prelude::*;

verus! {

/// Smallest year a date may carry; matches the range chrono's dates cover.
pub const MIN_YEAR: i32 = -262143;

/// Largest year a date may carry; matches the range chrono's dates cover.
pub const MAX_YEAR: i32 = 262142;

/// A calendar date: year, month (1..=12) and day of month.
#[derive(Clone, Copy, Debug, PartialEq, Eq, Structural)]
pub struct Date {
    pub year: i32,
    pub month: u32,
    pub day: u32,
}

/// An instant: the calendar date plus the second of that day.
#[derive(Clone, Copy, Debug, PartialEq, Eq, Structural)]
pub struct Timestamp {
    pub date: Date,
    pub sec_of_day: u32,
}

/// Gregorian leap-year rule.
pub open spec fn spec_is_leap_year(y: int) -> bool {
    (y % 4 == 0 && y % 100 != 0) || y % 400 == 0
}

/// Number of days in the given month of the given year.
pub open spec fn spec_days_in_month(y: int, m: int) -> int {
    if m == 2 {
        if spec_is_leap_year(y) {
            29
        } else {
            28
        }
    } else if m == 4 || m == 6 || m == 9 || m == 11 {
        30
    } else {
        31
    }
}

impl Date {
    /// A well-formed date lies in the supported year range and names a real
    /// day of a real month.
    pub open spec fn wf(self) -> bool {
        &&& MIN_YEAR <= self.year <= MAX_YEAR
        &&& 1 <= self.month <= 12
        &&& 1 <= self.day <= spec_days_in_month(self.year as int, self.month as int)
    }

    /// Order on calendar dates: year, then month, then day.
    pub open spec fn spec_le(self, other: Date) -> bool {
        ||| self.year < other.year
        ||| (self.year == other.year && self.month < other.month)
        ||| (self.year == other.year && self.month == other.month && self.day <= other.day)
    }

    /// Index of this date's month on the time line, counting months from
    /// the start of year zero.
    pub open spec fn month_index(self) -> int {
        self.year * 12 + self.month - 1
    }
}

impl Timestamp {
    pub open spec fn wf(self) -> bool {
        self.date.wf() && self.sec_of_day < 86400
    }
}

/// What subtracting `k` calendar months yields: the date `k` positions
/// earlier on the month line, with the day clamped to the target month's
/// length; nothing when the result would fall before the supported range.
pub open spec fn spec_sub_months(d: Date, k: u32) -> Option<Date> {
    let t = d.month_index() - k;
    if t < MIN_YEAR * 12 {
        None
    } else {
        let y = t / 12;
        let m = t % 12 + 1;
        Some(
            Date {
                year: y as i32,
                month: m as u32,
                day: vstd::math::min(d.day as int, spec_days_in_month(y, m)) as u32,
            },
        )
    }
}

pub fn is_leap_year(y: i32) -> (r: bool)
    requires
        MIN_YEAR <= y <= MAX_YEAR,
    ensures
        r == spec_is_leap_year(y as int),
{
    let w: u64 = (y + 400000) as u64;
    proof {
        vstd::arithmetic::div_mod::lemma_mod_multiples_vanish(100000, y as int, 4);
        vstd::arithmetic::div_mod::lemma_mod_multiples_vanish(4000, y as int, 100);
        vstd::arithmetic::div_mod::lemma_mod_multiples_vanish(1000, y as int, 400);
    }
    (w % 4 == 0 && w % 100 != 0) || w % 400 == 0
}

pub fn days_in_month(y: i32, m: u32) -> (r: u32)
    requires
        MIN_YEAR <= y <= MAX_YEAR,
        1 <= m <= 12,
    ensures
        r as int == spec_days_in_month(y as int, m as int),
{
    if m == 2 {
        if is_leap_year(y) {
            29
        } else {
            28
        }
    } else if m == 4 || m == 6 || m == 9 || m == 11 {
        30
    } else {
        31
    }
}

impl Date {
    /// Checked constructor: yields a date exactly when the fields form a
    /// well-formed calendar date.
    pub fn new(year: i32, month: u32, day: u32) -> (r: Option<Date>)
        ensures
            match r {
                Some(d) => d == (Date { year, month, day }) && d.wf(),
                None => !(Date { year, month, day }).wf(),
            },
    {
        if MIN_YEAR <= year && year <= MAX_YEAR && 1 <= month && month <= 12 && 1 <= day
            && day <= days_in_month(year, month) {
            Some(Date { year, month, day })
        } else {
            None
        }
    }

    /// Decides the calendar order `self <= other`.
    pub fn le(&self, other: &Date) -> (r: bool)
        ensures
            r == self.spec_le(*other),
    {
        self.year < other.year || (self.year == other.year && self.month < other.month) || (
        self.year == other.year && self.month == other.month && self.day <= other.day)
    }

    /// Subtracts `k` calendar months, clamping the day to the length of the
    /// target month.
    pub fn sub_months(&self, k: u32) -> (r: Option<Date>)
        requires
            self.wf(),
        ensures
            r == spec_sub_months(*self, k),
            r matches Some(c) ==> c.wf(),
    {
        let t: i64 = (self.year as i64) * 12 + (self.month as i64) - 1 - (k as i64);
        let min_t: i64 = (MIN_YEAR as i64) * 12;
        if t < min_t {
            return None;
        }
        let s: u64 = (t - min_t) as u64;
        let q: u64 = s / 12;
        let rem: u64 = s % 12;
        let y: i32 = MIN_YEAR + (q as i32);
        let m: u32 = (rem as u32) + 1;
        proof {
            vstd::arithmetic::div_mod::lemma_fundamental_div_mod(s as int, 12);
            vstd::arithmetic::div_mod::lemma_fundamental_div_mod_converse(
                t as int,
                12,
                y as int,
                rem as int,
            );
        }
        let dim: u32 = days_in_month(y, m);
        let day: u32 = if self.day <= dim {
            self.day
        } else {
            dim
        };
        Some(Date { year: y, month: m, day })
    }
}

/// Subtracting months moves the month index back by exactly `k` and clamps
/// the day to the target month's length; the result is a well-formed date.
pub proof fn lemma_sub_months_characterization(d: Date, k: u32)
    requires
        d.wf(),
        spec_sub_months(d, k) is Some,
    ensures
        spec_sub_months(d, k) matches Some(c) ==> {
            &&& c.wf()
            &&& c.month_index() == d.month_index() - k
            &&& c.day == vstd::math::min(
                d.day as int,
                spec_days_in_month(c.year as int, c.month as int),
            )
        },
{
    let t = d.month_index() - k;
    vstd::arithmetic::div_mod::lemma_fundamental_div_mod(t, 12);
    vstd::arithmetic::div_mod::lemma_mod_division_less_than_divisor(t, 12);
    let y = t / 12;
    assert(y >= MIN_YEAR) by {
        if y < MIN_YEAR {
            assert(t == 12 * y + t % 12);
            assert(12 * y <= 12 * (MIN_YEAR - 1)) by (nonlinear_arith)
                requires
                    y <= MIN_YEAR - 1,
            ;
        }
    }
    assert(y <= MAX_YEAR) by {
        assert(t <= MAX_YEAR * 12 + 11);
        if y > MAX_YEAR {
            assert(12 * y >= 12 * (MAX_YEAR + 1)) by (nonlinear_arith)
                requires
                    y >= MAX_YEAR + 1,
            ;
        }
    }
}

} // verus!
