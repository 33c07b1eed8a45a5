//! Calendar dates in the ledger's `YYYY-MM-DD` form, and their conversion to
//! Unix timestamps at a fixed reference hour.

use vstd::prelude::*;
use vstd::string::StrSliceExecFns;

verus! {

/// A decimal digit character.
pub open spec fn is_digit(c: char) -> bool {
    48 <= c as int <= 57
}

/// Numeric value of a digit character.
pub open spec fn digit_val(c: char) -> int {
    c as int - 48
}

/// A proleptic Gregorian calendar date with a four-digit year.
#[derive(Clone, Copy, PartialEq, Eq, Structural, Debug)]
pub struct Date {
    pub year: u32,
    pub month: u32,
    pub day: u32,
}

/// Gregorian leap-year rule.
pub open spec fn is_leap_year(y: int) -> bool {
    y % 4 == 0 && (y % 100 != 0 || y % 400 == 0)
}

/// Number of days in month `m` of year `y` (months counted from 1).
pub open spec fn days_in_month(y: int, m: int) -> int {
    if m == 2 {
        if is_leap_year(y) {
            29
        } else {
            28
        }
    } else if m == 4 || m == 6 || m == 9 || m == 11 {
        30
    } else {
        31
    }
}

/// Number of days in year `y`.
pub open spec fn days_in_year(y: int) -> int {
    if is_leap_year(y) {
        366
    } else {
        365
    }
}

/// Days of all years in `[0, y)` of the proleptic Gregorian calendar.
pub open spec fn days_from_year_zero(y: int) -> int
    decreases y,
{
    if y <= 0 {
        0
    } else {
        days_from_year_zero(y - 1) + days_in_year(y - 1)
    }
}

/// Days of all months of year `y` that precede month `m`.
pub open spec fn days_before_month(y: int, m: int) -> int
    decreases m,
{
    if m <= 1 {
        0
    } else {
        days_before_month(y, m - 1) + days_in_month(y, m - 1)
    }
}

impl Date {
    /// The date designates an existing calendar day and fits the four-digit
    /// year form of the ledger.
    pub open spec fn valid(self) -> bool {
        &&& self.year <= 9999
        &&& 1 <= self.month <= 12
        &&& 1 <= self.day <= days_in_month(self.year as int, self.month as int)
    }

    /// Number of days between 1970-01-01 and this date, negative for earlier
    /// days.
    pub open spec fn epoch_days(self) -> int {
        days_from_year_zero(self.year as int) - days_from_year_zero(1970) + days_before_month(
            self.year as int,
            self.month as int,
        ) + (self.day - 1)
    }

    /// Unix timestamp (seconds) of this date at `h` o'clock.
    pub open spec fn timestamp_at_hour(self, h: int) -> int {
        self.epoch_days() * 86400 + h * 3600
    }

    /// This date falls on the same calendar day as `other` or on an earlier
    /// one.
    pub open spec fn before_or_same(self, other: Date) -> bool {
        ||| self.year < other.year
        ||| (self.year == other.year && self.month < other.month)
        ||| (self.year == other.year && self.month == other.month && self.day <= other.day)
    }

    /// The following calendar day.
    pub open spec fn next_day(self) -> Date {
        if self.day < days_in_month(self.year as int, self.month as int) {
            Date { day: (self.day + 1) as u32, ..self }
        } else if self.month < 12 {
            Date { month: (self.month + 1) as u32, day: 1, ..self }
        } else {
            Date { year: (self.year + 1) as u32, month: 1, day: 1 }
        }
    }
}

/// Leap-year test on a year that fits `u32`.
pub fn leap_year(y: u32) -> (r: bool)
    ensures
        r == is_leap_year(y as int),
{
    y % 4 == 0 && (y % 100 != 0 || y % 400 == 0)
}

/// Number of days in month `m` of year `y`, executable counterpart of
/// [`days_in_month`].
pub fn month_length(y: u32, m: u32) -> (r: u32)
    ensures
        r == days_in_month(y as int, m as int),
{
    if m == 2 {
        if leap_year(y) {
            29
        } else {
            28
        }
    } else if m == 4 || m == 6 || m == 9 || m == 11 {
        30
    } else {
        31
    }
}

/// Days of all years in `[0, y)`, counted executably.
fn days_from_year_zero_exec(y: u32) -> (n: u64)
    requires
        y <= 10000,
    ensures
        n == days_from_year_zero(y as int),
        n <= 366 * (y as int),
{
    let mut days: u64 = 0;
    let mut i: u32 = 0;
    while i < y
        invariant
            i <= y <= 10000,
            days == days_from_year_zero(i as int),
            days <= 366 * (i as int),
        decreases y - i,
    {
        days = days + if leap_year(i) {
            366
        } else {
            365
        };
        i = i + 1;
    }
    days
}

/// Days between 1970-01-01 and `d`, negative for days before the epoch.
pub fn epoch_days(d: &Date) -> (n: i64)
    requires
        d.valid(),
    ensures
        n == d.epoch_days(),
        -722000 <= n <= 2941000,
{
    let before_year: u64 = days_from_year_zero_exec(d.year);
    let anchor: u64 = days_from_year_zero_exec(1970);
    proof {
        lemma_days_from_year_zero_nonneg(1970);
        lemma_days_from_year_zero_nonneg(d.year as int);
    }
    let mut within: u64 = 0;
    let mut m: u32 = 1;
    while m < d.month
        invariant
            1 <= m <= d.month <= 12,
            within == days_before_month(d.year as int, m as int),
            within <= 31 * (m - 1),
        decreases d.month - m,
    {
        within = within + month_length(d.year, m) as u64;
        m = m + 1;
    }
    let total: u64 = before_year + within + (d.day - 1) as u64;
    (total as i64) - (anchor as i64)
}

proof fn lemma_days_from_year_zero_nonneg(y: int)
    ensures
        days_from_year_zero(y) >= 0,
        y >= 0 ==> days_from_year_zero(y) >= 365 * y,
    decreases (if y >= 0 {
        y
    } else {
        0
    }),
{
    if y > 0 {
        lemma_days_from_year_zero_nonneg(y - 1);
    }
}

/// Unix timestamp of `d` at the fixed reference hour 09:00.
pub fn timestamp_at_nine(d: &Date) -> (t: i64)
    requires
        d.valid(),
    ensures
        t == d.timestamp_at_hour(9),
        -62400000000 <= t <= 254200000000,
{
    let days: i64 = epoch_days(d);
    days * 86400 + 32400
}

/// Advancing a date by one calendar day advances its day count by exactly
/// one; the successor is itself a representable date except past the largest
/// four-digit day.
pub proof fn lemma_next_day_epoch(d: Date)
    requires
        d.valid(),
    ensures
        d.next_day().epoch_days() == d.epoch_days() + 1,
        d.next_day().valid() <==> !(d.year == 9999 && d.month == 12 && d.day == 31),
{
    let yi = d.year as int;
    let mi = d.month as int;
    if d.day < days_in_month(yi, mi) {
    } else if d.month < 12 {
        assert(days_before_month(yi, mi + 1) == days_before_month(yi, mi) + days_in_month(yi, mi));
    } else {
        assert(days_from_year_zero(yi + 1) == days_from_year_zero(yi) + days_in_year(yi));
        lemma_year_months_sum(yi);
    }
}

/// The text has the shape `YYYY-MM-DD`: ten characters, digits in the date
/// positions, dashes between them.
pub open spec fn date_text_shaped(s: Seq<char>) -> bool {
    &&& s.len() == 10
    &&& is_digit(s[0]) && is_digit(s[1]) && is_digit(s[2]) && is_digit(s[3])
    &&& s[4] == '-'
    &&& is_digit(s[5]) && is_digit(s[6])
    &&& s[7] == '-'
    &&& is_digit(s[8]) && is_digit(s[9])
}

/// The date written by a `YYYY-MM-DD`-shaped text.
pub open spec fn date_of_text(s: Seq<char>) -> Date
    recommends
        date_text_shaped(s),
{
    Date {
        year: (digit_val(s[0]) * 1000 + digit_val(s[1]) * 100 + digit_val(s[2]) * 10 + digit_val(
            s[3],
        )) as u32,
        month: (digit_val(s[5]) * 10 + digit_val(s[6])) as u32,
        day: (digit_val(s[8]) * 10 + digit_val(s[9])) as u32,
    }
}

/// The date that `s` writes in `YYYY-MM-DD` form, or `None` where `s` is not
/// of that shape or designates no existing calendar day.
pub open spec fn parse_date_text(s: Seq<char>) -> Option<Date> {
    if date_text_shaped(s) && date_of_text(s).valid() {
        Some(date_of_text(s))
    } else {
        None
    }
}

/// Digit value of character `c`, or `None` where `c` is no decimal digit.
fn digit_of_char(c: char) -> (r: Option<u32>)
    ensures
        r is Some <==> is_digit(c),
        r is Some ==> r->Some_0 == digit_val(c) && r->Some_0 <= 9,
{
    let v: u32 = c as u32;
    if 48 <= v && v <= 57 {
        Some(v - 48)
    } else {
        None
    }
}

/// Parse a calendar date written as `YYYY-MM-DD`.
pub fn parse_date(s: &str) -> (r: Option<Date>)
    ensures
        r == parse_date_text(s@),
{
    if s.unicode_len() != 10 {
        return None;
    }
    if s.get_char(4) != '-' || s.get_char(7) != '-' {
        return None;
    }
    let d0: Option<u32> = digit_of_char(s.get_char(0));
    let d1: Option<u32> = digit_of_char(s.get_char(1));
    let d2: Option<u32> = digit_of_char(s.get_char(2));
    let d3: Option<u32> = digit_of_char(s.get_char(3));
    let m0: Option<u32> = digit_of_char(s.get_char(5));
    let m1: Option<u32> = digit_of_char(s.get_char(6));
    let a0: Option<u32> = digit_of_char(s.get_char(8));
    let a1: Option<u32> = digit_of_char(s.get_char(9));
    match (d0, d1, d2, d3, m0, m1, a0, a1) {
        (
            Some(y3),
            Some(y2),
            Some(y1),
            Some(y0),
            Some(mt),
            Some(mo),
            Some(dt),
            Some(
                dd,
            ),
        ) => {
            let year: u32 = y3 * 1000 + y2 * 100 + y1 * 10 + y0;
            let month: u32 = mt * 10 + mo;
            let day: u32 = dt * 10 + dd;
            let date = Date { year, month, day };
            if 1 <= month && month <= 12 && 1 <= day && day <= month_length(year, month) {
                Some(date)
            } else {
                None
            }
        },
        _ => None,
    }
}

proof fn lemma_days_before_month_mono(y: int, m1: int, m2: int)
    requires
        1 <= m1 <= m2,
    ensures
        days_before_month(y, m1) <= days_before_month(y, m2),
    decreases m2 - m1,
{
    if m1 < m2 {
        lemma_days_before_month_mono(y, m1, m2 - 1);
    }
}

proof fn lemma_days_before_month_nonneg(y: int, m: int)
    requires
        m >= 1,
    ensures
        days_before_month(y, m) >= 0,
    decreases m,
{
    if m > 1 {
        lemma_days_before_month_nonneg(y, m - 1);
    }
}

proof fn lemma_days_from_year_zero_mono(y1: int, y2: int)
    requires
        0 <= y1 <= y2,
    ensures
        days_from_year_zero(y1) <= days_from_year_zero(y2),
    decreases y2 - y1,
{
    if y1 < y2 {
        lemma_days_from_year_zero_mono(y1, y2 - 1);
    }
}

/// Within a year, a day's number never reaches the year's length.
proof fn lemma_within_year_bound(y: int, m: int, d: int)
    requires
        1 <= m <= 12,
        1 <= d <= days_in_month(y, m),
    ensures
        0 <= days_before_month(y, m) + d - 1 < days_in_year(y),
{
    lemma_days_before_month_nonneg(y, m);
    lemma_days_before_month_mono(y, m + 1, 13);
    assert(days_before_month(y, m + 1) == days_before_month(y, m) + days_in_month(y, m));
    assert(days_before_month(y, 13) == days_before_month(y, 12) + days_in_month(y, 12));
    lemma_year_months_sum(y);
}

/// The day count respects calendar order: a day on or before another never
/// has the larger count.
pub proof fn lemma_epoch_days_monotone(a: Date, b: Date)
    requires
        a.valid(),
        b.valid(),
        a.before_or_same(b),
    ensures
        a.epoch_days() <= b.epoch_days(),
{
    let ya = a.year as int;
    let yb = b.year as int;
    lemma_within_year_bound(ya, a.month as int, a.day as int);
    lemma_within_year_bound(yb, b.month as int, b.day as int);
    if a.year < b.year {
        assert(days_from_year_zero(ya + 1) == days_from_year_zero(ya) + days_in_year(ya));
        lemma_days_from_year_zero_mono(ya + 1, yb);
    } else if a.month < b.month {
        assert(days_before_month(ya, a.month as int + 1) == days_before_month(ya, a.month as int)
            + days_in_month(ya, a.month as int));
        lemma_days_before_month_mono(ya, a.month as int + 1, b.month as int);
    }
}

/// No recorded day is ever asked for again: at the reference hour, every
/// calendar day up to the last recorded one lies strictly before the
/// timestamp of the day that follows the last recorded one.
pub proof fn lemma_window_excludes_recorded_days(earlier: Date, last: Date)
    requires
        earlier.valid(),
        last.valid(),
        earlier.before_or_same(last),
    ensures
        earlier.timestamp_at_hour(9) < last.next_day().timestamp_at_hour(9),
{
    lemma_epoch_days_monotone(earlier, last);
    lemma_next_day_epoch(last);
}

/// The twelve month lengths of year `y` add up to its year length.
proof fn lemma_year_months_sum(y: int)
    ensures
        days_before_month(y, 12) + days_in_month(y, 12) == days_in_year(y),
{
    assert(days_before_month(y, 2) == days_before_month(y, 1) + days_in_month(y, 1));
    assert(days_before_month(y, 3) == days_before_month(y, 2) + days_in_month(y, 2));
    assert(days_before_month(y, 4) == days_before_month(y, 3) + days_in_month(y, 3));
    assert(days_before_month(y, 5) == days_before_month(y, 4) + days_in_month(y, 4));
    assert(days_before_month(y, 6) == days_before_month(y, 5) + days_in_month(y, 5));
    assert(days_before_month(y, 7) == days_before_month(y, 6) + days_in_month(y, 6));
    assert(days_before_month(y, 8) == days_before_month(y, 7) + days_in_month(y, 7));
    assert(days_before_month(y, 9) == days_before_month(y, 8) + days_in_month(y, 8));
    assert(days_before_month(y, 10) == days_before_month(y, 9) + days_in_month(y, 9));
    assert(days_before_month(y, 11) == days_before_month(y, 10) + days_in_month(y, 10));
    assert(days_before_month(y, 12) == days_before_month(y, 11) + days_in_month(y, 11));
}

} // verus!
