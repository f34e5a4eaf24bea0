//! Calendar dates as plain year/month/day values.
//!
//! Dates travel through the rest of the system as `YYYY-MM-DD` strings; this
//! module parses and formats them, and supplies the two pieces of arithmetic
//! the billing engine needs: the day-number of a date (for differences in
//! days) and advancing a date by whole months (for due-date schedules).

use vstd::prelude::*;

use crate::text::{digit_char, digit_val, is_digit, push_char};

verus! {

/// A calendar date in the proleptic Gregorian calendar, restricted to the
/// four-digit years that the `YYYY-MM-DD` wire format can carry.
#[derive(Clone, Copy, Debug, PartialEq, Eq, Structural)]
pub struct Date {
    pub year: i32,
    pub month: i32,
    pub day: i32,
}

pub open spec fn is_leap_year(y: int) -> bool {
    (y % 4 == 0 && y % 100 != 0) || y % 400 == 0
}

pub open spec fn days_in_month(y: int, m: int) -> int {
    if m == 1 || m == 3 || m == 5 || m == 7 || m == 8 || m == 10 || m == 12 {
        31
    } else if m == 4 || m == 6 || m == 9 || m == 11 {
        30
    } else if is_leap_year(y) {
        29
    } else {
        28
    }
}

impl Date {
    /// A well-formed date: an existing calendar day in a four-digit year.
    pub open spec fn wf(self) -> bool {
        &&& 1 <= self.year <= 9999
        &&& 1 <= self.month <= 12
        &&& 1 <= self.day <= days_in_month(self.year as int, self.month as int)
    }

    /// The number of days since the epoch of the day-number scheme
    /// (0000-03-01); consecutive calendar days map to consecutive numbers,
    /// so differences of day numbers are differences in days.
    pub open spec fn day_number(self) -> int {
        let y: int = if self.month <= 2 {
            self.year - 1
        } else {
            self.year as int
        };
        let m: int = self.month as int;
        let era: int = y / 400;
        let yoe: int = y % 400;
        let mp: int = if m >= 3 {
            m - 3
        } else {
            m + 9
        };
        let doy: int = (153 * mp + 2) / 5 + self.day - 1;
        let doe: int = yoe * 365 + yoe / 4 - yoe / 100 + doy;
        era * 146097 + doe
    }

    /// Executable day-number computation.
    pub fn to_day_number(&self) -> (n: u64)
        requires
            self.wf(),
        ensures
            n == self.day_number(),
            n < 4_000_000,
    {
        let y: u64 = if self.month <= 2 {
            (self.year - 1) as u64
        } else {
            self.year as u64
        };
        let m: u64 = self.month as u64;
        let era: u64 = y / 400;
        let yoe: u64 = y % 400;
        let mp: u64 = if m >= 3 {
            m - 3
        } else {
            m + 9
        };
        let doy: u64 = (153 * mp + 2) / 5 + (self.day as u64) - 1;
        let doe: u64 = yoe * 365 + yoe / 4 - yoe / 100 + doy;
        era * 146097 + doe
    }

    /// Executable well-formedness check.
    pub fn is_wf(&self) -> (r: bool)
        ensures
            r == self.wf(),
    {
        1 <= self.year && self.year <= 9999 && 1 <= self.month && self.month <= 12 && 1 <= self.day
            && self.day <= days_in_month_exec(self.year, self.month)
    }
}

/// Executable table of month lengths.
pub fn days_in_month_exec(year: i32, month: i32) -> (n: i32)
    ensures
        n == days_in_month(year as int, month as int),
{
    if month == 1 || month == 3 || month == 5 || month == 7 || month == 8 || month == 10 || month
        == 12 {
        31
    } else if month == 4 || month == 6 || month == 9 || month == 11 {
        30
    } else {
        let leap: bool = (year % 4 == 0 && year % 100 != 0) || year % 400 == 0;
        if leap {
            29
        } else {
            28
        }
    }
}

/// What parsing a `YYYY-MM-DD` string yields: `Some` exactly for ten
/// characters in the fixed shape that name an existing calendar day.
pub open spec fn parse_date_seq(s: Seq<char>) -> Option<Date> {
    if s.len() == 10 && s[4] == '-' && s[7] == '-' && is_digit(s[0]) && is_digit(s[1]) && is_digit(
        s[2],
    ) && is_digit(s[3]) && is_digit(s[5]) && is_digit(s[6]) && is_digit(s[8]) && is_digit(s[9]) {
        let y: int = digit_val(s[0]) * 1000 + digit_val(s[1]) * 100 + digit_val(s[2]) * 10
            + digit_val(s[3]);
        let m: int = digit_val(s[5]) * 10 + digit_val(s[6]);
        let d: int = digit_val(s[8]) * 10 + digit_val(s[9]);
        let date = Date { year: y as i32, month: m as i32, day: d as i32 };
        if date.wf() {
            Some(date)
        } else {
            None
        }
    } else {
        None
    }
}

/// The ten characters of a date in `YYYY-MM-DD` shape.
pub open spec fn date_seq(d: Date) -> Seq<char> {
    seq![
        digit_char((d.year as int) / 1000 % 10),
        digit_char((d.year as int) / 100 % 10),
        digit_char((d.year as int) / 10 % 10),
        digit_char((d.year as int) % 10),
        '-',
        digit_char((d.month as int) / 10),
        digit_char((d.month as int) % 10),
        '-',
        digit_char((d.day as int) / 10),
        digit_char((d.day as int) % 10),
    ]
}

/// Parse a `YYYY-MM-DD` string into a date, rejecting both malformed text
/// and well-shaped text that names no existing day (such as a 13th month).
pub fn parse_date(s: &str) -> (r: Option<Date>)
    ensures
        r == parse_date_seq(s@),
{
    if s.unicode_len() != 10 {
        return None;
    }
    if s.get_char(4) != '-' || s.get_char(7) != '-' {
        return None;
    }
    let d0: u32 = s.get_char(0) as u32;
    let d1: u32 = s.get_char(1) as u32;
    let d2: u32 = s.get_char(2) as u32;
    let d3: u32 = s.get_char(3) as u32;
    let m0: u32 = s.get_char(5) as u32;
    let m1: u32 = s.get_char(6) as u32;
    let a0: u32 = s.get_char(8) as u32;
    let a1: u32 = s.get_char(9) as u32;
    if d0 < 48 || d0 > 57 || d1 < 48 || d1 > 57 || d2 < 48 || d2 > 57 || d3 < 48 || d3 > 57 {
        return None;
    }
    if m0 < 48 || m0 > 57 || m1 < 48 || m1 > 57 || a0 < 48 || a0 > 57 || a1 < 48 || a1 > 57 {
        return None;
    }
    let year: i32 = ((d0 - 48) * 1000 + (d1 - 48) * 100 + (d2 - 48) * 10 + (d3 - 48)) as i32;
    let month: i32 = ((m0 - 48) * 10 + (m1 - 48)) as i32;
    let day: i32 = ((a0 - 48) * 10 + (a1 - 48)) as i32;
    let date = Date { year, month, day };
    if date.is_wf() {
        Some(date)
    } else {
        None
    }
}

/// Format a date as its ten-character `YYYY-MM-DD` string.
pub fn format_date(d: &Date) -> (s: String)
    requires
        d.wf(),
    ensures
        s@ == date_seq(*d),
{
    let mut out = String::new();
    push_char(&mut out, ((48 + (d.year / 1000) % 10) as u8) as char);
    push_char(&mut out, ((48 + (d.year / 100) % 10) as u8) as char);
    push_char(&mut out, ((48 + (d.year / 10) % 10) as u8) as char);
    push_char(&mut out, ((48 + d.year % 10) as u8) as char);
    push_char(&mut out, '-');
    push_char(&mut out, ((48 + d.month / 10) as u8) as char);
    push_char(&mut out, ((48 + d.month % 10) as u8) as char);
    push_char(&mut out, '-');
    push_char(&mut out, ((48 + d.day / 10) as u8) as char);
    push_char(&mut out, ((48 + d.day % 10) as u8) as char);
    assert(out@ =~= date_seq(*d));
    out
}

/// Day numbers of well-formed dates are bounded.
pub proof fn lemma_day_number_bounds(d: Date)
    requires
        d.wf(),
    ensures
        0 <= d.day_number() < 4_000_000,
{
    let y: int = if d.month <= 2 {
        d.year - 1
    } else {
        d.year as int
    };
    let era: int = y / 400;
    let yoe: int = y % 400;
    let m: int = d.month as int;
    let mp: int = if m >= 3 {
        m - 3
    } else {
        m + 9
    };
    let doy: int = (153 * mp + 2) / 5 + d.day - 1;
    let doe: int = yoe * 365 + yoe / 4 - yoe / 100 + doy;
    assert(0 <= y <= 9999);
    assert(0 <= era <= 24);
    assert(0 <= yoe <= 399);
    assert(0 <= mp <= 11);
    assert(0 <= (153 * mp + 2) / 5 <= 337);
    assert(0 <= doy <= 367);
    assert(yoe / 100 <= yoe / 4) by {
        assert((yoe / 100) * 100 <= yoe);
        assert((yoe / 100) * 4 <= yoe);
        assert((yoe / 4) * 4 <= yoe < (yoe / 4) * 4 + 4);
    }
    assert(0 <= doe <= 146_101);
    assert(0 <= era * 146097 + doe < 4_000_000);
}

/// Formatting a well-formed date and parsing the result yields the date
/// back: the `YYYY-MM-DD` wire format is lossless.
pub proof fn lemma_date_round_trip(d: Date)
    requires
        d.wf(),
    ensures
        parse_date_seq(date_seq(d)) == Some(d),
{
    let s = date_seq(d);
    let y: int = d.year as int;
    let m: int = d.month as int;
    let dd: int = d.day as int;
    assert(s.len() == 10);
    assert(0 <= y / 1000 % 10 <= 9);
    assert(0 <= y / 100 % 10 <= 9);
    assert(0 <= y / 10 % 10 <= 9);
    assert(0 <= y % 10 <= 9);
    assert(0 <= m / 10 <= 9 && 0 <= m % 10 <= 9);
    assert(0 <= dd / 10 <= 9 && 0 <= dd % 10 <= 9);
    assert(digit_val(digit_char(y / 1000 % 10)) == y / 1000 % 10);
    assert(digit_val(digit_char(y / 100 % 10)) == y / 100 % 10);
    assert(digit_val(digit_char(y / 10 % 10)) == y / 10 % 10);
    assert(digit_val(digit_char(y % 10)) == y % 10);
    assert(digit_val(digit_char(m / 10)) == m / 10);
    assert(digit_val(digit_char(m % 10)) == m % 10);
    assert(digit_val(digit_char(dd / 10)) == dd / 10);
    assert(digit_val(digit_char(dd % 10)) == dd % 10);
    assert(y / 1000 % 10 == y / 1000) by {
        assert(y < 10000);
    }
    assert((y / 1000) * 1000 + (y / 100 % 10) * 100 + (y / 10 % 10) * 10 + y % 10 == y) by {
        assert(y == (y / 10) * 10 + y % 10);
        assert(y / 10 == (y / 100) * 10 + y / 10 % 10) by {
            assert(y / 100 == (y / 10) / 10) by (nonlinear_arith);
        }
        assert(y / 100 == (y / 1000) * 10 + y / 100 % 10) by {
            assert(y / 1000 == (y / 100) / 10) by (nonlinear_arith);
        }
    }
    assert((m / 10) * 10 + m % 10 == m);
    assert((dd / 10) * 10 + dd % 10 == dd);
    assert(('-' as u32) == 45);
    assert(!is_digit('-'));
}

/// The date `months` whole months after `d`, keeping the day of the month
/// and clamping it to the target month's last day when the source day does
/// not exist there (so Jan 31 advanced by one month lands on the last day of
/// February).
pub open spec fn add_months_spec(d: Date, months: int) -> Date {
    let m0: int = d.month - 1 + months;
    let y: int = d.year + m0 / 12;
    let m: int = m0 % 12 + 1;
    let dim: int = days_in_month(y, m);
    let day: int = if d.day <= dim {
        d.day as int
    } else {
        dim
    };
    Date { year: y as i32, month: m as i32, day: day as i32 }
}

/// Executable month advance.
pub fn add_months(d: &Date, months: i32) -> (r: Date)
    requires
        d.wf(),
        1 <= months <= 12,
    ensures
        r == add_months_spec(*d, months as int),
        1 <= r.month <= 12,
        1 <= r.day <= days_in_month(r.year as int, r.month as int),
        d.year <= r.year <= d.year + 2,
{
    let m0: i32 = d.month - 1 + months;
    let y: i32 = d.year + m0 / 12;
    let m: i32 = m0 % 12 + 1;
    let dim: i32 = days_in_month_exec(y, m);
    let day: i32 = if d.day <= dim {
        d.day
    } else {
        dim
    };
    Date { year: y, month: m, day }
}

/// A month advance inside the four-digit-year range yields a well-formed
/// date.
pub proof fn lemma_add_months_wf(d: Date, months: int)
    requires
        d.wf(),
        1 <= months <= 12,
        add_months_spec(d, months).year <= 9999,
    ensures
        add_months_spec(d, months).wf(),
{
}

/// The number of days from `from` to `to`; negative when `to` lies before
/// `from`.
pub open spec fn days_between(from: Date, to: Date) -> int {
    to.day_number() - from.day_number()
}

/// Executable day difference.
pub fn days_between_exec(from: &Date, to: &Date) -> (d: i64)
    requires
        from.wf(),
        to.wf(),
    ensures
        d == days_between(*from, *to),
{
    let a: u64 = from.to_day_number();
    let b: u64 = to.to_day_number();
    (b as i64) - (a as i64)
}

} // verus!
