use vstd::prelude::*;

verus! {

/// A calendar date held as plain numbers: year, 1-based month, 1-based day.
#[derive(Clone, Copy, PartialEq, Eq, Structural, Debug)]
pub struct Date {
    pub year: i32,
    pub month: u8,
    pub day: u8,
}

/// True when `y` is a leap year of the proleptic Gregorian calendar.
pub open spec fn is_leap_year(y: int) -> bool {
    y % 4 == 0 && (y % 100 != 0 || y % 400 == 0)
}

/// Number of days in month `m` (1-based) of year `y`.
pub open spec fn days_in_month(y: int, m: int) -> int {
    if m == 2 {
        if is_leap_year(y) {
            29
        } else {
            28
        }
    } else if m == 4 || m == 6 || m == 9 || m == 11 {
        30
    } else {
        31
    }
}

/// A well-formed date: the year has at most four digits and month and day
/// denote a real calendar day.
pub open spec fn valid_date(d: Date) -> bool {
    &&& 0 <= d.year <= 9999
    &&& 1 <= d.month <= 12
    &&& 1 <= d.day <= days_in_month(d.year as int, d.month as int)
}

/// Strict chronological order on dates: year, then month, then day.
pub open spec fn date_lt(a: Date, b: Date) -> bool {
    ||| a.year < b.year
    ||| (a.year == b.year && a.month < b.month)
    ||| (a.year == b.year && a.month == b.month && a.day < b.day)
}

/// Chronological order on dates, allowing equality.
pub open spec fn date_le(a: Date, b: Date) -> bool {
    date_lt(a, b) || a == b
}

/// Decides the strict chronological order.
pub fn date_before(a: Date, b: Date) -> (r: bool)
    ensures
        r == date_lt(a, b),
{
    if a.year != b.year {
        a.year < b.year
    } else if a.month != b.month {
        a.month < b.month
    } else {
        a.day < b.day
    }
}

/// An ASCII decimal digit.
pub open spec fn is_digit(b: u8) -> bool {
    48 <= b <= 57
}

/// Numeric value of an ASCII digit.
pub open spec fn digit(b: u8) -> int {
    b - 48
}

/// The date denoted by a ten-byte `YYYY-MM-DD` text, if it is well formed
/// and names a real calendar day; `None` otherwise.
pub open spec fn spec_parse_date(b: Seq<u8>) -> Option<Date> {
    if b.len() == 10 && is_digit(b[0]) && is_digit(b[1]) && is_digit(b[2]) && is_digit(b[3])
        && b[4] == 45u8 && is_digit(b[5]) && is_digit(b[6]) && b[7] == 45u8 && is_digit(b[8])
        && is_digit(b[9]) {
        let y = digit(b[0]) * 1000 + digit(b[1]) * 100 + digit(b[2]) * 10 + digit(b[3]);
        let m = digit(b[5]) * 10 + digit(b[6]);
        let d = digit(b[8]) * 10 + digit(b[9]);
        if 1 <= m <= 12 && 1 <= d <= days_in_month(y, m) {
            Some(Date { year: y as i32, month: m as u8, day: d as u8 })
        } else {
            None
        }
    } else {
        None
    }
}

/// Parses an ISO `YYYY-MM-DD` date; rejects malformed text and days that do
/// not exist in the calendar.
pub fn parse_date(b: &[u8]) -> (r: Option<Date>)
    ensures
        r == spec_parse_date(b@),
        r is Some ==> valid_date(r->Some_0),
{
    if b.len() != 10 {
        return None;
    }
    let mut i: usize = 0;
    while i < 10
        invariant
            i <= 10,
            b@.len() == 10,
            forall|k: int| 0 <= k < i && k != 4 && k != 7 ==> is_digit(b@[k]),
            forall|k: int| 0 <= k < i && (k == 4 || k == 7) ==> b@[k] == 45u8,
        decreases 10 - i,
    {
        let c = b[i];
        if i == 4 || i == 7 {
            if c != 45u8 {
                return None;
            }
        } else {
            if !(48u8 <= c && c <= 57u8) {
                return None;
            }
        }
        i += 1;
    }
    let y: i32 = (b[0] - 48) as i32 * 1000 + (b[1] - 48) as i32 * 100 + (b[2] - 48) as i32 * 10
        + (b[3] - 48) as i32;
    let m: u8 = (b[5] - 48) * 10 + (b[6] - 48);
    let d: u8 = (b[8] - 48) * 10 + (b[9] - 48);
    if !(1 <= m && m <= 12) {
        return None;
    }
    let dim: u8 = days_in_month_exec(y, m);
    if !(1 <= d && d <= dim) {
        return None;
    }
    Some(Date { year: y, month: m, day: d })
}

/// Number of days in a month, as executable code.
pub fn days_in_month_exec(y: i32, m: u8) -> (r: u8)
    ensures
        r as int == days_in_month(y as int, m as int),
{
    if m == 2 {
        if y % 4 == 0 && (y % 100 != 0 || y % 400 == 0) {
            29
        } else {
            28
        }
    } else if m == 4 || m == 6 || m == 9 || m == 11 {
        30
    } else {
        31
    }
}

/// The ISO 8601 week of a calendar date, as the pair (week-year, week
/// number). Left unspecified here: a date determines it, and the trusted
/// wrapper below computes it.
pub uninterp spec fn iso_week_of(year: int, month: int, day: int) -> (int, int);

/// Relies on chrono's `Datelike::iso_week` for `NaiveDate` (with
/// `IsoWeek::year` and `IsoWeek::week` reading the pair out): the ISO week
/// of a date is a function of the date alone.
#[verifier::external_body]
pub fn iso_week_nums(d: Date) -> (r: (i32, u32))
    requires
        valid_date(d),
    ensures
        (r.0 as int, r.1 as int) == iso_week_of(d.year as int, d.month as int, d.day as int),
{
    let nd = chrono::NaiveDate::from_ymd_opt(d.year, d.month as u32, d.day as u32).unwrap();
    let w = chrono::Datelike::iso_week(&nd);
    (w.year(), w.week())
}

} // verus!
