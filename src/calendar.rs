//! Calendar dates and the day stamp that names a snapshot directory.

use vstd::prelude::*;
use chrono::Datelike;
use crate::names::{decimal, decimal_text};

verus! {

/// The smallest year of a date that chrono represents.
pub const MIN_YEAR: i32 = -262143;

/// The largest year of a date that chrono represents.
pub const MAX_YEAR: i32 = 262142;

/// A date of the proleptic Gregorian calendar.
#[derive(Debug, Clone, Copy, PartialEq, Eq, Structural)]
pub struct CivilDate {
    pub year: i32,
    pub month: u32,
    pub day: u32,
}

/// Whether `y` is a leap year.
pub open spec fn is_leap(y: int) -> bool {
    (y % 4 == 0 && y % 100 != 0) || y % 400 == 0
}

/// The number of days of month `m` of year `y`.
pub open spec fn days_in_month(y: int, m: int) -> int {
    if m == 2 {
        if is_leap(y) {
            29
        } else {
            28
        }
    } else if m == 4 || m == 6 || m == 9 || m == 11 {
        30
    } else {
        31
    }
}

impl CivilDate {
    /// A real date, within chrono's range of years.
    pub open spec fn wf(self) -> bool {
        &&& MIN_YEAR <= self.year <= MAX_YEAR
        &&& 1 <= self.month <= 12
        &&& 1 <= self.day <= days_in_month(self.year as int, self.month as int)
    }
}

/// The calendar day before `d`.
pub open spec fn day_before(d: CivilDate) -> CivilDate {
    if d.day > 1 {
        CivilDate { day: (d.day - 1) as u32, ..d }
    } else if d.month > 1 {
        CivilDate {
            month: (d.month - 1) as u32,
            day: days_in_month(d.year as int, d.month - 1) as u32,
            ..d
        }
    } else {
        CivilDate { year: (d.year - 1) as i32, month: 12, day: 31 }
    }
}

/// `s` padded on the left with zeros to at least `w` characters.
pub open spec fn zero_pad(s: Seq<char>, w: nat) -> Seq<char> {
    if s.len() >= w {
        s
    } else {
        Seq::new((w - s.len()) as nat, |i: int| '0') + s
    }
}

/// The year as chrono's `%Y` writes it: four digits at least, with a sign
/// outside the years 0 to 9999.
pub open spec fn year_text(y: int) -> Seq<char> {
    if 0 <= y <= 9999 {
        zero_pad(decimal(y as nat), 4)
    } else if y < 0 {
        seq!['-'] + zero_pad(decimal((-y) as nat), 4)
    } else {
        seq!['+'] + zero_pad(decimal(y as nat), 4)
    }
}

/// The `YYYYMMDD` stamp of a date.
pub open spec fn day_stamp(d: CivilDate) -> Seq<char> {
    year_text(d.year as int) + zero_pad(decimal(d.month as nat), 2) + zero_pad(decimal(d.day as nat), 2)
}

/// Whether `y` is a leap year.
pub fn leap_year(y: i32) -> (r: bool)
    ensures
        r == is_leap(y as int),
{
    (y % 4 == 0 && y % 100 != 0) || y % 400 == 0
}

/// The number of days of month `m` of year `y`.
pub fn month_days(y: i32, m: u32) -> (r: u32)
    ensures
        r == days_in_month(y as int, m as int),
{
    if m == 2 {
        if leap_year(y) {
            29
        } else {
            28
        }
    } else if m == 4 || m == 6 || m == 9 || m == 11 {
        30
    } else {
        31
    }
}

/// The calendar day before `d`.
pub fn previous_day(d: CivilDate) -> (r: CivilDate)
    requires
        d.wf(),
        d.year > MIN_YEAR,
    ensures
        r == day_before(d),
        r.wf(),
{
    if d.day > 1 {
        CivilDate { day: d.day - 1, ..d }
    } else if d.month > 1 {
        CivilDate { month: d.month - 1, day: month_days(d.year, d.month - 1), ..d }
    } else {
        CivilDate { year: d.year - 1, month: 12, day: 31 }
    }
}

/// `s` padded on the left with zeros to at least `w` characters.
pub fn pad_zeros(s: String, w: usize) -> (r: String)
    ensures
        r@ == zero_pad(s@, w as nat),
{
    let n = s.unicode_len();
    if n >= w {
        return s;
    }
    let mut out = String::new();
    let mut i: usize = 0;
    while i < w - n
        invariant
            n == s@.len(),
            n < w,
            i <= w - n,
            out@ == Seq::new(i as nat, |k: int| '0'),
        decreases w - n - i,
    {
        out.append("0");
        proof {
            reveal_strlit("0");
        }
        assert(out@ =~= Seq::new((i + 1) as nat, |k: int| '0'));
        i = i + 1;
    }
    out.append(s.as_str());
    out
}

/// The `YYYYMMDD` stamp of a date.
pub fn format_day_stamp(d: CivilDate) -> (r: String)
    requires
        d.wf(),
    ensures
        r@ == day_stamp(d),
{
    let mut y = if 0 <= d.year && d.year <= 9999 {
        pad_zeros(decimal_text(d.year as u64), 4)
    } else if d.year < 0 {
        let mut t = String::from_str("-");
        t.append(pad_zeros(decimal_text((-d.year) as u64), 4).as_str());
        proof {
            reveal_strlit("-");
        }
        t
    } else {
        let mut t = String::from_str("+");
        t.append(pad_zeros(decimal_text(d.year as u64), 4).as_str());
        proof {
            reveal_strlit("+");
        }
        t
    };
    assert(y@ =~= year_text(d.year as int));
    y.append(pad_zeros(decimal_text(d.month as u64), 2).as_str());
    y.append(pad_zeros(decimal_text(d.day as u64), 2).as_str());
    y
}

/// The stamp of the snapshot taken on `today`: that of the day before,
/// since a daily run near midnight covers the day that just ended.
pub fn backup_day_for(today: CivilDate) -> (r: String)
    requires
        today.wf(),
        today.year > MIN_YEAR,
    ensures
        r@ == day_stamp(day_before(today)),
{
    format_day_stamp(previous_day(today))
}

/// Relies on chrono's `Local::now().date_naive()`: today's date in the
/// local time zone, a valid date. `Utc::now` panics on a clock before the
/// Unix epoch, so the year is at least 1969 (the epoch in a time zone west
/// of UTC), and at most chrono's last year.
#[verifier::external_body]
fn local_today() -> (r: CivilDate)
    ensures
        r.wf(),
        r.year >= 1969,
{
    let d = chrono::Local::now().date_naive();
    CivilDate { year: d.year(), month: d.month(), day: d.day() }
}

/// The stamp of today's snapshot: that of yesterday in local time.
pub fn current_backup_day() -> (r: String)
    ensures
        exists|d: CivilDate| d.wf() && d.year >= 1969 && #[trigger] day_stamp(day_before(d)) == r@,
{
    let today = local_today();
    backup_day_for(today)
}

} // verus!

verus! {

/// Relies on chrono's `Utc::now().to_rfc3339()`: the current time as an
/// RFC 3339 timestamp.
#[verifier::external_body]
pub(crate) fn utc_now_rfc3339() -> (r: String)
    ensures
        r@.len() > 0,
{
    chrono::Utc::now().to_rfc3339()
}

} // verus!
