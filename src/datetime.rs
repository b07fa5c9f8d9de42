//! A local (zone-less) date and time, held as plain calendar fields.
use vstd::prelude::*;
use chrono::{Datelike, Timelike};
use vstd::arithmetic::div_mod::{lemma_fundamental_div_mod, lemma_fundamental_div_mod_converse, lemma_mod_bound};

verus! {

/// Smallest year a calendar value may carry.
pub const MIN_YEAR: i32 = -262143;

/// Largest year a calendar value may carry.
pub const MAX_YEAR: i32 = 262142;

/// A wall-clock date and time without a time zone, to the second.
#[derive(Clone, Copy, Debug, PartialEq, Eq, Structural)]
pub struct LocalDateTime {
    pub year: i32,
    pub month: u32,
    pub day: u32,
    pub hour: u32,
    pub minute: u32,
    pub second: u32,
}

/// Gregorian leap year: divisible by 4, and by 400 when divisible by 100.
pub open spec fn is_leap_year(y: int) -> bool {
    y % 4 == 0 && (y % 100 != 0 || y % 400 == 0)
}

/// Number of days of month `m` (1..=12) in year `y`.
pub open spec fn days_in_month(y: int, m: int) -> int {
    if m == 2 {
        if is_leap_year(y) { 29 } else { 28 }
    } else if m == 4 || m == 6 || m == 9 || m == 11 {
        30
    } else {
        31
    }
}

/// A day that exists in the proleptic Gregorian calendar.
pub open spec fn is_valid_date(y: int, m: int, d: int) -> bool {
    1 <= m <= 12 && 1 <= d <= days_in_month(y, m)
}

/// Days from 1970-01-01 to the given date (negative before it).
pub open spec fn days_from_civil(y: int, m: int, d: int) -> int {
    let yy = if m <= 2 { y - 1 } else { y };
    let era = yy / 400;
    let yoe = yy - era * 400;
    let mp = (m + 9) % 12;
    let doy = (153 * mp + 2) / 5 + d - 1;
    let doe = yoe * 365 + yoe / 4 - yoe / 100 + doy;
    era * 146097 + doe - 719468
}

impl LocalDateTime {
    /// Every field lies in its range and the day exists.
    pub open spec fn wf(self) -> bool {
        &&& MIN_YEAR <= self.year <= MAX_YEAR
        &&& is_valid_date(self.year as int, self.month as int, self.day as int)
        &&& self.hour < 24
        &&& self.minute < 60
        &&& self.second < 60
    }

    /// Seconds since 1970-01-01 00:00:00, reading the value as UTC.
    pub open spec fn epoch_seconds(self) -> int {
        days_from_civil(self.year as int, self.month as int, self.day as int) * 86400
            + self.hour * 3600 + self.minute * 60 + self.second
    }

    /// Midnight at the start of the given day.
    pub open spec fn midnight(y: int, m: int, d: int) -> LocalDateTime {
        LocalDateTime {
            year: y as i32,
            month: m as u32,
            day: d as u32,
            hour: 0,
            minute: 0,
            second: 0,
        }
    }

    /// Whether every field lies in its range and the day exists.
    pub fn is_valid(&self) -> (r: bool)
        ensures
            r == self.wf(),
    {
        MIN_YEAR <= self.year && self.year <= MAX_YEAR && 1 <= self.month && self.month <= 12
            && 1 <= self.day && self.day <= month_length(self.year, self.month) && self.hour < 24
            && self.minute < 60 && self.second < 60
    }

    /// Midnight at the start of the given day, if that day exists.
    pub fn from_ymd(year: i32, month: u32, day: u32) -> (r: Option<LocalDateTime>)
        ensures
            r == (if MIN_YEAR <= year <= MAX_YEAR && is_valid_date(year as int, month as int, day as int) {
                Some(LocalDateTime::midnight(year as int, month as int, day as int))
            } else {
                None
            }),
            r matches Some(t) ==> t.wf(),
    {
        if year < MIN_YEAR || year > MAX_YEAR || month < 1 || month > 12 || day < 1 {
            return None;
        }
        if day > month_length(year, month) {
            return None;
        }
        Some(LocalDateTime { year, month, day, hour: 0, minute: 0, second: 0 })
    }
}

/// Days from 0000-03-01 to the first of March of year `n` (years counted
/// from March, so that February ends the year).
spec fn march_years_days(n: int) -> int {
    let era = n / 400;
    let yoe = n - era * 400;
    era * 146097 + yoe * 365 + yoe / 4 - yoe / 100
}

/// Days from the first of March to day `d` of month `m`, in a year counted
/// from March.
spec fn march_day(m: int, d: int) -> int {
    (153 * ((m + 9) % 12) + 2) / 5 + d - 1
}

/// A year counted from March is one day longer when the February that ends
/// it has 29 days.
#[verifier::spinoff_prover]
proof fn lemma_march_year_length(n: int)
    ensures
        march_years_days(n + 1) - march_years_days(n) == 365 + (if is_leap_year(n + 1) { 1int } else { 0int }),
{
    let e = n / 400;
    let k = n % 400;
    lemma_fundamental_div_mod(n, 400);
    lemma_mod_bound(n, 400);
    assert(n - e * 400 == k);
    if k < 399 {
        let j = k + 1;
        lemma_fundamental_div_mod_converse(n + 1, 400, e, j);
        assert(n + 1 - e * 400 == j);
        assert(j == 4 * (j / 4) + j % 4 && 0 <= j % 4 < 4);
        assert(j == 100 * (j / 100) + j % 100 && 0 <= j % 100 < 100);
        lemma_fundamental_div_mod_converse(n + 1, 4, 100 * e + j / 4, j % 4);
        lemma_fundamental_div_mod_converse(n + 1, 100, 4 * e + j / 100, j % 100);
        assert(j / 4 - k / 4 == (if j % 4 == 0 { 1int } else { 0int }));
        assert(j / 100 - k / 100 == (if j % 100 == 0 { 1int } else { 0int }));
    } else {
        lemma_fundamental_div_mod_converse(n + 1, 400, e + 1, 0);
        lemma_fundamental_div_mod_converse(n + 1, 4, 100 * e + 100, 0);
        lemma_fundamental_div_mod_converse(n + 1, 100, 4 * e + 4, 0);
        assert(n + 1 - (e + 1) * 400 == 0);
    }
}

/// Later years counted from March start no earlier than the end of an
/// earlier one.
proof fn lemma_march_years_grow(a: int, b: int)
    requires
        a < b,
    ensures
        march_years_days(a + 1) <= march_years_days(b),
    decreases b - a,
{
    if a + 1 < b {
        lemma_march_years_grow(a, b - 1);
        lemma_march_year_length(b - 1);
    }
}

/// The day within a year counted from March stays below the year's length.
proof fn lemma_march_day_bound(y: int, m: int, d: int)
    requires
        is_valid_date(y, m, d),
    ensures
        0 <= march_day(m, d),
        march_day(m, d) < 365 + (if is_leap_year(if m <= 2 { y } else { y + 1 }) { 1int } else { 0int }),
{
    lemma_march_day_table(m, d);
}

/// Days from the first of March to the first of month `m`.
spec fn march_month_start(m: int) -> int {
    if m == 3 { 0 } else if m == 4 { 31 } else if m == 5 { 61 } else if m == 6 { 92 }
    else if m == 7 { 122 } else if m == 8 { 153 } else if m == 9 { 184 } else if m == 10 { 214 }
    else if m == 11 { 245 } else if m == 12 { 275 } else if m == 1 { 306 } else { 337 }
}

/// The day within a year counted from March, month by month.
proof fn lemma_march_day_table(m: int, d: int)
    requires
        1 <= m <= 12,
    ensures
        march_day(m, d) == march_month_start(m) + d - 1,
{
    if m == 1 { assert((153 * ((1 + 9) % 12) + 2) / 5 == 306); }
    else if m == 2 { assert((153 * ((2 + 9) % 12) + 2) / 5 == 337); }
    else if m == 3 { assert((153 * ((3 + 9) % 12) + 2) / 5 == 0); }
    else if m == 4 { assert((153 * ((4 + 9) % 12) + 2) / 5 == 31); }
    else if m == 5 { assert((153 * ((5 + 9) % 12) + 2) / 5 == 61); }
    else if m == 6 { assert((153 * ((6 + 9) % 12) + 2) / 5 == 92); }
    else if m == 7 { assert((153 * ((7 + 9) % 12) + 2) / 5 == 122); }
    else if m == 8 { assert((153 * ((8 + 9) % 12) + 2) / 5 == 153); }
    else if m == 9 { assert((153 * ((9 + 9) % 12) + 2) / 5 == 184); }
    else if m == 10 { assert((153 * ((10 + 9) % 12) + 2) / 5 == 214); }
    else if m == 11 { assert((153 * ((11 + 9) % 12) + 2) / 5 == 245); }
    else { assert((153 * ((12 + 9) % 12) + 2) / 5 == 275); }
}

/// Within a year counted from March, the day fixes the month and the day.
proof fn lemma_march_day_unique(y: int, m1: int, d1: int, m2: int, d2: int)
    requires
        is_valid_date(y, m1, d1),
        is_valid_date(y, m2, d2),
        march_day(m1, d1) == march_day(m2, d2),
    ensures
        m1 == m2,
        d1 == d2,
{
    lemma_march_day_table(m1, d1);
    lemma_march_day_table(m2, d2);
}

/// Two valid values with the same epoch seconds are the same value: the
/// seconds since 1970 identify a time.
pub proof fn lemma_epoch_seconds_injective(a: LocalDateTime, b: LocalDateTime)
    requires
        a.wf(),
        b.wf(),
        a.epoch_seconds() == b.epoch_seconds(),
    ensures
        a == b,
{
    let (ya, ma, da) = (a.year as int, a.month as int, a.day as int);
    let (yb, mb, db) = (b.year as int, b.month as int, b.day as int);
    let na = if ma <= 2 { ya - 1 } else { ya };
    let nb = if mb <= 2 { yb - 1 } else { yb };
    assert(days_from_civil(ya, ma, da) == march_years_days(na) + march_day(ma, da) - 719468);
    assert(days_from_civil(yb, mb, db) == march_years_days(nb) + march_day(mb, db) - 719468);
    let ta = a.hour * 3600 + a.minute * 60 + a.second;
    let tb = b.hour * 3600 + b.minute * 60 + b.second;
    assert(days_from_civil(ya, ma, da) == days_from_civil(yb, mb, db) && ta == tb);
    lemma_march_day_bound(ya, ma, da);
    lemma_march_day_bound(yb, mb, db);
    lemma_march_year_length(na);
    lemma_march_year_length(nb);
    if na < nb {
        lemma_march_years_grow(na, nb);
    } else if nb < na {
        lemma_march_years_grow(nb, na);
    }
    assert(na == nb);
    assert(march_day(ma, da) == march_day(mb, db));
    lemma_march_day_table(ma, da);
    lemma_march_day_table(mb, db);
    assert((ma <= 2) == (mb <= 2));
    assert(ya == yb);
    lemma_march_day_unique(ya, ma, da, mb, db);
}

/// Whether `year` is a leap year.
#[verifier::spinoff_prover]
pub fn leap_year(year: i32) -> (r: bool)
    ensures
        r == is_leap_year(year as int),
{
    year % 4 == 0 && (year % 100 != 0 || year % 400 == 0)
}

/// Number of days in `month` of `year`.
pub fn month_length(year: i32, month: u32) -> (r: u32)
    requires
        1 <= month <= 12,
    ensures
        r == days_in_month(year as int, month as int),
{
    if month == 2 {
        if leap_year(year) { 29 } else { 28 }
    } else if month == 4 || month == 6 || month == 9 || month == 11 {
        30
    } else {
        31
    }
}

/// The layout of a stored time: `YYYY-MM-DD HH:MM:SS`.
pub const TIME_TEXT_FORMAT: &'static str = "%Y-%m-%d %H:%M:%S";

/// The character of a decimal digit `n` (0..=9).
pub open spec fn digit_char(n: int) -> char {
    seq!['0', '1', '2', '3', '4', '5', '6', '7', '8', '9'][n]
}

/// `n` (0..=99) as two digits.
pub open spec fn two_digits(n: int) -> Seq<char> {
    seq![digit_char(n / 10), digit_char(n % 10)]
}

/// `n` (0..=9999) as four digits.
pub open spec fn four_digits(n: int) -> Seq<char> {
    seq![digit_char(n / 1000), digit_char((n / 100) % 10), digit_char((n / 10) % 10), digit_char(n % 10)]
}

/// A time written `YYYY-MM-DD HH:MM:SS`.
pub open spec fn time_text(t: LocalDateTime) -> Seq<char> {
    four_digits(t.year as int) + seq!['-'] + two_digits(t.month as int) + seq!['-']
        + two_digits(t.day as int) + seq![' '] + two_digits(t.hour as int) + seq![':']
        + two_digits(t.minute as int) + seq![':'] + two_digits(t.second as int)
}

/// What chrono's `NaiveDateTime::parse_from_str` makes of `text` under the
/// layout `fmt`.
pub uninterp spec fn naive_datetime_parse(text: Seq<char>, fmt: Seq<char>) -> Option<LocalDateTime>;

/// What chrono's `NaiveDate::parse_from_str` makes of `text` under the layout
/// `fmt`, taken at midnight.
pub uninterp spec fn naive_date_parse(text: Seq<char>, fmt: Seq<char>) -> Option<LocalDateTime>;

/// What chrono's `DateTime::parse_from_rfc3339` makes of `text`, read as the
/// wall-clock time at the offset that `text` carries.
pub uninterp spec fn rfc3339_parse(text: Seq<char>) -> Option<LocalDateTime>;

/// Relies on chrono's `NaiveDateTime::parse_from_str`: the result depends on
/// the text and the layout alone, and any value it yields is a valid date and
/// time (a leap second lives in the fraction, so the second stays below 60).
#[verifier::external_body]
pub(crate) fn parse_naive_datetime(text: &str, fmt: &str) -> (r: Option<LocalDateTime>)
    ensures
        r == naive_datetime_parse(text@, fmt@),
        r matches Some(t) ==> t.wf(),
{
    match chrono::NaiveDateTime::parse_from_str(text, fmt) {
        Ok(d) => Some(LocalDateTime { year: d.year(), month: d.month(), day: d.day(), hour: d.hour(), minute: d.minute(), second: d.second() }),
        Err(_) => None,
    }
}

/// Relies on chrono's `NaiveDate::parse_from_str`: the result depends on the
/// text and the layout alone, and any value it yields is a valid date.
#[verifier::external_body]
pub(crate) fn parse_naive_date(text: &str, fmt: &str) -> (r: Option<LocalDateTime>)
    ensures
        r == naive_date_parse(text@, fmt@),
        r matches Some(t) ==> t.wf() && t.hour == 0 && t.minute == 0 && t.second == 0,
{
    match chrono::NaiveDate::parse_from_str(text, fmt) {
        Ok(d) => Some(LocalDateTime { year: d.year(), month: d.month(), day: d.day(), hour: 0, minute: 0, second: 0 }),
        Err(_) => None,
    }
}

/// Relies on chrono's `DateTime::parse_from_rfc3339` (read through
/// `naive_local`, which cannot leave the range for a four-digit RFC 3339
/// year): the result depends on the text alone and is a valid date and time.
#[verifier::external_body]
pub(crate) fn parse_rfc3339(text: &str) -> (r: Option<LocalDateTime>)
    ensures
        r == rfc3339_parse(text@),
        r matches Some(t) ==> t.wf(),
{
    match chrono::DateTime::parse_from_rfc3339(text) {
        Ok(z) => {
            let d = z.naive_local();
            Some(LocalDateTime { year: d.year(), month: d.month(), day: d.day(), hour: d.hour(), minute: d.minute(), second: d.second() })
        },
        Err(_) => None,
    }
}

/// Relies on chrono's `Local::now`: the current wall-clock time, which is a
/// valid value.
#[verifier::external_body]
pub(crate) fn local_now() -> (r: LocalDateTime)
    ensures
        r.wf(),
{
    let d = chrono::Local::now().naive_local();
    LocalDateTime { year: d.year(), month: d.month(), day: d.day(), hour: d.hour(), minute: d.minute(), second: d.second() }
}

/// Relies on chrono's `NaiveDateTime::format`: `%Y` writes a year of
/// 0..=9999 as four digits, and `%m`, `%d`, `%H`, `%M`, `%S` write two.
#[verifier::external_body]
pub(crate) fn format_time(t: &LocalDateTime, fmt: &str) -> (r: String)
    requires
        t.wf(),
        fmt@ == TIME_TEXT_FORMAT@,
    ensures
        0 <= t.year <= 9999 ==> r@ == time_text(*t),
{
    let d = chrono::NaiveDate::from_ymd_opt(t.year, t.month, t.day).unwrap();
    d.and_hms_opt(t.hour, t.minute, t.second).unwrap().format(fmt).to_string()
}

/// Relies on chrono's `DateTime::timestamp` (of `and_utc`): the count of
/// non-leap seconds since 1970-01-01 00:00:00 UTC.
#[verifier::external_body]
pub(crate) fn utc_timestamp(t: &LocalDateTime) -> (r: i64)
    requires
        t.wf(),
    ensures
        r == t.epoch_seconds(),
{
    let d = chrono::NaiveDate::from_ymd_opt(t.year, t.month, t.day).unwrap();
    d.and_hms_opt(t.hour, t.minute, t.second).unwrap().and_utc().timestamp()
}

/// Whether some valid value lies `secs` seconds after 1970-01-01 00:00:00.
pub open spec fn in_calendar_range(secs: int) -> bool {
    exists|t: LocalDateTime| t.wf() && #[trigger] t.epoch_seconds() == secs
}

/// Relies on chrono's `DateTime::from_timestamp` (read through `naive_utc`):
/// the UTC time `secs` seconds after 1970-01-01 00:00:00, which it gives
/// whenever that day lies in `NaiveDate`'s range (the range of `wf`).
#[verifier::external_body]
pub(crate) fn from_utc_timestamp(secs: i64) -> (r: Option<LocalDateTime>)
    ensures
        r matches Some(t) ==> t.wf() && t.epoch_seconds() == secs,
        in_calendar_range(secs as int) ==> r is Some,
{
    match chrono::DateTime::from_timestamp(secs, 0) {
        Some(z) => {
            let d = z.naive_utc();
            Some(LocalDateTime { year: d.year(), month: d.month(), day: d.day(), hour: d.hour(), minute: d.minute(), second: d.second() })
        },
        None => None,
    }
}

} // verus!
