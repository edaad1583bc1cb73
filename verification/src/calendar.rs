//! Calendar dates: which dates exist, the billing windows built from the
//! current date, and the text shown for a reading's period.

use vstd::prelude::*;
use chrono::{Datelike, NaiveDate};
use crate::text::{decimal, push_decimal, push_zero_padded, zero_padded};

verus! {

/// A calendar date in the proleptic Gregorian calendar.
#[derive(Clone, Copy, Debug, PartialEq, Eq, Structural)]
pub struct CalendarDate {
    pub year: i32,
    pub month: u32,
    pub day: u32,
}

/// A point in time as stored with a record (date and time of day).
#[derive(Clone, Copy, Debug, PartialEq, Eq, Structural)]
pub struct Timestamp {
    pub year: i32,
    pub month: u32,
    pub day: u32,
    pub hour: u32,
    pub minute: u32,
    pub second: u32,
    pub nanosecond: u32,
}

/// Smallest year that `chrono::NaiveDate` represents.
pub const MIN_DATE_YEAR: i32 = -262143;

/// Largest year that `chrono::NaiveDate` represents.
pub const MAX_DATE_YEAR: i32 = 262142;

/// Gregorian leap years (years are astronomical: year 0 is 1 BCE).
pub open spec fn is_leap_year(year: int) -> bool {
    year % 4 == 0 && (year % 100 != 0 || year % 400 == 0)
}

/// Number of days in `month` of `year`.
pub open spec fn days_in_month(year: int, month: int) -> int {
    if month == 2 {
        if is_leap_year(year) { 29 } else { 28 }
    } else if month == 4 || month == 6 || month == 9 || month == 11 {
        30
    } else {
        31
    }
}

/// Whether `(year, month, day)` names a date that `chrono::NaiveDate`
/// represents.
pub open spec fn valid_ymd(year: int, month: int, day: int) -> bool {
    &&& MIN_DATE_YEAR <= year <= MAX_DATE_YEAR
    &&& 1 <= month <= 12
    &&& 1 <= day <= days_in_month(year, month)
}

impl Timestamp {
    /// Whether this value names a date and time of day that
    /// `chrono::NaiveDateTime` represents (a nanosecond count of a second
    /// or more stands for a leap second and needs second 59).
    pub open spec fn valid(self) -> bool {
        &&& valid_ymd(self.year as int, self.month as int, self.day as int)
        &&& self.hour < 24
        &&& self.minute < 60
        &&& self.second < 60
        &&& self.nanosecond < 2_000_000_000
        &&& self.nanosecond >= 1_000_000_000 ==> self.second == 59
    }

    /// Whether this value names a date and time of day that chrono
    /// represents.
    pub fn is_valid(&self) -> (r: bool)
        ensures
            r == self.valid(),
    {
        date_from_ymd(self.year, self.month, self.day).is_some()
            && self.hour < 24
            && self.minute < 60
            && self.second < 60
            && self.nanosecond < 2_000_000_000
            && (self.nanosecond < 1_000_000_000 || self.second == 59)
    }
}

/// A number below 100 written with two digits.
pub open spec fn two_digits(n: int) -> Seq<char> {
    zero_padded(decimal(n as nat), 2)
}

/// The fraction of a second as chrono writes it: nothing for zero
/// nanoseconds, otherwise a point followed by milliseconds, microseconds
/// or nanoseconds (3, 6 or 9 digits), the shortest that is exact.
pub open spec fn fraction_text(nano: int) -> Seq<char> {
    if nano == 0 {
        Seq::empty()
    } else if nano % 1_000_000 == 0 {
        seq!['.'] + zero_padded(decimal((nano / 1_000_000) as nat), 3)
    } else if nano % 1_000 == 0 {
        seq!['.'] + zero_padded(decimal((nano / 1_000) as nat), 6)
    } else {
        seq!['.'] + zero_padded(decimal(nano as nat), 9)
    }
}

/// What `Display` of `chrono::NaiveDateTime` writes for the given date and
/// time of day: the year as `%Y`, then `-MM-DD HH:MM:SS` and the fraction of
/// the second; a nanosecond count of a second or more (a leap second) is
/// written as second 60 with the rest as fraction.
pub open spec fn datetime_display(
    year: int,
    month: int,
    day: int,
    hour: int,
    minute: int,
    second: int,
    nanosecond: int,
) -> Seq<char> {
    let (sec, nano) = if nanosecond >= 1_000_000_000 {
        (second + 1, nanosecond - 1_000_000_000)
    } else {
        (second, nanosecond)
    };
    year_text(year) + seq!['-'] + two_digits(month) + seq!['-'] + two_digits(day) + seq![' ']
        + two_digits(hour) + seq![':'] + two_digits(minute) + seq![':'] + two_digits(sec)
        + fraction_text(nano)
}

/// The text of a timestamp, as `chrono::NaiveDateTime` displays it.
pub open spec fn timestamp_text_spec(t: Timestamp) -> Seq<char> {
    datetime_display(
        t.year as int,
        t.month as int,
        t.day as int,
        t.hour as int,
        t.minute as int,
        t.second as int,
        t.nanosecond as int,
    )
}

/// Builds the `chrono::NaiveDateTime` of the given fields (with
/// `NaiveDate::from_ymd_opt` and `and_hms_nano_opt`, which return a value on
/// such fields) and writes it with its `Display` (`to_string`), whose text
/// `datetime_display` states (chrono's `Display` of `NaiveDate` and
/// `NaiveTime`, joined by a space).
#[verifier::external_body]
fn chrono_datetime_text(
    year: i32,
    month: u32,
    day: u32,
    hour: u32,
    minute: u32,
    second: u32,
    nanosecond: u32,
) -> (r: String)
    requires
        (Timestamp { year, month, day, hour, minute, second, nanosecond }).valid(),
    ensures
        r@ == datetime_display(
            year as int,
            month as int,
            day as int,
            hour as int,
            minute as int,
            second as int,
            nanosecond as int,
        ),
{
    let date = NaiveDate::from_ymd_opt(year, month, day).unwrap();
    date.and_hms_nano_opt(hour, minute, second, nanosecond).unwrap().to_string()
}

/// The text of a timestamp (`2024-01-05 10:30:00`), as chrono displays it.
pub fn timestamp_text(t: Timestamp) -> (r: String)
    requires
        t.valid(),
    ensures
        r@ == timestamp_text_spec(t),
{
    chrono_datetime_text(t.year, t.month, t.day, t.hour, t.minute, t.second, t.nanosecond)
}

impl CalendarDate {
    /// Whether this value names an existing date.
    pub open spec fn valid(self) -> bool {
        valid_ymd(self.year as int, self.month as int, self.day as int)
    }
}

/// Calls `chrono::NaiveDate::from_ymd_opt`, which documents that it returns
/// `None` exactly when the day does not exist in the month, the month or
/// day is out of range, or the year is outside the range of `NaiveDate`
/// (`MIN_DATE_YEAR..=MAX_DATE_YEAR` in the source). This wrapper reports
/// whether it returned a date.
#[verifier::external_body]
fn chrono_accepts_ymd(year: i32, month: u32, day: u32) -> (r: bool)
    ensures
        r == valid_ymd(year as int, month as int, day as int),
{
    NaiveDate::from_ymd_opt(year, month, day).is_some()
}

/// The date `year-month-day`, or `None` where no such date exists (as
/// `NaiveDate::from_ymd_opt`).
pub fn date_from_ymd(year: i32, month: u32, day: u32) -> (r: Option<CalendarDate>)
    ensures
        r == (if valid_ymd(year as int, month as int, day as int) {
            Some(CalendarDate { year, month, day })
        } else {
            None
        }),
{
    if chrono_accepts_ymd(year, month, day) {
        Some(CalendarDate { year, month, day })
    } else {
        None
    }
}

/// Year and month five months before `year`/`month`.
pub open spec fn five_months_before(year: int, month: int) -> (int, int) {
    if month <= 5 {
        (year - 1, month + 12 - 5)
    } else {
        (year, month - 5)
    }
}

/// The cut-off date for defaulting payments: the 30th of the month five
/// months before the current one, or `None` where that month has no 30th
/// (February).
pub open spec fn defaulting_date_spec(year: int, month: int) -> Option<CalendarDate> {
    let (y, m) = five_months_before(year, month);
    if valid_ymd(y, m, 30) {
        Some(CalendarDate { year: y as i32, month: m as u32, day: 30 })
    } else {
        None
    }
}

/// The cut-off date for defaulting payments, for the current `year` and
/// `month` (`1..=12`).
pub fn defaulting_date(year: i32, month: u32) -> (r: Option<CalendarDate>)
    requires
        1 <= month <= 12,
        month <= 5 ==> year > i32::MIN,
    ensures
        r == defaulting_date_spec(year as int, month as int),
        r is Some <==> cut_off_exists(year as int, month as int),
        r matches Some(d) ==> d == cut_off_of(year as int, month as int),
{
    if month <= 5 {
        let default_month = month + 12 - 5;
        let default_year = year - 1;
        date_from_ymd(default_year, default_month, 30)
    } else {
        date_from_ymd(year, month - 5, 30)
    }
}

/// Law: the defaulting cut-off lies exactly five months before the current
/// month, on its 30th day.
pub proof fn law_defaulting_date_is_five_months_back(year: int, month: int)
    requires
        1 <= month <= 12,
    ensures
        defaulting_date_spec(year, month) matches Some(d) ==> {
            &&& d.year * 12 + d.month == year * 12 + month - 5
            &&& 1 <= d.month <= 12
            &&& d.day == 30
        },
        defaulting_date_spec(year, month) is None ==> five_months_before(year, month).1 == 2
            || !(MIN_DATE_YEAR <= five_months_before(year, month).0 <= MAX_DATE_YEAR),
{
}

/// The window of the month to date: from the first of the current month to
/// today.
pub fn month_to_date(year: i32, month: u32, day: u32) -> (r: (CalendarDate, CalendarDate))
    requires
        valid_ymd(year as int, month as int, day as int),
    ensures
        r.0 == (CalendarDate { year, month, day: 1 }),
        r.1 == (CalendarDate { year, month, day }),
{
    let start = date_from_ymd(year, month, 1);
    let end = date_from_ymd(year, month, day);
    (start.unwrap(), end.unwrap())
}

/// The English name of `month` (`1..=12`), as chrono's `%B` writes it.
pub open spec fn month_name(month: int) -> Seq<char> {
    if month == 1 { "January"@ }
    else if month == 2 { "February"@ }
    else if month == 3 { "March"@ }
    else if month == 4 { "April"@ }
    else if month == 5 { "May"@ }
    else if month == 6 { "June"@ }
    else if month == 7 { "July"@ }
    else if month == 8 { "August"@ }
    else if month == 9 { "September"@ }
    else if month == 10 { "October"@ }
    else if month == 11 { "November"@ }
    else { "December"@ }
}

/// The year as chrono's `%Y` writes it: zero-padded to four digits, with a
/// sign before years below 0 or above 9999.
pub open spec fn year_text(year: int) -> Seq<char> {
    if 0 <= year <= 9999 {
        zero_padded(decimal(year as nat), 4)
    } else if year > 9999 {
        seq!['+'] + decimal(year as nat)
    } else {
        seq!['-'] + zero_padded(decimal((-year) as nat), 4)
    }
}

fn month_name_text(month: u32) -> (r: &'static str)
    requires
        1 <= month <= 12,
    ensures
        r@ == month_name(month as int),
{
    if month == 1 { "January" }
    else if month == 2 { "February" }
    else if month == 3 { "March" }
    else if month == 4 { "April" }
    else if month == 5 { "May" }
    else if month == 6 { "June" }
    else if month == 7 { "July" }
    else if month == 8 { "August" }
    else if month == 9 { "September" }
    else if month == 10 { "October" }
    else if month == 11 { "November" }
    else { "December" }
}

fn push_year(out: &mut String, year: i32)
    ensures
        final(out)@ == old(out)@ + year_text(year as int),
{
    if 0 <= year && year <= 9999 {
        push_zero_padded(out, year as u64, 4);
    } else if year > 9999 {
        proof { reveal_strlit("+"); }
        out.append("+");
        push_decimal(out, year as u64);
        assert(final(out)@ =~= old(out)@ + year_text(year as int)) by {
            assert(year_text(year as int) == seq!['+'] + decimal(year as nat));
        };
    } else {
        proof { reveal_strlit("-"); }
        out.append("-");
        let magnitude = (0i64 - year as i64) as u64;
        push_zero_padded(out, magnitude, 4);
        assert(final(out)@ =~= old(out)@ + year_text(year as int));
    }
}

/// Text shown for a reading's billing period: when `parsed` holds the date
/// read from the period, the month name and year (`"July 2001"`);
/// otherwise the period as stored.
pub open spec fn period_label(period: Seq<char>, parsed: Option<CalendarDate>) -> Seq<char> {
    match parsed {
        Some(d) => month_name(d.month as int) + seq![' '] + year_text(d.year as int),
        None => period,
    }
}

/// The label of a reading's period, given the date read from it (if any).
pub fn describe_period(period: &str, parsed: Option<CalendarDate>) -> (r: String)
    requires
        parsed matches Some(d) ==> 1 <= d.month <= 12,
    ensures
        r@ == period_label(period@, parsed),
{
    match parsed {
        Some(d) => {
            let mut out = String::from_str(month_name_text(d.month));
            proof { reveal_strlit(" "); }
            out.append(" ");
            push_year(&mut out, d.year);
            out
        },
        None => String::from_str(period),
    }
}

/// What `chrono::NaiveDate::parse_from_str(text, "%Y-%m-%d")` gives for
/// `text`, as (year, month, day).
pub uninterp spec fn iso_date_parse(text: Seq<char>) -> Option<(int, int, int)>;

/// The date that `iso_date_parse` names, as a `CalendarDate`.
pub open spec fn parsed_date(text: Seq<char>) -> Option<CalendarDate> {
    match iso_date_parse(text) {
        Some((y, m, d)) => Some(CalendarDate { year: y as i32, month: m as u32, day: d as u32 }),
        None => None,
    }
}

/// Calls `chrono::NaiveDate::parse_from_str(text, "%Y-%m-%d")` and returns
/// the year, month and day of the date it reads, `None` where it reports an
/// error. The contract names the outcome `iso_date_parse(text)` and adds one
/// fact that chrono documents: a date it reads exists.
#[verifier::external_body]
fn chrono_parse_iso_date(text: &str) -> (r: Option<CalendarDate>)
    ensures
        match r {
            Some(d) => iso_date_parse(text@) == Some((d.year as int, d.month as int, d.day as int))
                && d.valid(),
            None => iso_date_parse(text@) is None,
        },
{
    NaiveDate::parse_from_str(text, "%Y-%m-%d").ok().map(
        |d| CalendarDate { year: d.year(), month: d.month(), day: d.day() },
    )
}

/// The label of a reading's period: `"<Month> <Year>"` when the period reads
/// as a `%Y-%m-%d` date, the period itself otherwise.
pub fn format_period(period: &str) -> (r: String)
    ensures
        r@ == period_label(period@, parsed_date(period@)),
{
    let parsed = chrono_parse_iso_date(period);
    describe_period(period, parsed)
}


/// The year of the month five months before `year`/`month`, counted on the
/// running month number `year * 12 + (month - 1)`.
pub open spec fn months_back_year(year: int, month: int) -> int {
    (year * 12 + month - 1 - 5) / 12
}

/// The month (`1..=12`) five months before `year`/`month`, counted on the
/// running month number.
pub open spec fn months_back_month(year: int, month: int) -> int {
    (year * 12 + month - 1 - 5) % 12 + 1
}

/// Whether the defaulting cut-off exists: the month five months back is not
/// February and its year lies in chrono's range.
pub open spec fn cut_off_exists(year: int, month: int) -> bool {
    &&& months_back_month(year, month) != 2
    &&& MIN_DATE_YEAR <= months_back_year(year, month) <= MAX_DATE_YEAR
}

/// The 30th of the month five months back.
pub open spec fn cut_off_of(year: int, month: int) -> CalendarDate {
    CalendarDate {
        year: months_back_year(year, month) as i32,
        month: months_back_month(year, month) as u32,
        day: 30,
    }
}

/// Law: for every current month, the defaulting cut-off is the 30th of the
/// month five months back (computed on the running month number), and there
/// is none only when that month is February or its year is outside
/// chrono's range.
pub proof fn law_defaulting_cut_off(year: int, month: int)
    requires
        1 <= month <= 12,
    ensures
        defaulting_date_spec(year, month) is Some <==> cut_off_exists(year, month),
        defaulting_date_spec(year, month) matches Some(d) ==> {
            &&& d.year == months_back_year(year, month)
            &&& d.month == months_back_month(year, month)
            &&& d.day == 30
        },
{
    let k = year * 12 + month - 1 - 5;
    if month <= 5 {
        assert(k == (year - 1) * 12 + (month + 12 - 5 - 1));
        assert(k / 12 == year - 1);
        assert(k % 12 == month + 12 - 5 - 1);
    } else {
        assert(k == year * 12 + (month - 5 - 1));
        assert(k / 12 == year);
        assert(k % 12 == month - 5 - 1);
    }
}

/// The English month names in calendar order, as chrono's `%B` writes
/// them (`long_months` of its default locale).
pub open spec fn english_month_names() -> Seq<Seq<char>> {
    seq![
        "January"@, "February"@, "March"@, "April"@, "May"@, "June"@,
        "July"@, "August"@, "September"@, "October"@, "November"@, "December"@,
    ]
}

/// Law: a period label names month `m` by the `m`-th English month name,
/// for every month, and no two months share a name.
pub proof fn law_month_names(m: int, n: int)
    requires
        1 <= m <= 12,
        1 <= n <= 12,
    ensures
        month_name(m) == english_month_names()[m - 1],
        m != n ==> month_name(m) != month_name(n),
{
    reveal_strlit("January");
    reveal_strlit("February");
    reveal_strlit("March");
    reveal_strlit("April");
    reveal_strlit("May");
    reveal_strlit("June");
    reveal_strlit("July");
    reveal_strlit("August");
    reveal_strlit("September");
    reveal_strlit("October");
    reveal_strlit("November");
    reveal_strlit("December");
    if m != n && month_name(m) == month_name(n) {
        assert(month_name(m).len() == month_name(n).len());
        assert(month_name(m)[0] == month_name(n)[0]);
        assert(month_name(m)[1] == month_name(n)[1]);
        assert(month_name(m)[2] == month_name(n)[2]);
    }
}

} // verus!
