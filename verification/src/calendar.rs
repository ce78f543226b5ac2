//! The calls into `chrono`: reading dates and times from text, writing them
//! as text, and reading the clock.
use crate::model::{Date, DateTime};
use crate::text::{decimal, digit_char};
use chrono::{Datelike, Timelike};
use vstd::prelude::*;

verus! {

/// What `chrono::NaiveDateTime::parse_from_str(s, fmt)` gives: the date and
/// time read, or the text of the parse error.
pub uninterp spec fn chrono_datetime_parse(s: Seq<char>, fmt: Seq<char>) -> Result<DateTime, Seq<char>>;

/// What `chrono::NaiveDate::parse_from_str(s, fmt)` gives, if it succeeds.
pub uninterp spec fn chrono_date_parse(s: Seq<char>, fmt: Seq<char>) -> Option<Date>;

/// The last `k` decimal digits of `n`, with leading zeros.
pub open spec fn padded(n: int, k: nat) -> Seq<char>
    decreases k,
{
    if k == 0 {
        Seq::empty()
    } else {
        padded(n / 10, (k - 1) as nat) + seq![digit_char(n % 10)]
    }
}

/// The year as `Display` of a date writes it: four digits in 0..=9999, else a
/// sign and at least four digits.
pub open spec fn year_text(y: int) -> Seq<char> {
    if 0 <= y <= 9999 {
        padded(y, 4)
    } else {
        let a = if y < 0 {
            -y
        } else {
            y
        };
        seq![
            if y < 0 {
                '-'
            } else {
                '+'
            },
        ] + if a < 10000 {
            padded(a, 4)
        } else {
            decimal(a as nat)
        }
    }
}

/// The fraction of a second as `Display` of a time writes it: nothing for
/// none, else a dot and 3, 6 or 9 digits, the fewest that keep every digit.
pub open spec fn fraction_text(nano: int) -> Seq<char> {
    if nano == 0 {
        Seq::empty()
    } else if nano % 1_000_000 == 0 {
        seq!['.'] + padded(nano / 1_000_000, 3)
    } else if nano % 1_000 == 0 {
        seq!['.'] + padded(nano / 1_000, 6)
    } else {
        seq!['.'] + padded(nano, 9)
    }
}

/// The text that `Display` of `chrono::NaiveDateTime` writes: the date as
/// year-month-day, a space, the time as hours:minutes:seconds with a leap
/// second shown as second 60, then the fraction.
pub open spec fn datetime_text(d: DateTime) -> Seq<char> {
    let leap = d.nanosecond >= 1_000_000_000;
    let sec: int = if leap {
        d.second + 1
    } else {
        d.second as int
    };
    let nano: int = if leap {
        d.nanosecond - 1_000_000_000
    } else {
        d.nanosecond as int
    };
    year_text(d.date.year as int) + seq!['-'] + padded(d.date.month as int, 2) + seq!['-']
        + padded(d.date.day as int, 2) + seq![' '] + padded(d.hour as int, 2) + seq![':']
        + padded(d.minute as int, 2) + seq![':'] + padded(sec, 2) + fraction_text(nano)
}

/// `v` is the `Display` text of the valid date and time `d`.
pub open spec fn shown_as(d: DateTime, v: Seq<char>) -> bool {
    d.wf() && datetime_text(d) == v
}

/// `v` is the `Display` text of some valid date and time.
pub open spec fn is_shown_text(v: Seq<char>) -> bool {
    exists|d: DateTime| shown_as(d, v)
}

/// The format in which stored times are read: the `Display` format.
pub open spec fn stored_time_fmt() -> Seq<char> {
    "%Y-%m-%d %H:%M:%S%.f"@
}

/// Calls `chrono::NaiveDateTime::parse_from_str`. Claimed: the result is the
/// named result of the call on `s` and `fmt`, with the error turned into its
/// `Display` text, and a date and time read exist in the calendar (a
/// `NaiveDateTime` always holds a valid one). With the `Display` format
/// `%Y-%m-%d %H:%M:%S%.f`, also claimed: the `Display` text of a valid date
/// and time reads back as that date and time (`%Y` reads four digits, or a
/// sign and any number of digits, `%S` reads second 60 as a leap second, `%.f`
/// reads an optional fraction of any length up to nine digits), and the text
/// `None` is not read (`%Y` wants a digit or a sign).
#[verifier::external_body]
pub(crate) fn parse_datetime(s: &str, fmt: &str) -> (r: Result<DateTime, String>)
    ensures
        match r {
            Ok(d) => chrono_datetime_parse(s@, fmt@) == Ok::<DateTime, Seq<char>>(d) && d.wf(),
            Err(e) => chrono_datetime_parse(s@, fmt@) == Err::<DateTime, Seq<char>>(e@),
        },
        match r {
            Ok(x) => fmt@ == stored_time_fmt() && is_shown_text(s@) ==> shown_as(x, s@),
            Err(_) => !(fmt@ == stored_time_fmt() && is_shown_text(s@)),
        },
        fmt@ == stored_time_fmt() && s@ == "None"@ ==> r is Err,
{
    match chrono::NaiveDateTime::parse_from_str(s, fmt) {
        Ok(d) => Ok(DateTime {
            date: Date { year: d.year(), month: d.month(), day: d.day() },
            hour: d.hour(),
            minute: d.minute(),
            second: d.second(),
            nanosecond: d.nanosecond(),
        }),
        Err(e) => Err(e.to_string()),
    }
}

/// Calls `chrono::NaiveDate::parse_from_str`. Claimed: the result is the named
/// result of the call on `s` and `fmt`, and a date read exists in the calendar.
#[verifier::external_body]
pub(crate) fn parse_date(s: &str, fmt: &str) -> (r: Option<Date>)
    ensures
        r == chrono_date_parse(s@, fmt@),
        r matches Some(d) ==> d.wf(),
{
    match chrono::NaiveDate::parse_from_str(s, fmt) {
        Ok(d) => Some(Date { year: d.year(), month: d.month(), day: d.day() }),
        Err(_) => None,
    }
}

/// Builds the `chrono::NaiveDateTime` of `dt` (which exists, by `requires`) and
/// calls its `Display`. Claimed: the text is the one `datetime_text` states,
/// as `Debug` of `NaiveDate` and of `NaiveTime` write it.
#[verifier::external_body]
pub(crate) fn display_datetime(dt: &DateTime) -> (r: String)
    requires
        dt.wf(),
    ensures
        r@ == datetime_text(*dt),
{
    let d = chrono::NaiveDate::from_ymd_opt(dt.date.year, dt.date.month, dt.date.day).unwrap();
    d.and_hms_nano_opt(dt.hour, dt.minute, dt.second, dt.nanosecond).unwrap().to_string()
}

/// Calls `chrono::Local::now().naive_local()`, the local date and time.
/// Claimed: only that it exists in the calendar; which instant comes back
/// depends on the clock and the time zone, and nothing more is said of it.
#[verifier::external_body]
pub fn now() -> (r: DateTime)
    ensures
        r.wf(),
{
    let d = chrono::Local::now().naive_local();
    DateTime {
        date: Date { year: d.year(), month: d.month(), day: d.day() },
        hour: d.hour(),
        minute: d.minute(),
        second: d.second(),
        nanosecond: d.nanosecond(),
    }
}

} // verus!
