//! Days of the calendar, as the feeds' queries write them.

use vstd::prelude::*;

verus! {

/// A day of the calendar.
#[derive(Debug, Clone, Copy, PartialEq, Eq, Structural)]
pub struct Date {
    pub year: i32,
    pub month: u32,
    pub day: u32,
}

/// The text `chrono` writes, year first, for the day that lies `days` days
/// after the given one (before it, where `days` is negative); `None` where
/// `chrono` knows no such day.
pub uninterp spec fn shifted_day_text(year: int, month: int, day: int, days: int) -> Option<
    Seq<char>,
>;

/// The text of the day `days` days after `date`.
pub open spec fn day_text(date: Date, days: int) -> Option<Seq<char>> {
    shifted_day_text(date.year as int, date.month as int, date.day as int, days)
}

/// `chrono::NaiveDate::checked_add_signed`, on the day that
/// `NaiveDate::from_ymd_opt` makes of `date` and with the span that
/// `TimeDelta::try_days` makes of `days`; the result is written as
/// `NaiveDate`'s `Display` writes it. `None` where one of the three gives
/// `None`. The contract only names the text.
#[verifier::external_body]
fn shifted_day(date: Date, days: i64) -> (text: Option<String>)
    ensures
        match text {
            Some(text) => shifted_day_text(
                date.year as int,
                date.month as int,
                date.day as int,
                days as int,
            ) == Some(text@),
            None => shifted_day_text(
                date.year as int,
                date.month as int,
                date.day as int,
                days as int,
            ) is None,
        },
{
    let start = chrono::NaiveDate::from_ymd_opt(date.year, date.month, date.day)?;
    let span = chrono::TimeDelta::try_days(days)?;
    Some(start.checked_add_signed(span)?.to_string())
}

/// `chrono::Local::now`, as the day of the calendar that
/// `DateTime::date_naive` makes of it where the machine stands. Nothing is
/// claimed of the day.
#[verifier::external_body]
pub(crate) fn local_today() -> (today: Date) {
    let day = chrono::Local::now().date_naive();
    Date {
        year: chrono::Datelike::year(&day),
        month: chrono::Datelike::month(&day),
        day: chrono::Datelike::day(&day),
    }
}

/// The text of the day `days` days before `date`.
pub fn day_before(date: Date, days: u32) -> (text: Option<String>)
    ensures
        match text {
            Some(text) => day_text(date, -(days as int)) == Some(text@),
            None => day_text(date, -(days as int)) is None,
        },
{
    let back: i64 = 0 - (days as i64);
    shifted_day(date, back)
}

/// The text of the day `days` days after `date`.
pub fn day_after(date: Date, days: u32) -> (text: Option<String>)
    ensures
        match text {
            Some(text) => day_text(date, days as int) == Some(text@),
            None => day_text(date, days as int) is None,
        },
{
    shifted_day(date, days as i64)
}

} // verus!
