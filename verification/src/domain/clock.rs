use vstd::prelude::*;

use crate::domain::date::{days_from_ce, valid_ymd, CalendarDate};

verus! {

/// A point in time: microseconds since the Unix epoch, in UTC.
#[derive(Debug, Clone, Copy, PartialEq, Eq, PartialOrd, Ord, Hash, Structural)]
pub struct Timestamp(pub i64);

/// The current time, from `chrono::Utc::now` (read as microseconds with
/// `DateTime::timestamp_micros`). Nothing is promised of the value: it is the clock's.
#[verifier::external_body]
pub(crate) fn now() -> (r: Timestamp) {
    Timestamp(chrono::Utc::now().timestamp_micros())
}

/// Today's date in UTC, from `chrono::Utc::now().naive_utc().date()`, read
/// with `Datelike::year`, `month` and `day`. A `NaiveDate` always names a
/// valid day; which day it is, is the clock's.
#[verifier::external_body]
fn utc_today_ymd() -> (r: (i32, u32, u32))
    ensures
        valid_ymd(r.0 as int, r.1 as int, r.2 as int),
{
    let d = chrono::Utc::now().naive_utc().date();
    (chrono::Datelike::year(&d), chrono::Datelike::month(&d), chrono::Datelike::day(&d))
}

/// Today's date in UTC: a valid calendar date; which day it is, is the clock's.
pub fn today() -> (r: CalendarDate)
    ensures
        valid_ymd(r@.0, r@.1, r@.2),
{
    let (y, m, d) = utc_today_ymd();
    CalendarDate::from_ymd(y, m, d).unwrap()
}

/// Today's day number in UTC (1 January of year 1 is day 1): the day number
/// of a valid calendar date; which day it is, is the clock's.
pub(crate) fn today_day_number() -> (r: i32)
    ensures
        exists|y: int, m: int, d: int| valid_ymd(y, m, d) && r == #[trigger] days_from_ce(y, m, d),
{
    let c = today();
    let r = c.day_number();
    assert(r == days_from_ce(c@.0, c@.1, c@.2));
    r
}

} // verus!
