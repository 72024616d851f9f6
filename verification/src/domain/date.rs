use vstd::prelude::*;

use crate::text::spec_nat_digits;

verus! {

/// The earliest year a calendar date can have: the earliest that chrono's
/// `NaiveDate` holds.
pub const MIN_YEAR: i32 = -262143;

/// The latest year a calendar date can have: the latest that chrono's
/// `NaiveDate` holds.
pub const MAX_YEAR: i32 = 262142;

/// Whether `y` is a leap year of the proleptic Gregorian calendar.
pub open spec fn is_leap_year(y: int) -> bool {
    (y % 4 == 0 && y % 100 != 0) || y % 400 == 0
}

/// The number of days of month `m` (1 to 12) in year `y`.
pub open spec fn days_in_month(y: int, m: int) -> int {
    if m == 2 {
        if is_leap_year(y) {
            29
        } else {
            28
        }
    } else if m == 4 || m == 6 || m == 9 || m == 11 {
        30
    } else {
        31
    }
}

/// Whether year `y`, month `m` and day `d` name a day that a calendar date holds.
pub open spec fn valid_ymd(y: int, m: int, d: int) -> bool {
    &&& MIN_YEAR <= y <= MAX_YEAR
    &&& 1 <= m <= 12
    &&& 1 <= d <= days_in_month(y, m)
}

/// The days of year `y` before the first day of month `m`.
pub open spec fn days_before_month(y: int, m: int) -> int
    decreases m,
{
    if m <= 1 {
        0
    } else {
        days_before_month(y, m - 1) + days_in_month(y, m - 1)
    }
}

/// The day number of year `y`, month `m`, day `d` in the proleptic Gregorian
/// calendar: 1 January of year 1 is day 1, and each day after is one more.
pub open spec fn days_from_ce(y: int, m: int, d: int) -> int {
    let p = y - 1;
    365 * p + p / 4 - p / 100 + p / 400 + days_before_month(y, m) + d
}

/// The day number of a date given as (year, month, day).
pub open spec fn day_number_of(t: (int, int, int)) -> int {
    days_from_ce(t.0, t.1, t.2)
}

/// Whether date `a` comes before date `b` in the calendar: an earlier year,
/// or the same year and an earlier month, or the same month and an earlier day.
pub open spec fn date_before(a: (int, int, int), b: (int, int, int)) -> bool {
    ||| a.0 < b.0
    ||| a.0 == b.0 && a.1 < b.1
    ||| a.0 == b.0 && a.1 == b.1 && a.2 < b.2
}

/// The days before year `y`, counted from 1 January of year 1.
spec fn days_before_year(y: int) -> int {
    let p = y - 1;
    365 * p + p / 4 - p / 100 + p / 400
}

proof fn lemma_floor_step(y: int, k: int)
    requires
        k == 4 || k == 100 || k == 400,
    ensures
        y / k - (y - 1) / k == (if y % k == 0 { 1int } else { 0int }),
{
}

/// A year has 365 days, 366 in a leap year.
proof fn lemma_year_length(y: int)
    ensures
        days_before_year(y + 1) == days_before_year(y) + 365 + (if is_leap_year(y) { 1int } else { 0int }),
        days_before_month(y, 12) + 31 == 365 + (if is_leap_year(y) { 1int } else { 0int }),
{
    lemma_floor_step(y, 4);
    lemma_floor_step(y, 100);
    lemma_floor_step(y, 400);
    assert(y % 400 == 0 ==> y % 100 == 0 && y % 4 == 0);
    assert(y % 100 == 0 ==> y % 4 == 0);
    reveal_with_fuel(days_before_month, 12);
}

/// Within a year, the days before a month grow with the month, by at least
/// the length of the months between.
proof fn lemma_month_order(y: int, m1: int, m2: int)
    requires
        1 <= m1 < m2 <= 12,
    ensures
        days_before_month(y, m1) + days_in_month(y, m1) <= days_before_month(y, m2),
    decreases m2 - m1,
{
    if m2 > m1 + 1 {
        lemma_month_order(y, m1, m2 - 1);
    }
}

/// A valid date falls within its year's days.
proof fn lemma_within_year(y: int, m: int, d: int)
    requires
        1 <= m <= 12,
        1 <= d <= days_in_month(y, m),
    ensures
        1 <= days_before_month(y, m) + d <= days_before_month(y, 12) + 31,
{
    if m < 12 {
        lemma_month_order(y, m, 12);
    }
    lemma_month_nonneg(y, m);
}

proof fn lemma_month_nonneg(y: int, m: int)
    ensures
        days_before_month(y, m) >= 0,
    decreases m,
{
    if m > 1 {
        lemma_month_nonneg(y, m - 1);
    }
}

/// A later year starts after every day of an earlier year.
proof fn lemma_year_order(y1: int, y2: int)
    requires
        y1 < y2,
    ensures
        days_before_year(y1) + days_before_month(y1, 12) + 31 <= days_before_year(y2),
    decreases y2 - y1,
{
    lemma_year_length(y1);
    if y2 > y1 + 1 {
        lemma_year_order(y1 + 1, y2);
        lemma_year_length(y1 + 1);
    }
}

/// Ordering dates by the calendar is ordering them by day number: a date
/// before another has the smaller day number, and two dates share a day
/// number only when they are the same date.
pub proof fn law_day_number_order(a: (int, int, int), b: (int, int, int))
    requires
        valid_ymd(a.0, a.1, a.2),
        valid_ymd(b.0, b.1, b.2),
    ensures
        date_before(a, b) <==> day_number_of(a) < day_number_of(b),
        a == b <==> day_number_of(a) == day_number_of(b),
{
    assert forall|x: (int, int, int), z: (int, int, int)|
        valid_ymd(x.0, x.1, x.2) && valid_ymd(z.0, z.1, z.2) && #[trigger] date_before(x, z)
        implies day_number_of(x) < day_number_of(z) by {
        lemma_within_year(x.0, x.1, x.2);
        lemma_within_year(z.0, z.1, z.2);
        assert(day_number_of(x) == days_before_year(x.0) + days_before_month(x.0, x.1) + x.2);
        assert(day_number_of(z) == days_before_year(z.0) + days_before_month(z.0, z.1) + z.2);
        if x.0 < z.0 {
            lemma_year_order(x.0, z.0);
        } else if x.1 < z.1 {
            lemma_month_order(x.0, x.1, z.1);
        }
    }
    if !date_before(a, b) && !date_before(b, a) {
        assert(a == b);
    }
}

/// `n` in decimal, with zeros in front up to `width` characters.
pub open spec fn zero_padded(n: nat, width: nat) -> Seq<char> {
    let digits = spec_nat_digits(n);
    if digits.len() < width {
        Seq::new((width - digits.len()) as nat, |i: int| '0') + digits
    } else {
        digits
    }
}

/// A year as `%Y` writes it: four digits with zeros in front from 0 to 9999,
/// and outside that range a sign ('-' or '+') before at least four digits.
pub open spec fn year_text(y: int) -> Seq<char> {
    if 0 <= y <= 9999 {
        zero_padded(y as nat, 4)
    } else if y < 0 {
        seq!['-'] + zero_padded((-y) as nat, 4)
    } else {
        seq!['+'] + zero_padded(y as nat, 4)
    }
}

/// A date written `YYYY-MM-DD`: the year as `year_text`, then month and day
/// as two digits each, joined by '-'.
pub open spec fn ymd_text(t: (int, int, int)) -> Seq<char> {
    year_text(t.0) + seq!['-'] + zero_padded(t.1 as nat, 2) + seq!['-'] + zero_padded(
        t.2 as nat,
        2,
    )
}

/// The date, as (year, month, day), whose day number is `n`.
pub open spec fn date_of_day_number(n: int) -> (int, int, int) {
    choose|t: (int, int, int)| valid_ymd(t.0, t.1, t.2) && day_number_of(t) == n
}

/// The day number of the UTC day that `micros` microseconds after
/// 1970-01-01 00:00 UTC fall in (1970-01-01 is day 719163).
pub open spec fn utc_day_number(micros: int) -> int {
    micros / 86_400_000_000 + 719163
}

/// Whether the UTC day of `micros` is a day a calendar date holds.
pub open spec fn utc_representable(micros: int) -> bool {
    day_number_of((MIN_YEAR as int, 1, 1)) <= utc_day_number(micros) <= day_number_of(
        (MAX_YEAR as int, 12, 31),
    )
}

/// Whether the UTC day of `micros` lies a day or more inside the calendar's
/// days, so that moving by less than a day stays inside them.
pub open spec fn utc_well_inside(micros: int) -> bool {
    day_number_of((MIN_YEAR as int, 1, 1)) < utc_day_number(micros) < day_number_of(
        (MAX_YEAR as int, 12, 31),
    )
}

/// The minute that `micros` microseconds after 1970-01-01 00:00 UTC fall
/// in, written `YYYY-MM-DD HH:MM` in UTC: the date as `ymd_text`, a space,
/// then hour and minute as two digits each, joined by ':'.
pub open spec fn utc_minute_text(micros: int) -> Seq<char> {
    let secs = (micros / 1_000_000) % 86400;
    ymd_text(date_of_day_number(utc_day_number(micros))) + seq![' '] + zero_padded(
        (secs / 3600) as nat,
        2,
    ) + seq![':'] + zero_padded(((secs % 3600) / 60) as nat, 2)
}

/// A day of the proleptic Gregorian calendar, held as year, month and day.
/// Dates order as the calendar does: by year, then month, then day.
#[derive(Debug, Clone, Copy, PartialEq, Eq, Structural, PartialOrd, Ord, Hash)]
pub struct CalendarDate {
    year: i32,
    month: u32,
    day: u32,
}

impl View for CalendarDate {
    type V = (int, int, int);

    /// The date as (year, month, day).
    closed spec fn view(&self) -> (int, int, int) {
        (self.year as int, self.month as int, self.day as int)
    }
}

/// chrono's `Datelike::num_days_from_ce` of the `NaiveDate` that
/// `NaiveDate::from_ymd_opt` makes of `year`, `month` and `day`: the date's day
/// number counted from 1 January of year 1 as day 1, in the proleptic
/// Gregorian calendar. `from_ymd_opt` gives a date for every valid day.
#[verifier::external_body]
fn chrono_days_from_ce(year: i32, month: u32, day: u32) -> (r: i32)
    requires
        valid_ymd(year as int, month as int, day as int),
    ensures
        r == days_from_ce(year as int, month as int, day as int),
{
    chrono::Datelike::num_days_from_ce(&chrono::NaiveDate::from_ymd_opt(year, month, day).unwrap())
}

/// chrono's `NaiveDate::format` with `%Y-%m-%d`, written out with
/// `to_string`, of the date that `NaiveDate::from_ymd_opt` makes of `year`,
/// `month` and `day`: `%Y` pads the year with zeros to four digits and puts a
/// sign before it outside 0 to 9999, `%m` and `%d` pad to two digits.
#[verifier::external_body]
fn chrono_ymd_text(year: i32, month: u32, day: u32) -> (r: String)
    requires
        valid_ymd(year as int, month as int, day as int),
    ensures
        r@ == ymd_text((year as int, month as int, day as int)),
{
    chrono::NaiveDate::from_ymd_opt(year, month, day).unwrap().format("%Y-%m-%d").to_string()
}

/// Whether `year` (within the calendar's years) is a leap year.
fn leap_year(year: i32) -> (r: bool)
    requires
        MIN_YEAR <= year <= MAX_YEAR,
    ensures
        r == is_leap_year(year as int),
{
    let shifted: u32 = (year + 400000) as u32;
    proof {
        let y = year as int;
        let s = shifted as int;
        assert(s == y + 400000);
        assert(s % 4 == y % 4 && s % 100 == y % 100 && s % 400 == y % 400) by (nonlinear_arith)
            requires
                s == y + 400000,
        ;
    }
    (shifted % 4 == 0 && shifted % 100 != 0) || shifted % 400 == 0
}

/// The number of days of `month` (1 to 12) in `year`.
fn month_length(year: i32, month: u32) -> (r: u32)
    requires
        MIN_YEAR <= year <= MAX_YEAR,
        1 <= month <= 12,
    ensures
        r == days_in_month(year as int, month as int),
{
    if month == 2 {
        if leap_year(year) {
            29
        } else {
            28
        }
    } else if month == 4 || month == 6 || month == 9 || month == 11 {
        30
    } else {
        31
    }
}

impl CalendarDate {
    #[verifier::type_invariant]
    spec fn is_valid(self) -> bool {
        valid_ymd(self.year as int, self.month as int, self.day as int)
    }

    /// The date `year-month-day`, or `None` when no such day exists in the
    /// calendar (a month outside 1 to 12, a day past the month's end, a year
    /// outside `MIN_YEAR` to `MAX_YEAR`).
    pub fn from_ymd(year: i32, month: u32, day: u32) -> (r: Option<CalendarDate>)
        ensures
            r is Some <==> valid_ymd(year as int, month as int, day as int),
            r matches Some(c) ==> c@ == (year as int, month as int, day as int),
    {
        if year < MIN_YEAR || year > MAX_YEAR || month < 1 || month > 12 || day < 1 {
            return None;
        }
        if day > month_length(year, month) {
            return None;
        }
        Some(CalendarDate { year, month, day })
    }

    /// The year.
    pub fn year(&self) -> (r: i32)
        ensures
            r == self@.0,
    {
        self.year
    }

    /// The month, 1 to 12.
    pub fn month(&self) -> (r: u32)
        ensures
            r == self@.1,
    {
        self.month
    }

    /// The day of the month, from 1.
    pub fn day(&self) -> (r: u32)
        ensures
            r == self@.2,
    {
        self.day
    }

    /// The date's day number: 1 January of year 1 is day 1.
    pub fn day_number(&self) -> (r: i32)
        ensures
            r == day_number_of(self@),
    {
        proof {
            use_type_invariant(self);
        }
        chrono_days_from_ce(self.year, self.month, self.day)
    }

    /// The date written `YYYY-MM-DD`.
    pub fn text(&self) -> (r: String)
        ensures
            r@ == ymd_text(self@),
    {
        proof {
            use_type_invariant(self);
        }
        chrono_ymd_text(self.year, self.month, self.day)
    }

    /// Whether this date comes before `other` in the calendar, found by
    /// comparing day numbers.
    pub fn is_before(&self, other: &CalendarDate) -> (r: bool)
        ensures
            r == date_before(self@, other@),
            r == (day_number_of(self@) < day_number_of(other@)),
    {
        proof {
            use_type_invariant(self);
            use_type_invariant(other);
            law_day_number_order(self@, other@);
        }
        self.day_number() < other.day_number()
    }
}

} // verus!
