//! Dates, instants and local times, with the calendar and time-zone computations of the `chrono`
//! and `chrono-tz` crates.
use vstd::prelude::*;
use crate::numeral::{
    digits, digits_value, lemma_digits, lemma_numerals_in_the_dictionary, lemma_zero_padded,
    zero_padded,
};
use crate::order::{dictionary, lemma_dictionary_parts, Key};
use crate::text::{is_digit, slashless};
use chrono::{Datelike, TimeZone, Timelike};

verus! {

pub const FIRST_YEAR: i32 = -262143;

pub const LAST_YEAR: i32 = 262142;

/// The number of the day -262143-01-01, counted from 1970-01-01.
pub const FIRST_DAY: i64 = -96465292;

/// The number of the day 262142-12-31, counted from 1970-01-01.
pub const LAST_DAY: i64 = 95026236;

pub const DAY_SECONDS: i64 = 86400;

pub open spec fn is_leap(year: int) -> bool {
    year % 4 == 0 && (year % 100 != 0 || year % 400 == 0)
}

pub open spec fn month_len(year: int, month: int) -> int {
    if month == 2 {
        if is_leap(year) {
            29
        } else {
            28
        }
    } else if month == 4 || month == 6 || month == 9 || month == 11 {
        30
    } else {
        31
    }
}

/// The three numbers are a date of the calendar.
pub open spec fn is_date(year: int, month: int, day: int) -> bool {
    &&& FIRST_YEAR <= year <= LAST_YEAR
    &&& 1 <= month <= 12
    &&& 1 <= day <= month_len(year, month)
}

/// The days of the year before a month.
pub open spec fn days_before(year: int, month: int) -> int
    decreases month,
{
    if month <= 1 {
        0
    } else {
        days_before(year, month - 1) + month_len(year, month - 1)
    }
}

/// The number of a date in its year, from 1.
pub open spec fn day_of_year(year: int, month: int, day: int) -> int {
    days_before(year, month) + day
}

/// The number of a date, counted from 1970-01-01.
pub open spec fn day_number(year: int, month: int, day: int) -> int {
    365 * (year - 1) + (year - 1) / 4 - (year - 1) / 100 + (year - 1) / 400 + day_of_year(
        year,
        month,
        day,
    ) - 719163
}

/// A year in digits, at least four; with a sign where four digits do not hold it.
pub open spec fn year_text(year: int) -> Seq<char> {
    if year > 9999 {
        seq!['+'] + digits(year as nat)
    } else if year >= 0 {
        zero_padded(digits(year as nat), 4)
    } else {
        seq!['-'] + zero_padded(digits((-year) as nat), 4)
    }
}

pub open spec fn two_digits(n: int) -> Seq<char> {
    zero_padded(digits(n as nat), 2)
}

/// A date as `2026-05-01`.
pub open spec fn date_text(year: int, month: int, day: int) -> Seq<char> {
    year_text(year) + seq!['-'] + two_digits(month) + seq!['-'] + two_digits(day)
}

/// A date as `20260501`.
pub open spec fn compact_date(year: int, month: int, day: int) -> Seq<char> {
    year_text(year) + two_digits(month) + two_digits(day)
}

/// A date of the proleptic Gregorian calendar.
#[derive(Debug, Clone, Copy, PartialEq, Eq, Structural)]
pub struct Date {
    year: i32,
    month: u32,
    day: u32,
}

impl Date {
    pub closed spec fn y(self) -> int {
        self.year as int
    }

    pub closed spec fn m(self) -> int {
        self.month as int
    }

    pub closed spec fn d(self) -> int {
        self.day as int
    }

    pub open spec fn valid(self) -> bool {
        is_date(self.y(), self.m(), self.d())
    }

    #[verifier::type_invariant]
    pub closed spec fn holds(self) -> bool {
        self.valid()
    }

    pub open spec fn text(self) -> Seq<char> {
        date_text(self.y(), self.m(), self.d())
    }

    pub open spec fn number(self) -> int {
        day_number(self.y(), self.m(), self.d())
    }

    pub open spec fn ordinal_of(self) -> int {
        day_of_year(self.y(), self.m(), self.d())
    }

    /// Not later than the other date.
    pub open spec fn not_after(self, other: Date) -> bool {
        self.y() < other.y() || self.y() == other.y() && (self.m() < other.m() || self.m()
            == other.m() && self.d() <= other.d())
    }

    /// The date of this year, month and day, if there is one.
    pub fn new(year: i32, month: u32, day: u32) -> (r: Option<Date>)
        ensures
            r is Some <==> is_date(year as int, month as int, day as int),
            r matches Some(date) ==> date.y() == year && date.m() == month && date.d() == day
                && date.valid(),
    {
        if date_exists(year, month, day) {
            Some(Date { year, month, day })
        } else {
            None
        }
    }

    pub fn year(self) -> (r: i32)
        ensures
            r == self.y(),
            self.valid(),
    {
        proof {
            use_type_invariant(&self);
        }
        self.year
    }

    pub fn month(self) -> (r: u32)
        ensures
            r == self.m(),
            self.valid(),
    {
        proof {
            use_type_invariant(&self);
        }
        self.month
    }

    pub fn day(self) -> (r: u32)
        ensures
            r == self.d(),
            self.valid(),
    {
        proof {
            use_type_invariant(&self);
        }
        self.day
    }

    /// The number of the date in its year, from 1.
    pub fn ordinal(self) -> (r: u32)
        ensures
            r == self.ordinal_of(),
            self.valid(),
            1 <= r <= 366,
    {
        proof {
            use_type_invariant(&self);
            reveal_with_fuel(days_before, 13);
        }
        ordinal_of_date(self.year, self.month, self.day)
    }

    pub fn is_not_after(self, other: Date) -> (r: bool)
        ensures
            r == self.not_after(other),
    {
        self.year < other.year || (self.year == other.year && (self.month < other.month || (
        self.month == other.month && self.day <= other.day)))
    }

    pub fn same(self, other: Date) -> (r: bool)
        ensures
            r == (self == other),
            r == (self.y() == other.y() && self.m() == other.m() && self.d() == other.d()),
    {
        self.year == other.year && self.month == other.month && self.day == other.day
    }

    /// The date as `2026-05-01`.
    pub fn to_text(self) -> (r: String)
        ensures
            r@ == self.text(),
            date_read(r@) == Some(self),
    {
        proof {
            use_type_invariant(&self);
        }
        format_date(self.year, self.month, self.day, "%Y-%m-%d")
    }

    /// The date as `20260501`.
    pub fn to_compact(self) -> (r: String)
        ensures
            r@ == compact_date(self.y(), self.m(), self.d()),
    {
        proof {
            use_type_invariant(&self);
        }
        format_date(self.year, self.month, self.day, "%Y%m%d")
    }

    /// The year of the date, in at least four digits.
    pub fn year_digits(self) -> (r: String)
        ensures
            r@ == year_text(self.y()),
    {
        proof {
            use_type_invariant(&self);
        }
        format_date(self.year, self.month, self.day, "%Y")
    }

    /// The month of the date, in two digits.
    pub fn month_digits(self) -> (r: String)
        ensures
            r@ == two_digits(self.m()),
    {
        proof {
            use_type_invariant(&self);
        }
        format_date(self.year, self.month, self.day, "%m")
    }

    /// The day of the date, in two digits.
    pub fn day_digits(self) -> (r: String)
        ensures
            r@ == two_digits(self.d()),
    {
        proof {
            use_type_invariant(&self);
        }
        format_date(self.year, self.month, self.day, "%d")
    }

    /// The date that a text such as `2026-05-01` spells.
    pub fn parse(text: &str) -> (r: Option<Date>)
        ensures
            r == date_read(text@),
            r matches Some(date) ==> date.valid(),
    {
        match parse_date(text, "%Y-%m-%d") {
            Some((year, month, day)) => Some(Date { year, month, day }),
            None => None,
        }
    }
}

/// The days of the years before a year, counted from 1970-01-01.
pub open spec fn days_to_year(year: int) -> int {
    365 * (year - 1) + (year - 1) / 4 - (year - 1) / 100 + (year - 1) / 400 - 719162
}

pub open spec fn year_len(year: int) -> int {
    if is_leap(year) {
        366
    } else {
        365
    }
}

proof fn lemma_next_year(year: int)
    ensures
        days_to_year(year + 1) == days_to_year(year) + year_len(year),
{
}

proof fn lemma_later_year(year: int, later: int)
    requires
        year < later,
    ensures
        days_to_year(later) >= days_to_year(year) + year_len(year),
    decreases later - year,
{
    lemma_next_year(later - 1);
    if later > year + 1 {
        lemma_later_year(year, later - 1);
    }
}

proof fn lemma_day_of_year(year: int, month: int, day: int)
    requires
        is_date(year, month, day),
    ensures
        1 <= day_of_year(year, month, day) <= year_len(year),
{
    reveal_with_fuel(days_before, 13);
}

/// The numbers of the days follow the calendar: of two dates the later has the larger number.
pub proof fn law_day_numbers_follow_the_calendar(a: Date, b: Date)
    requires
        a.valid(),
        b.valid(),
    ensures
        a.not_after(b) <==> a.number() <= b.number(),
        a.number() == b.number() ==> a == b,
{
    lemma_day_of_year(a.y(), a.m(), a.d());
    lemma_day_of_year(b.y(), b.m(), b.d());
    if a.y() < b.y() {
        lemma_later_year(a.y(), b.y());
    } else if b.y() < a.y() {
        lemma_later_year(b.y(), a.y());
    } else {
        reveal_with_fuel(days_before, 13);
    }
}

/// The date of this number.
pub open spec fn date_numbered(number: int) -> Date {
    choose|date: Date| date.valid() && #[trigger] date.number() == number
}

/// The first and the last date of the calendar have the first and the last number.
proof fn lemma_ends_of_the_calendar()
    ensures
        day_number(FIRST_YEAR as int, 1, 1) == FIRST_DAY,
        day_number(LAST_YEAR as int, 12, 31) == LAST_DAY,
{
    reveal_with_fuel(days_before, 13);
}

/// A date of the calendar has this number.
spec fn has_date(number: int) -> bool {
    exists|date: Date| date.valid() && #[trigger] date.number() == number
}

proof fn lemma_days_have_dates(number: int)
    requires
        FIRST_DAY <= number <= LAST_DAY,
    ensures
        has_date(number),
    decreases number - FIRST_DAY,
{
    lemma_ends_of_the_calendar();
    if number == FIRST_DAY {
        let first = date_at(FIRST_YEAR as int, 1, 1);
        assert(first.valid() && first.number() == number);
    } else {
        lemma_days_have_dates(number - 1);
        let date = choose|date: Date| date.valid() && #[trigger] date.number() == number - 1;
        let (y, m, d) = (date.y(), date.m(), date.d());
        if d < month_len(y, m) {
            let next = date_at(y, m, d + 1);
            assert(next.valid() && next.number() == number);
        } else if m < 12 {
            let next = date_at(y, m + 1, 1);
            assert(days_before(y, m + 1) == days_before(y, m) + month_len(y, m));
            assert(next.valid() && next.number() == number);
        } else {
            if y == LAST_YEAR {
                assert(date.number() == LAST_DAY);
            }
            lemma_next_year(y);
            let next = date_at(y + 1, 1, 1);
            assert(day_of_year(y, 12, 31) == year_len(y)) by {
                reveal_with_fuel(days_before, 13);
            }
            assert(next.valid() && next.number() == number);
        }
    }
}

/// The days of the calendar are those from the first number to the last: each of these numbers has
/// its date, and each date one of these numbers.
pub proof fn law_days_have_dates(number: int, date: Date)
    ensures
        FIRST_DAY <= number <= LAST_DAY ==> date_numbered(number).valid() && date_numbered(
            number,
        ).number() == number,
        date.valid() ==> FIRST_DAY <= date.number() <= LAST_DAY,
{
    if FIRST_DAY <= number <= LAST_DAY {
        lemma_days_have_dates(number);
    }
    if date.valid() {
        lemma_ends_of_the_calendar();
        law_day_numbers_follow_the_calendar(date_at(FIRST_YEAR as int, 1, 1), date);
        law_day_numbers_follow_the_calendar(date, date_at(LAST_YEAR as int, 12, 31));
    }
}

/// The date of this year, month and day.
pub closed spec fn date_at(year: int, month: int, day: int) -> Date {
    Date { year: year as i32, month: month as u32, day: day as u32 }
}

/// The date that a text such as `2026-05-01` spells.
pub open spec fn date_read(text: Seq<char>) -> Option<Date> {
    match date_spelled(text) {
        Some((year, month, day)) => Some(date_at(year, month, day)),
        None => None,
    }
}

/// Dates with the same year, month and day are equal.
pub proof fn lemma_same_date(a: Date, b: Date)
    requires
        a.y() == b.y(),
        a.m() == b.m(),
        a.d() == b.d(),
    ensures
        a == b,
{
}

impl Key for Date {
    open spec fn at_most(&self, other: &Self) -> bool {
        self.not_after(*other)
    }

    proof fn total(a: &Self, b: &Self) {
    }

    proof fn transitive(a: &Self, b: &Self, c: &Self) {
    }

    fn is_at_most(&self, other: &Self) -> (r: bool) {
        (*self).is_not_after(*other)
    }
}

/// Calls `chrono::NaiveDate::from_ymd_opt`, which gives a date exactly where year, month and day
/// are one of the proleptic Gregorian calendar within the years that `NaiveDate` holds.
#[verifier::external_body]
fn date_exists(year: i32, month: u32, day: u32) -> (r: bool)
    ensures
        r == is_date(year as int, month as int, day as int),
{
    chrono::NaiveDate::from_ymd_opt(year, month, day).is_some()
}

/// Calls `chrono::Datelike::ordinal` on a date: its number in the year, from 1.
#[verifier::external_body]
fn ordinal_of_date(year: i32, month: u32, day: u32) -> (r: u32)
    requires
        is_date(year as int, month as int, day as int),
    ensures
        r == day_of_year(year as int, month as int, day as int),
{
    chrono::NaiveDate::from_ymd_opt(year, month, day).unwrap().ordinal()
}

/// The year, month and day that `chrono::NaiveDate::parse_from_str` reads out of a text by the
/// pattern `%Y-%m-%d`, if it reads a date.
pub uninterp spec fn date_spelled(text: Seq<char>) -> Option<(int, int, int)>;

/// Calls `chrono::NaiveDate::format` with one of these patterns. `%Y` writes the year in at least
/// four digits, with a sign where it is negative or over 9999, `%m` and `%d` two digits each.
/// `chrono::NaiveDate::parse_from_str` reads the date back from the pattern with hyphens.
#[verifier::external_body]
fn format_date(year: i32, month: u32, day: u32, pattern: &str) -> (r: String)
    requires
        is_date(year as int, month as int, day as int),
        pattern@ == "%Y-%m-%d"@ || pattern@ == "%Y%m%d"@ || pattern@ == "%Y"@ || pattern@ == "%m"@
            || pattern@ == "%d"@,
    ensures
        pattern@ == "%Y-%m-%d"@ ==> r@ == date_text(year as int, month as int, day as int),
        pattern@ == "%Y-%m-%d"@ ==> date_spelled(r@) == Some((year as int, month as int, day as int)),
        pattern@ == "%Y%m%d"@ ==> r@ == compact_date(year as int, month as int, day as int),
        pattern@ == "%Y"@ ==> r@ == year_text(year as int),
        pattern@ == "%m"@ ==> r@ == two_digits(month as int),
        pattern@ == "%d"@ ==> r@ == two_digits(day as int),
{
    chrono::NaiveDate::from_ymd_opt(year, month, day).unwrap().format(pattern).to_string()
}

/// Calls `chrono::NaiveDate::parse_from_str` with the pattern `%Y-%m-%d`. What it reads is a date
/// of the calendar.
#[verifier::external_body]
fn parse_date(text: &str, pattern: &str) -> (r: Option<(i32, u32, u32)>)
    requires
        pattern@ == "%Y-%m-%d"@,
    ensures
        match r {
            Some((year, month, day)) => is_date(year as int, month as int, day as int)
                && date_spelled(text@) == Some((year as int, month as int, day as int)),
            None => date_spelled(text@) is None,
        },
{
    let date = chrono::NaiveDate::parse_from_str(text, pattern).ok()?;
    Some((date.year(), date.month(), date.day()))
}

/// The second and the part of a second, counted from 1970-01-01 00:00:00, are a time that is held:
/// its day lies in the calendar, and only the last second of a minute may be a leap second, whose
/// part runs from one to two thousand million.
pub open spec fn is_instant(seconds: int, nanos: int) -> bool {
    &&& FIRST_DAY <= seconds / 86400 <= LAST_DAY
    &&& 0 <= nanos < 2_000_000_000
    &&& nanos >= 1_000_000_000 ==> seconds % 60 == 59
}

pub fn instant_exists(seconds: i64, nanos: u32) -> (r: bool)
    ensures
        r == is_instant(seconds as int, nanos as int),
{
    let first: i64 = FIRST_DAY * DAY_SECONDS;
    let end: i64 = (LAST_DAY + 1) * DAY_SECONDS;
    if seconds < first || seconds >= end || nanos >= 2_000_000_000 {
        return false;
    }
    if nanos < 1_000_000_000 {
        return true;
    }
    let from_start: i64 = seconds - first;
    from_start % 60 == 59
}

/// An instant.
#[derive(Debug, Clone, Copy, PartialEq, Eq, Structural)]
pub struct UtcTime {
    seconds: i64,
    nanos: u32,
}

impl UtcTime {
    /// The seconds since 1970-01-01 00:00:00 UTC.
    pub closed spec fn s(self) -> int {
        self.seconds as int
    }

    /// The thousand-millionths of the second.
    pub closed spec fn n(self) -> int {
        self.nanos as int
    }

    pub open spec fn valid(self) -> bool {
        is_instant(self.s(), self.n())
    }

    #[verifier::type_invariant]
    pub closed spec fn holds(self) -> bool {
        self.valid()
    }

    pub fn new(seconds: i64, nanos: u32) -> (r: Option<UtcTime>)
        ensures
            r is Some <==> is_instant(seconds as int, nanos as int),
            r matches Some(t) ==> t.s() == seconds && t.n() == nanos && t.valid(),
    {
        if instant_exists(seconds, nanos) {
            Some(UtcTime { seconds, nanos })
        } else {
            None
        }
    }

    pub fn seconds(self) -> (r: i64)
        ensures
            r == self.s(),
            self.valid(),
    {
        proof {
            use_type_invariant(&self);
        }
        self.seconds
    }

    pub fn nanos(self) -> (r: u32)
        ensures
            r == self.n(),
            self.valid(),
    {
        proof {
            use_type_invariant(&self);
        }
        self.nanos
    }

    /// Not later than the other instant.
    pub open spec fn not_after(self, other: UtcTime) -> bool {
        self.s() < other.s() || self.s() == other.s() && self.n() <= other.n()
    }

    pub fn is_not_after(self, other: UtcTime) -> (r: bool)
        ensures
            r == self.not_after(other),
    {
        self.seconds < other.seconds || (self.seconds == other.seconds && self.nanos <= other.nanos)
    }

    /// The date of the instant in UTC.
    pub fn date(self) -> (r: Date)
        ensures
            r.valid(),
            r.number() == self.s() / 86400,
            r == date_numbered(self.s() / 86400),
    {
        proof {
            use_type_invariant(&self);
        }
        let (year, month, day) = local_date(self.seconds, self.nanos, 0);
        let date = Date { year, month, day };
        proof {
            assert(date.valid() && date.number() == self.s() / 86400);
            law_day_numbers_follow_the_calendar(date_numbered(self.s() / 86400), date);
        }
        date
    }

    /// The instant as `20260501T061530Z`.
    pub fn to_stamp(self) -> (r: String)
        ensures
            r@ == stamp_of(self),
    {
        proof {
            use_type_invariant(&self);
        }
        format_instant(self.seconds, self.nanos, "%Y%m%dT%H%M%SZ")
    }

    /// The instant as it is shown.
    pub fn to_display(self) -> (r: String)
        ensures
            r@ == instant_text(self.s(), self.n()),
    {
        proof {
            use_type_invariant(&self);
        }
        display_instant(self.seconds, self.nanos)
    }

    /// The whole minutes from another instant to this.
    pub fn minutes_since(self, other: UtcTime) -> (r: i64)
        ensures
            r == minutes_between(other.s(), other.n(), self.s(), self.n()),
            other.n() < 1_000_000_000 && self.n() < 1_000_000_000 ==> r == toward_zero(
                (self.s() - other.s()) * 1_000_000_000 + self.n() - other.n(),
                60_000_000_000,
            ),
    {
        proof {
            use_type_invariant(&self);
            use_type_invariant(&other);
        }
        count_minutes(other.seconds, other.nanos, self.seconds, self.nanos)
    }

    /// The instant in the RFC 3339 form.
    pub fn to_rfc3339(self) -> (r: String)
        ensures
            r@ == rfc3339_text(self.s(), self.n(), 0),
            in_four_digit_years(self.s()) ==> time_read(r@) == Some(
                local_time(self.s(), self.n(), 0),
            ),
    {
        proof {
            use_type_invariant(&self);
        }
        format_rfc3339(self.seconds, self.nanos, 0)
    }
}

/// A time as `20260501T061530Z`; the second of a leap second is 60.
pub open spec fn stamp_text(date: Date, second_of_day: int, nanos: int) -> Seq<char> {
    compact_date(date.y(), date.m(), date.d()) + seq!['T'] + two_digits(second_of_day / 3600)
        + two_digits(second_of_day % 3600 / 60) + two_digits(
        second_of_day % 60 + nanos / 1_000_000_000,
    ) + seq!['Z']
}

/// Two digits say which number below a hundred they stand for.
pub proof fn lemma_two_digits(n: int)
    requires
        0 <= n < 100,
    ensures
        two_digits(n).len() == 2,
        digits_value(two_digits(n)) == n,
{
    lemma_zero_padded(n as nat, 2);
    reveal_with_fuel(digits, 2);
}

/// The dates of years of four digits stand in the dictionary of their texts as in the calendar.
pub proof fn law_date_texts_follow_the_calendar(a: Date, b: Date)
    requires
        a.valid(),
        b.valid(),
        0 <= a.y() <= 9999,
        0 <= b.y() <= 9999,
    ensures
        dictionary(a.text(), b.text()) <==> a.not_after(b),
{
    let hyphen = seq!['-'];
    let (ay, am, ad) = (year_text(a.y()), two_digits(a.m()), two_digits(a.d()));
    let (by, bm, bd) = (year_text(b.y()), two_digits(b.m()), two_digits(b.d()));
    lemma_zero_padded(a.y() as nat, 4);
    lemma_zero_padded(b.y() as nat, 4);
    lemma_zero_padded(a.m() as nat, 2);
    lemma_zero_padded(b.m() as nat, 2);
    lemma_zero_padded(a.d() as nat, 2);
    lemma_zero_padded(b.d() as nat, 2);
    reveal_with_fuel(digits, 5);
    lemma_numerals_in_the_dictionary(ay, by);
    lemma_numerals_in_the_dictionary(am, bm);
    lemma_numerals_in_the_dictionary(ad, bd);
    let (left, right) = (am + (hyphen + ad), bm + (hyphen + bd));
    assert(a.text() =~= ay + (hyphen + left));
    assert(b.text() =~= by + (hyphen + right));
    lemma_dictionary_parts(ay, hyphen + left, by, hyphen + right);
    lemma_dictionary_parts(hyphen, left, hyphen, right);
    lemma_dictionary_parts(am, hyphen + ad, bm, hyphen + bd);
    lemma_dictionary_parts(hyphen, ad, hyphen, bd);
}

/// The text of a year says the year.
proof fn lemma_year_text(year: int, other: int)
    requires
        year_text(year) == year_text(other),
    ensures
        year == other,
{
    lemma_year_starts(year);
    lemma_year_starts(other);
    let text = year_text(year);
    if text[0] == '+' || text[0] == '-' {
        assert(text.drop_first() =~= year_text(other).drop_first());
    }
}

/// The sign of a year is the first of its text, and its number is behind it.
pub proof fn lemma_year_starts(year: int)
    ensures
        year_text(year).len() > 0,
        year > 9999 <==> year_text(year)[0] == '+',
        year < 0 <==> year_text(year)[0] == '-',
        0 <= year <= 9999 ==> digits_value(year_text(year)) == year,
        year > 9999 ==> digits_value(year_text(year).drop_first()) == year,
        year < 0 ==> digits_value(year_text(year).drop_first()) == -year,
{
    if year > 9999 {
        lemma_digits(year as nat);
        assert(year_text(year).drop_first() =~= digits(year as nat));
    } else if year >= 0 {
        lemma_zero_padded(year as nat, 4);
        assert(is_digit(year_text(year)[0]));
    } else {
        lemma_zero_padded((-year) as nat, 4);
        assert(year_text(year).drop_first() =~= zero_padded(digits((-year) as nat), 4));
    }
}

/// The stamp of an instant, piece by piece.
pub proof fn lemma_stamp_pieces(date: Date, second_of_day: int, nanos: int)
    requires
        date.valid(),
        0 <= second_of_day < 86400,
        0 <= nanos < 2_000_000_000,
    ensures
        ({
            let stamp = stamp_text(date, second_of_day, nanos);
            let n = stamp.len() as int;
            &&& n >= 12
            &&& stamp.take(n - 12) == year_text(date.y())
            &&& digits_value(stamp.subrange(n - 12, n - 10)) == date.m()
            &&& digits_value(stamp.subrange(n - 10, n - 8)) == date.d()
            &&& digits_value(stamp.subrange(n - 7, n - 5)) == second_of_day / 3600
            &&& digits_value(stamp.subrange(n - 5, n - 3)) == second_of_day % 3600 / 60
            &&& digits_value(stamp.subrange(n - 3, n - 1)) == second_of_day % 60 + nanos
                / 1_000_000_000
        }),
{
    let stamp = stamp_text(date, second_of_day, nanos);
    let n = stamp.len() as int;
    let last = second_of_day % 60 + nanos / 1_000_000_000;
    lemma_two_digits(date.m());
    lemma_two_digits(date.d());
    lemma_two_digits(second_of_day / 3600);
    lemma_two_digits(second_of_day % 3600 / 60);
    lemma_two_digits(last);
    assert(stamp.take(n - 12) =~= year_text(date.y()));
    assert(stamp.subrange(n - 12, n - 10) =~= two_digits(date.m()));
    assert(stamp.subrange(n - 10, n - 8) =~= two_digits(date.d()));
    assert(stamp.subrange(n - 7, n - 5) =~= two_digits(second_of_day / 3600));
    assert(stamp.subrange(n - 5, n - 3) =~= two_digits(second_of_day % 3600 / 60));
    assert(stamp.subrange(n - 3, n - 1) =~= two_digits(last));
}

/// The text of an instant as `20260501T061530Z`.
pub open spec fn stamp_of(time: UtcTime) -> Seq<char> {
    stamp_text(date_numbered(time.s() / 86400), time.s() % 86400, time.n())
}

/// The hour, the minute and the second of a day, a leap second counted, say the second of the day.
proof fn lemma_clock_parts(a: int, m: int, b: int, n: int)
    requires
        0 <= a < 86400,
        0 <= b < 86400,
        0 <= m < 2_000_000_000,
        0 <= n < 2_000_000_000,
        m >= 1_000_000_000 ==> a % 60 == 59,
        n >= 1_000_000_000 ==> b % 60 == 59,
        a / 3600 == b / 3600,
        a % 3600 / 60 == b % 3600 / 60,
        a % 60 + m / 1_000_000_000 == b % 60 + n / 1_000_000_000,
    ensures
        a == b,
{
    assert(a % 60 == b % 60);
}

/// A stamp says the date and the parts of the clock.
proof fn lemma_same_stamps(left: Date, a: int, m: int, right: Date, b: int, n: int)
    requires
        left.valid(),
        right.valid(),
        0 <= a < 86400,
        0 <= b < 86400,
        0 <= m < 2_000_000_000,
        0 <= n < 2_000_000_000,
        stamp_text(left, a, m) == stamp_text(right, b, n),
    ensures
        left == right,
        a / 3600 == b / 3600,
        a % 3600 / 60 == b % 3600 / 60,
        a % 60 + m / 1_000_000_000 == b % 60 + n / 1_000_000_000,
{
    lemma_stamp_pieces(left, a, m);
    lemma_stamp_pieces(right, b, n);
    lemma_year_text(left.y(), right.y());
    lemma_same_date(left, right);
}

/// The day and the second of the day of an instant.
proof fn lemma_instant_parts(seconds: int, nanos: int)
    requires
        is_instant(seconds, nanos),
    ensures
        FIRST_DAY <= seconds / 86400 <= LAST_DAY,
        0 <= seconds % 86400 < 86400,
        seconds == seconds / 86400 * 86400 + seconds % 86400,
        0 <= nanos < 2_000_000_000,
        nanos >= 1_000_000_000 ==> seconds % 86400 % 60 == 59,
{
}

/// The same stamp is of the same day and second of the day.
proof fn lemma_same_second(day: int, a: int, m: int, other: int, b: int, n: int)
    requires
        FIRST_DAY <= day <= LAST_DAY,
        FIRST_DAY <= other <= LAST_DAY,
        0 <= a < 86400,
        0 <= b < 86400,
        0 <= m < 2_000_000_000,
        0 <= n < 2_000_000_000,
        m >= 1_000_000_000 ==> a % 60 == 59,
        n >= 1_000_000_000 ==> b % 60 == 59,
        stamp_text(date_numbered(day), a, m) == stamp_text(date_numbered(other), b, n),
    ensures
        day == other,
        a == b,
{
    let left = date_numbered(day);
    let right = date_numbered(other);
    law_days_have_dates(day, left);
    law_days_have_dates(other, right);
    lemma_same_stamps(left, a, m, right, b, n);
    lemma_clock_parts(a, m, b, n);
}

/// Instants of different seconds have different stamps.
pub proof fn law_stamps_tell_seconds_apart(one: UtcTime, other: UtcTime)
    requires
        one.valid(),
        other.valid(),
        stamp_of(one) == stamp_of(other),
    ensures
        one.s() == other.s(),
{
    lemma_instant_parts(one.s(), one.n());
    lemma_instant_parts(other.s(), other.n());
    lemma_same_second(
        one.s() / 86400,
        one.s() % 86400,
        one.n(),
        other.s() / 86400,
        other.s() % 86400,
        other.n(),
    );
}

/// A stamp holds no slash.
pub proof fn lemma_stamp_plain(time: UtcTime)
    requires
        time.valid(),
    ensures
        slashless(stamp_of(time)),
{
    let date = date_numbered(time.s() / 86400);
    law_days_have_dates(time.s() / 86400, date);
    let (a, n) = (time.s() % 86400, time.n());
    lemma_year_starts(date.y());
    lemma_zero_padded(date.m() as nat, 2);
    lemma_zero_padded(date.d() as nat, 2);
    lemma_zero_padded((a / 3600) as nat, 2);
    lemma_zero_padded((a % 3600 / 60) as nat, 2);
    lemma_zero_padded((a % 60 + n / 1_000_000_000) as nat, 2);
    assert(slashless(year_text(date.y()))) by {
        if date.y() > 9999 {
            lemma_digits(date.y() as nat);
        } else if date.y() >= 0 {
            lemma_zero_padded(date.y() as nat, 4);
        } else {
            lemma_zero_padded((-date.y()) as nat, 4);
        }
    }
}

/// Calls `chrono::DateTime::format` on an instant of UTC with the pattern `%Y%m%dT%H%M%SZ`: the
/// date, hour, minute and second in digits.
#[verifier::external_body]
fn format_instant(seconds: i64, nanos: u32, pattern: &str) -> (r: String)
    requires
        is_instant(seconds as int, nanos as int),
        pattern@ == "%Y%m%dT%H%M%SZ"@,
    ensures
        r@ == stamp_text(date_numbered(seconds as int / 86400), seconds as int % 86400, nanos as int),
{
    chrono::DateTime::from_timestamp(seconds, nanos).unwrap().format(pattern).to_string()
}

/// The part of a second, in three, six or nine digits, the fewest that hold it; nothing for a whole
/// second.
pub open spec fn fraction_text(nanos: int) -> Seq<char> {
    let part = nanos % 1_000_000_000;
    if part == 0 {
        seq![]
    } else if part % 1_000_000 == 0 {
        seq!['.'] + zero_padded(digits((part / 1_000_000) as nat), 3)
    } else if part % 1_000 == 0 {
        seq!['.'] + zero_padded(digits((part / 1_000) as nat), 6)
    } else {
        seq!['.'] + zero_padded(digits(part as nat), 9)
    }
}

/// A time of day as `06:15:30.250`; the second of a leap second is one more.
pub open spec fn time_text(second_of_day: int, nanos: int) -> Seq<char> {
    two_digits(second_of_day / 3600) + seq![':'] + two_digits(second_of_day % 3600 / 60) + seq![':']
        + two_digits(second_of_day % 60 + nanos / 1_000_000_000) + fraction_text(nanos)
}

/// An instant as `2026-05-01 06:15:30 UTC`.
pub open spec fn instant_text(seconds: int, nanos: int) -> Seq<char> {
    date_numbered(seconds / 86400).text() + seq![' '] + time_text(seconds % 86400, nanos) + seq![
        ' ',
        'U',
        'T',
        'C',
    ]
}

/// Calls `to_string`, by `Display`, on a `chrono::DateTime<chrono::Utc>`: the date, the time of day
/// with its part of a second, and `UTC`.
#[verifier::external_body]
fn display_instant(seconds: i64, nanos: u32) -> (r: String)
    requires
        is_instant(seconds as int, nanos as int),
    ensures
        r@ == instant_text(seconds as int, nanos as int),
{
    chrono::DateTime::from_timestamp(seconds, nanos).unwrap().to_string()
}

/// The whole minutes that `chrono::TimeDelta::num_minutes` counts from one instant to another.
pub uninterp spec fn minutes_between(
    from_seconds: int,
    from_nanos: int,
    to_seconds: int,
    to_nanos: int,
) -> int;

/// A quotient, rounded towards zero.
pub open spec fn toward_zero(n: int, d: int) -> int {
    if n < 0 {
        -((-n) / d)
    } else {
        n / d
    }
}

/// Calls `chrono::DateTime::signed_duration_since` and `chrono::TimeDelta::num_minutes`. Between
/// instants that are no leap seconds it is the time between them, in minutes, rounded towards zero.
#[verifier::external_body]
fn count_minutes(from_seconds: i64, from_nanos: u32, to_seconds: i64, to_nanos: u32) -> (r: i64)
    requires
        is_instant(from_seconds as int, from_nanos as int),
        is_instant(to_seconds as int, to_nanos as int),
    ensures
        r == minutes_between(
            from_seconds as int,
            from_nanos as int,
            to_seconds as int,
            to_nanos as int,
        ),
        from_nanos < 1_000_000_000 && to_nanos < 1_000_000_000 ==> r == toward_zero(
            (to_seconds - from_seconds) * 1_000_000_000 + to_nanos - from_nanos,
            60_000_000_000,
        ),
{
    let from = chrono::DateTime::from_timestamp(from_seconds, from_nanos).unwrap();
    let to = chrono::DateTime::from_timestamp(to_seconds, to_nanos).unwrap();
    to.signed_duration_since(from).num_minutes()
}

/// Instants with the same second and part of a second are equal.
pub proof fn lemma_same_instant(a: UtcTime, b: UtcTime)
    requires
        a.s() == b.s(),
        a.n() == b.n(),
    ensures
        a == b,
{
}

impl Key for UtcTime {
    open spec fn at_most(&self, other: &Self) -> bool {
        self.not_after(*other)
    }

    proof fn total(a: &Self, b: &Self) {
    }

    proof fn transitive(a: &Self, b: &Self, c: &Self) {
    }

    fn is_at_most(&self, other: &Self) -> (r: bool) {
        (*self).is_not_after(*other)
    }
}

/// The second lies in the years 0 to 9999.
pub open spec fn in_four_digit_years(seconds: int) -> bool {
    -62167219200 <= seconds < 253402300800
}

/// An instant, with the offset from UTC of the clock that showed it, in seconds.
#[derive(Debug, Clone, Copy, PartialEq, Eq, Structural)]
pub struct LocalTime {
    utc: UtcTime,
    offset: i32,
}

impl LocalTime {
    pub closed spec fn instant(self) -> UtcTime {
        self.utc
    }

    /// The offset from UTC, in seconds.
    pub closed spec fn east(self) -> int {
        self.offset as int
    }

    /// What the clock showed, in seconds since it showed 1970-01-01 00:00:00.
    pub open spec fn clock(self) -> int {
        self.instant().s() + self.east()
    }

    /// The number of the day that the clock showed.
    pub open spec fn day(self) -> int {
        self.clock() / 86400
    }

    pub open spec fn valid(self) -> bool {
        &&& self.instant().valid()
        &&& -86400 < self.east() < 86400
        &&& FIRST_DAY <= self.day() <= LAST_DAY
    }

    #[verifier::type_invariant]
    pub closed spec fn holds(self) -> bool {
        self.valid()
    }

    /// The instant on a clock with this offset; none where the offset is a day or more, or the
    /// day that the clock shows is not of the calendar.
    pub fn new(utc: UtcTime, offset: i32) -> (r: Option<LocalTime>)
        ensures
            r is Some <==> -86400 < offset < 86400 && FIRST_DAY <= (utc.s() + offset) / 86400
                <= LAST_DAY,
            r matches Some(t) ==> t.instant() == utc && t.east() == offset && t.valid(),
    {
        proof {
            use_type_invariant(&utc);
        }
        if offset <= -86400 || offset >= 86400 {
            return None;
        }
        let clock: i64 = utc.seconds + offset as i64;
        let first: i64 = FIRST_DAY * DAY_SECONDS;
        let end: i64 = (LAST_DAY + 1) * DAY_SECONDS;
        if clock < first || clock >= end {
            None
        } else {
            Some(LocalTime { utc, offset })
        }
    }

    pub fn utc(self) -> (r: UtcTime)
        ensures
            r == self.instant(),
            self.valid(),
    {
        proof {
            use_type_invariant(&self);
        }
        self.utc
    }

    pub fn offset(self) -> (r: i32)
        ensures
            r == self.east(),
            self.valid(),
    {
        proof {
            use_type_invariant(&self);
        }
        self.offset
    }

    /// The date that the clock showed.
    pub fn date(self) -> (r: Date)
        ensures
            r.valid(),
            r.number() == self.day(),
            r == date_numbered(self.day()),
    {
        proof {
            use_type_invariant(&self);
        }
        let (year, month, day) = local_date(self.utc.seconds, self.utc.nanos, self.offset);
        let date = Date { year, month, day };
        proof {
            assert(date.valid() && date.number() == self.day());
            law_day_numbers_follow_the_calendar(date_numbered(self.day()), date);
        }
        date
    }

    /// The hour that the clock showed.
    pub fn hour(self) -> (r: u32)
        ensures
            r == self.clock() % 86400 / 3600,
            r < 24,
    {
        proof {
            use_type_invariant(&self);
        }
        local_hour(self.utc.seconds, self.utc.nanos, self.offset)
    }

    /// The minute that the clock showed.
    pub fn minute(self) -> (r: u32)
        ensures
            r == self.clock() % 3600 / 60,
            r < 60,
    {
        proof {
            use_type_invariant(&self);
        }
        local_minute(self.utc.seconds, self.utc.nanos, self.offset)
    }

    /// The time in the RFC 3339 form.
    pub fn to_rfc3339(self) -> (r: String)
        ensures
            r@ == rfc3339_text(self.instant().s(), self.instant().n(), self.east()),
            in_four_digit_years(self.clock()) && self.east() % 60 == 0 ==> time_read(r@) == Some(
                self,
            ),
    {
        proof {
            use_type_invariant(&self);
        }
        format_rfc3339(self.utc.seconds, self.utc.nanos, self.offset)
    }

    /// The time that a text in the RFC 3339 form spells.
    pub fn parse_rfc3339(text: &str) -> (r: Option<LocalTime>)
        ensures
            r == time_read(text@),
            r matches Some(t) ==> t.valid(),
    {
        match read_rfc3339(text) {
            Some((seconds, nanos, offset)) => {
                let utc = UtcTime { seconds, nanos };
                Some(LocalTime { utc, offset })
            },
            None => None,
        }
    }
}

/// Calls `chrono::DateTime::date_naive`: the date that a clock at this offset shows.
#[verifier::external_body]
fn local_date(seconds: i64, nanos: u32, offset: i32) -> (r: (i32, u32, u32))
    requires
        is_instant(seconds as int, nanos as int),
        -86400 < offset < 86400,
        FIRST_DAY <= (seconds + offset) / 86400 <= LAST_DAY,
    ensures
        is_date(r.0 as int, r.1 as int, r.2 as int),
        day_number(r.0 as int, r.1 as int, r.2 as int) == (seconds + offset) / 86400,
{
    let east = chrono::FixedOffset::east_opt(offset).unwrap();
    let date = chrono::DateTime::from_timestamp(seconds, nanos).unwrap().with_timezone(&east).date_naive();
    (date.year(), date.month(), date.day())
}

/// Calls `chrono::Timelike::hour`: the hour that a clock at this offset shows.
#[verifier::external_body]
fn local_hour(seconds: i64, nanos: u32, offset: i32) -> (r: u32)
    requires
        is_instant(seconds as int, nanos as int),
        -86400 < offset < 86400,
    ensures
        r == (seconds + offset) % 86400 / 3600,
{
    let east = chrono::FixedOffset::east_opt(offset).unwrap();
    chrono::DateTime::from_timestamp(seconds, nanos).unwrap().with_timezone(&east).hour()
}

/// Calls `chrono::Timelike::minute`: the minute that a clock at this offset shows.
#[verifier::external_body]
fn local_minute(seconds: i64, nanos: u32, offset: i32) -> (r: u32)
    requires
        is_instant(seconds as int, nanos as int),
        -86400 < offset < 86400,
    ensures
        r == (seconds + offset) % 3600 / 60,
{
    let east = chrono::FixedOffset::east_opt(offset).unwrap();
    chrono::DateTime::from_timestamp(seconds, nanos).unwrap().with_timezone(&east).minute()
}

/// An offset as `-06:00`, in minutes to the nearest.
pub open spec fn offset_text(offset: int) -> Seq<char> {
    let size = if offset < 0 {
        -offset
    } else {
        offset
    };
    let minutes = (size + 30) / 60;
    seq![
        if offset < 0 {
            '-'
        } else {
            '+'
        },
    ] + two_digits(minutes / 60) + seq![':'] + two_digits(minutes % 60)
}

/// A time in the RFC 3339 form, as `2026-05-01T06:15:30-06:00`: the date and the time of day that
/// the clock shows, and its offset.
pub open spec fn rfc3339_text(seconds: int, nanos: int, offset: int) -> Seq<char> {
    date_numbered((seconds + offset) / 86400).text() + seq!['T'] + time_text(
        (seconds + offset) % 86400,
        nanos,
    ) + offset_text(offset)
}

/// The second, part of a second and offset that `chrono::DateTime::parse_from_rfc3339` reads.
pub uninterp spec fn rfc3339_read(text: Seq<char>) -> Option<(int, int, int)>;

/// Calls `chrono::DateTime::to_rfc3339`, which writes what the clock shows and its offset. Where the
/// clock shows a year of four digits and its offset is in whole minutes,
/// `chrono::DateTime::parse_from_rfc3339` reads the same time back.
#[verifier::external_body]
fn format_rfc3339(seconds: i64, nanos: u32, offset: i32) -> (r: String)
    requires
        is_instant(seconds as int, nanos as int),
        -86400 < offset < 86400,
        FIRST_DAY <= (seconds + offset) / 86400 <= LAST_DAY,
    ensures
        r@ == rfc3339_text(seconds as int, nanos as int, offset as int),
        in_four_digit_years(seconds + offset) && offset as int % 60 == 0 ==> rfc3339_read(r@)
            == Some((seconds as int, nanos as int, offset as int)),
{
    let east = chrono::FixedOffset::east_opt(offset).unwrap();
    chrono::DateTime::from_timestamp(seconds, nanos).unwrap().with_timezone(&east).to_rfc3339()
}

/// Calls `chrono::DateTime::parse_from_rfc3339`. What it reads is an instant on a clock whose day
/// is of the calendar.
#[verifier::external_body]
fn read_rfc3339(text: &str) -> (r: Option<(i64, u32, i32)>)
    ensures
        match r {
            Some((seconds, nanos, offset)) => {
                &&& is_instant(seconds as int, nanos as int)
                &&& -86400 < offset < 86400
                &&& FIRST_DAY <= (seconds + offset) / 86400 <= LAST_DAY
                &&& rfc3339_read(text@) == Some((seconds as int, nanos as int, offset as int))
            },
            None => rfc3339_read(text@) is None,
        },
{
    let time = chrono::DateTime::parse_from_rfc3339(text).ok()?;
    Some((time.timestamp(), time.timestamp_subsec_nanos(), time.offset().local_minus_utc()))
}

/// What a clock shows: the seconds since it showed 1970-01-01 00:00:00, and the part of a second.
#[derive(Debug, Clone, Copy, PartialEq, Eq, Structural)]
pub struct CivilTime {
    pub seconds: i64,
    pub nanos: u32,
}

/// The seconds and the part of a second that `chrono::NaiveDateTime::parse_from_str` reads out of
/// a text by a pattern.
pub uninterp spec fn civil_read(text: Seq<char>, pattern: Seq<char>) -> Option<(int, int)>;

/// Calls `chrono::NaiveDateTime::parse_from_str`. What it reads is a time of the calendar; by a
/// pattern without seconds it is a whole second.
#[verifier::external_body]
pub(crate) fn parse_civil(text: &str, pattern: &str) -> (r: Option<CivilTime>)
    requires
        pattern@ == "%Y-%m-%d %H:%M"@ || pattern@ == "%Y%m%d%H%M"@ || pattern@
            == "%Y-%m-%dT%H:%M:%S"@,
    ensures
        match r {
            Some(t) => {
                &&& is_instant(t.seconds as int, t.nanos as int)
                &&& civil_read(text@, pattern@) == Some((t.seconds as int, t.nanos as int))
                &&& pattern@ == "%Y-%m-%d %H:%M"@ || pattern@ == "%Y%m%d%H%M"@ ==> t.nanos == 0
            },
            None => civil_read(text@, pattern@) is None,
        },
{
    let time = chrono::NaiveDateTime::parse_from_str(text, pattern).ok()?.and_utc();
    Some(CivilTime { seconds: time.timestamp(), nanos: time.timestamp_subsec_nanos() })
}

/// Whether `chrono_tz::Tz::from_str` knows a time zone of this name.
pub uninterp spec fn zone_known(name: Seq<char>) -> bool;

/// The offset in seconds that `chrono_tz::Tz` gives the instant at a second.
pub uninterp spec fn zone_offset(name: Seq<char>, seconds: int) -> int;

/// The offset in seconds with which `chrono_tz::Tz` resolves what a clock of the zone shows, where
/// that is one instant only.
pub uninterp spec fn zone_resolution(name: Seq<char>, clock: int) -> Option<int>;

/// A time zone of the zone database.
#[derive(Debug)]
pub struct Zone {
    name: String,
}

impl Zone {
    pub closed spec fn called(self) -> Seq<char> {
        self.name@
    }

    #[verifier::type_invariant]
    pub closed spec fn holds(self) -> bool {
        zone_known(self.name@)
    }

    /// The time zone of this name, if there is one.
    pub fn parse(name: &str) -> (r: Option<Zone>)
        ensures
            r is Some <==> zone_known(name@),
            r matches Some(zone) ==> zone.called() == name@,
    {
        if zone_exists(name) {
            Some(Zone { name: name.to_string() })
        } else {
            None
        }
    }

    /// The instant on a clock of the zone; none where that clock leaves the calendar.
    pub fn local(&self, utc: UtcTime) -> (r: Option<LocalTime>)
        ensures
            r == local_in_zone(self.called(), utc),
            r matches Some(t) ==> t.valid(),
    {
        proof {
            use_type_invariant(&self);
            use_type_invariant(&utc);
        }
        let offset: i32 = offset_at(&self.name, utc.seconds);
        let r = LocalTime::new(utc, offset);
        r
    }

    /// The time at which a clock of the zone shows `civil`, where there is one such time only.
    pub fn resolve(&self, civil: CivilTime) -> (r: Option<LocalTime>)
        requires
            is_instant(civil.seconds as int, 0),
            civil.nanos == 0,
        ensures
            r == resolved_in_zone(self.called(), civil.seconds as int),
            r matches Some(t) ==> t.valid(),
    {
        proof {
            use_type_invariant(&self);
        }
        match offset_of_clock(&self.name, civil.seconds) {
            Some(offset) => {
                let seconds: i64 = civil.seconds - offset as i64;
                let utc = UtcTime { seconds, nanos: 0 };
                Some(LocalTime { utc, offset })
            },
            None => None,
        }
    }
}

/// The instant at a second and part of a second.
pub closed spec fn utc_time(seconds: int, nanos: int) -> UtcTime {
    UtcTime { seconds: seconds as i64, nanos: nanos as u32 }
}

/// What an instant is made of.
pub proof fn lemma_utc_time(t: UtcTime)
    ensures
        t == utc_time(t.s(), t.n()),
        local_time(t.s(), t.n(), 0).instant() == t,
{
}

/// The time of an instant with an offset.
pub closed spec fn local_time(seconds: int, nanos: int, offset: int) -> LocalTime {
    LocalTime {
        utc: UtcTime { seconds: seconds as i64, nanos: nanos as u32 },
        offset: offset as i32,
    }
}

/// The instant on a clock of the zone, where the clock stays in the calendar.
pub open spec fn local_in_zone(zone: Seq<char>, utc: UtcTime) -> Option<LocalTime> {
    let offset = zone_offset(zone, utc.s());
    if FIRST_DAY <= (utc.s() + offset) / 86400 <= LAST_DAY {
        Some(local_time(utc.s(), utc.n(), offset))
    } else {
        None
    }
}

/// A clock of a zone shows the instant that it was given.
pub proof fn law_zones_keep_the_instant(zone: Seq<char>, utc: UtcTime)
    ensures
        local_in_zone(zone, utc) is Some ==> local_in_zone(zone, utc)->0.instant() == utc,
{
    lemma_utc_time(utc);
}

/// The time at which a clock of the zone shows the whole second `clock`, where that is one time
/// only.
pub open spec fn resolved_in_zone(zone: Seq<char>, clock: int) -> Option<LocalTime> {
    match zone_resolution(zone, clock) {
        Some(offset) => Some(local_time(clock - offset, 0, offset)),
        None => None,
    }
}

/// The time that a text in the RFC 3339 form spells.
pub open spec fn time_read(text: Seq<char>) -> Option<LocalTime> {
    match rfc3339_read(text) {
        Some((seconds, nanos, offset)) => Some(local_time(seconds, nanos, offset)),
        None => None,
    }
}

/// Calls `chrono_tz::Tz::from_str`: whether it knows the name.
#[verifier::external_body]
fn zone_exists(name: &str) -> (r: bool)
    ensures
        r == zone_known(name@),
{
    name.parse::<chrono_tz::Tz>().is_ok()
}

/// Calls `chrono::TimeZone::offset_from_utc_datetime` of a `chrono_tz::Tz`: the offset at an
/// instant, which is shorter than a day.
#[verifier::external_body]
fn offset_at(name: &str, seconds: i64) -> (r: i32)
    requires
        zone_known(name@),
        is_instant(seconds as int, 0),
    ensures
        r == zone_offset(name@, seconds as int),
        -86400 < r < 86400,
{
    let zone = name.parse::<chrono_tz::Tz>().unwrap();
    let at = chrono::DateTime::from_timestamp(seconds, 0).unwrap().naive_utc();
    chrono::Offset::fix(&zone.offset_from_utc_datetime(&at)).local_minus_utc()
}

/// Calls `chrono::TimeZone::from_local_datetime` of a `chrono_tz::Tz` and `single` on the result:
/// the offset where what the clock shows is one instant of the calendar only.
#[verifier::external_body]
fn offset_of_clock(name: &str, clock: i64) -> (r: Option<i32>)
    requires
        zone_known(name@),
        is_instant(clock as int, 0),
    ensures
        match r {
            Some(offset) => {
                &&& zone_resolution(name@, clock as int) == Some(offset as int)
                &&& -86400 < offset < 86400
                &&& is_instant(clock - offset, 0)
            },
            None => zone_resolution(name@, clock as int) is None,
        },
{
    let zone = name.parse::<chrono_tz::Tz>().unwrap();
    let shown = chrono::DateTime::from_timestamp(clock, 0).unwrap().naive_utc();
    let time = zone.from_local_datetime(&shown).single()?;
    Some(chrono::Offset::fix(time.offset()).local_minus_utc())
}

} // verus!
