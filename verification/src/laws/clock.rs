//! Dates and paths: which dates there are, how they are written, and what a path says.
use vstd::prelude::*;
use crate::calendar::{
    compact_date, lemma_stamp_pieces, lemma_two_digits, lemma_year_starts, month_len, stamp_of,
    two_digits, year_text, Date, UtcTime,
};
use crate::domain::StationId;
use crate::numeral::digits_value;
use crate::paths::{
    extension, file_in, file_name, has_extension, pieces, sort_paths, source_from_artifact_path,
    source_in, station_id_from_artifact_path, station_in, year_from_artifact_path, year_in,
};
use crate::source::DataSource;

verus! {

/// The dates of the calendar: thirty days have April, June, September and November, twenty-eight or
/// in leap years twenty-nine has February, and all others thirty-one.
pub proof fn law_months_have_their_days(year: i32, month: u32, day: u32, date: Option<Date>)
    requires
        call_ensures(Date::new, (year, month, day), date),
        0 <= year <= 9999,
    ensures
        ({
            let leap = year % 4 == 0 && (year % 100 != 0 || year % 400 == 0);
            let last = if month == 4 || month == 6 || month == 9 || month == 11 {
                30int
            } else if month == 2 && leap {
                29
            } else if month == 2 {
                28
            } else {
                31
            };
            &&& date is Some <==> 1 <= month <= 12 && 1 <= day <= last
            &&& date is Some ==> date->0.y() == year && date->0.m() == month && date->0.d() == day
        }),
{
}

/// The days of a year are counted from the first of January, and each day has the number after that
/// of the day before.
pub proof fn law_days_of_the_year_are_counted(one: Date, other: Date)
    requires
        one.valid(),
        other.valid(),
        one.y() == other.y(),
    ensures
        one.m() == 1 ==> one.ordinal_of() == one.d(),
        one.m() == other.m() ==> other.ordinal_of() - one.ordinal_of() == other.d() - one.d(),
        other.m() == one.m() + 1 && other.d() == 1 && one.d() == month_len(one.y(), one.m())
            ==> other.ordinal_of() == one.ordinal_of() + 1,
        1 <= one.ordinal_of() <= 366,
        other.number() - one.number() == other.ordinal_of() - one.ordinal_of(),
{
    reveal_with_fuel(crate::calendar::days_before, 13);
}

/// A date of a year of four digits is written with its year, its month and its day, in this order,
/// with hyphens between or without.
pub proof fn law_dates_are_written_year_first(date: Date)
    requires
        date.valid(),
        1000 <= date.y() <= 9999,
    ensures
        ({
            let text = date.text();
            &&& text.len() == 10
            &&& text[4] == '-'
            &&& text[7] == '-'
            &&& digits_value(text.subrange(0, 4)) == date.y()
            &&& digits_value(text.subrange(5, 7)) == date.m()
            &&& digits_value(text.subrange(8, 10)) == date.d()
            &&& compact_date(date.y(), date.m(), date.d())
                == text.subrange(0, 4) + text.subrange(5, 7)
                + text.subrange(8, 10)
        }),
{
    let text = date.text();
    let year = year_text(date.y());
    lemma_year_starts(date.y());
    lemma_two_digits(date.m());
    lemma_two_digits(date.d());
    crate::laws::texts::law_numerals_are_decimal(date.y() as nat, 0);
    let n = crate::numeral::digits(date.y() as nat).len();
    assert(n == 4) by {
        vstd::arithmetic::power::lemma_pow0(10);
        reveal_with_fuel(vstd::arithmetic::power::pow, 5);
        if n < 4 {
            vstd::arithmetic::power::lemma_pow_increases(10, n, 3);
        }
        if n > 4 {
            vstd::arithmetic::power::lemma_pow_increases(10, 4, (n - 1) as nat);
        }
    }
    assert(year.len() == 4);
    assert(text.subrange(0, 4) =~= year);
    assert(text.subrange(5, 7) =~= two_digits(date.m()));
    assert(text.subrange(8, 10) =~= two_digits(date.d()));
}

/// The stamp of an instant ends in the hour, the minute and the second of its day, behind the date.
pub proof fn law_stamps_say_the_clock(time: UtcTime)
    requires
        time.valid(),
        time.n() < 1_000_000_000,
    ensures
        ({
            let stamp = stamp_of(time);
            let n = stamp.len() as int;
            &&& n >= 12
            &&& digits_value(stamp.subrange(n - 7, n - 5)) == time.s() % 86400 / 3600
            &&& digits_value(stamp.subrange(n - 5, n - 3)) == time.s() % 3600 / 60
            &&& digits_value(stamp.subrange(n - 3, n - 1)) == time.s() % 60
        }),
{
    let date = crate::calendar::date_numbered(time.s() / 86400);
    crate::calendar::law_days_have_dates(time.s() / 86400, date);
    lemma_clock_of_day(time.s());
    lemma_clock_in_stamp(date, time.s() % 86400, time.n());
}

proof fn lemma_clock_in_stamp(date: Date, second: int, nanos: int)
    requires
        date.valid(),
        0 <= second < 86400,
        0 <= nanos < 1_000_000_000,
    ensures
        ({
            let stamp = crate::calendar::stamp_text(date, second, nanos);
            let n = stamp.len() as int;
            &&& n >= 12
            &&& digits_value(stamp.subrange(n - 7, n - 5)) == second / 3600
            &&& digits_value(stamp.subrange(n - 5, n - 3)) == second % 3600 / 60
            &&& digits_value(stamp.subrange(n - 3, n - 1)) == second % 60
        }),
{
    lemma_stamp_pieces(date, second, nanos);
    assert(nanos / 1_000_000_000 == 0);
}

proof fn lemma_clock_of_day(seconds: int)
    ensures
        0 <= seconds % 86400 < 86400,
        seconds % 86400 % 3600 == seconds % 3600,
        seconds % 86400 % 60 == seconds % 60,
{
}

/// What is read of a path is what its pieces say.
pub proof fn law_paths_say_station_source_year_and_file(
    path: &str,
    expected: &str,
    station: Option<StationId>,
    source: Option<DataSource>,
    year: Option<i32>,
    name: Option<String>,
    has: bool,
)
    requires
        call_ensures(station_id_from_artifact_path, (path,), station),
        call_ensures(source_from_artifact_path, (path,), source),
        call_ensures(year_from_artifact_path, (path,), year),
        call_ensures(file_name, (path,), name),
        call_ensures(has_extension, (path, expected), has),
    ensures
        station is Some <==> station_in(pieces(path@)) is Some,
        station is Some ==> station_in(pieces(path@)) == Some(station->0@),
        source == source_in(pieces(path@)),
        year is Some <==> year_in(pieces(path@)) is Some,
        year is Some ==> year_in(pieces(path@)) == Some(year->0 as int),
        name is Some <==> file_in(pieces(path@)) is Some,
        name is Some ==> file_in(pieces(path@)) == Some(name->0@),
        has <==> name is Some && extension(name->0@) == Some(expected@),
{
}

/// A file has the extension behind its last dot.
pub proof fn law_extensions_stand_behind_the_last_dot(front: Seq<char>, end: Seq<char>)
    requires
        front.len() > 0,
        forall|i: int| 0 <= i < end.len() ==> #[trigger] end[i] != '.',
    ensures
        extension(front + seq!['.'] + end) == Some(end),
        crate::paths::stem(front + seq!['.'] + end) == front,
{
    crate::paths::lemma_last_dot_at(front, end);
    let name = front + seq!['.'] + end;
    assert(name.skip(front.len() as int + 1) =~= end);
    assert(name.take(front.len() as int) =~= front);
}

/// Sorted paths are the same paths.
pub proof fn law_sorted_paths_are_the_same(paths: Vec<String>, sorted: Vec<String>)
    requires
        call_ensures(sort_paths, (paths,), sorted),
    ensures
        sorted@.len() == paths@.len(),
        forall|i: int| 0 <= i < paths@.len() ==> sorted@.contains(#[trigger] paths@[i]),
{
    let (keys, order) = choose|keys: Seq<Vec<Vec<char>>>, order: Seq<usize>| #[trigger]
        crate::paths::keys_are_pieces(keys, paths@) && #[trigger] crate::order::is_stable_order(
            keys,
            order,
        ) && sorted@ == crate::order::picked(paths@, order);
    assert(crate::order::is_stable_order(keys, order));
    assert(paths.len() == paths@.len());
    assert forall|i: int| 0 <= i < paths@.len() implies sorted@.contains(#[trigger] paths@[i]) by {
        assert(order.contains(i as usize));
        let k = choose|k: int| 0 <= k < order.len() && order[k] == i as usize;
        assert(sorted@[k] == paths@[i]);
    }
}

} // verus!
