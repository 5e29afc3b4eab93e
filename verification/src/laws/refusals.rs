//! Refusals: what cannot be read is refused, and nothing else is.
use vstd::prelude::*;
use crate::calendar::zone_known;
use crate::dataset::{station_daily, station_observations, station_profiles};
use crate::domain::{DailySummary, DayProfile, Failure, ObservationRecord, StationId, StationRecord};
use crate::fields::{field_at, field_or_empty, fields_fail, number_field};
use crate::ghcnh::{ghcnh_row_means, ghcnh_time, normalize_ghcnh, GhcnhHeaderIndexes};
use crate::iem::{iem_row_means, iem_time, normalize_iem, IemHeaderIndexes};
use crate::laws::keeping::keeps_each_moment_once;
use crate::ncei::{line_means, normalize_ncei, stamp_in, stamp_time, token_means};
use crate::nws::{normalize_nws, NwsFeature};
use crate::reading::{Arithmetic, Reading};
use crate::rows::{rows_of_profiles, DayProfileRow, RowError};
use crate::text::{byte_len, trim, words};

verus! {

/// The text is neither blank nor a number, and the message says so of it.
pub open spec fn is_unreadable<A: Arithmetic>(a: &A, text: Seq<char>, message: Seq<char>) -> bool {
    &&& trim(text).len() > 0
    &&& trim(text) != "M"@
    &&& trim(text) != "VRB"@
    &&& exists|s: &str|
        s@ == trim(text) && #[trigger] call_ensures(A::number, (a, s), None::<Reading>)
    &&& message == "failed to parse numeric field "@ + trim(text)
}

proof fn lemma_unreadable<A: Arithmetic>(a: &A, row: Seq<Seq<char>>, column: nat,
    message: Seq<char>)
    requires
        number_field(a, field_at(row, column), Err(message)),
    ensures
        column < row.len(),
        is_unreadable(a, row[column as int], message),
{
}

/// A row of a GHCNh table is refused only for its time, or for a field that is neither blank nor a
/// number.
pub proof fn law_ghcnh_rows_are_refused_for_unreadable_numbers<A: Arithmetic>(
    a: &A,
    columns: GhcnhHeaderIndexes,
    row: Seq<Seq<char>>,
    station: Seq<char>,
    zone: Seq<char>,
    raw_ref: Seq<char>,
    message: Seq<char>,
)
    requires
        ghcnh_row_means(a, columns, row, station, zone, raw_ref, Err(message)),
        ghcnh_time(field_or_empty(row, columns.date), zone) is Ok,
    ensures
        exists|c: int| 0 <= c < row.len() && is_unreadable(a, #[trigger] row[c], message),
{
    let raws = columns.numbers_in(row);
    if fields_fail(a, raws, message) {
        let i = choose|i: int|
            {
                &&& 0 <= i < raws.len()
                &&& number_field(a, #[trigger] raws[i], Err(message))
                &&& forall|j: int| 0 <= j < i
                    ==> crate::fields::field_is_read(a, #[trigger] raws[j])
            };
        let c = seq![
            columns.temperature as nat,
            columns.dewpoint as nat,
            columns.relative_humidity as nat,
            columns.wind_direction as nat,
            columns.wind_speed as nat,
            columns.wind_gust as nat,
            columns.precipitation as nat,
            columns.station_level_pressure as nat,
            columns.sea_level_pressure as nat,
            columns.visibility as nat,
        ][i];
        assert(raws[i] == field_at(row, c));
        lemma_unreadable(a, row, c, message);
    } else {
        lemma_unreadable(a, row, columns.altimeter as nat, message);
    }
}

/// A row of an IEM table is refused only for its time, or for a field that is neither blank nor a
/// number.
pub proof fn law_iem_rows_are_refused_for_unreadable_numbers<A: Arithmetic>(
    a: &A,
    columns: IemHeaderIndexes,
    row: Seq<Seq<char>>,
    station: Seq<char>,
    zone: Seq<char>,
    raw_ref: Seq<char>,
    message: Seq<char>,
)
    requires
        iem_row_means(a, columns, row, station, zone, raw_ref, Err(message)),
        iem_time(field_or_empty(row, columns.valid), zone) is Ok,
    ensures
        exists|c: int| 0 <= c < row.len() && is_unreadable(a, #[trigger] row[c], message),
{
    let raws = columns.numbers_in(row);
    let i = choose|i: int|
        {
            &&& 0 <= i < raws.len()
            &&& number_field(a, #[trigger] raws[i], Err(message))
            &&& forall|j: int| 0 <= j < i ==> crate::fields::field_is_read(a, #[trigger] raws[j])
        };
    if i < 5 {
        let c = seq![
            columns.tmpf as nat,
            columns.dwpf as nat,
            columns.pres1 as nat,
            columns.drct as nat,
            columns.sknt as nat,
        ][i];
        assert(raws[i] == field_at(row, c));
        lemma_unreadable(a, row, c, message);
    } else {
        let column = if i == 5 {
            columns.p01i
        } else {
            columns.vsby
        };
        assert(column is Some);
        assert(raws[i] == field_at(row, column->0 as nat));
        lemma_unreadable(a, row, column->0 as nat, message);
    }
}

/// A line is refused only for its time, or for a wind whose direction is broken.
pub proof fn law_lines_are_refused_for_broken_winds<A: Arithmetic>(
    a: &A,
    line: Seq<char>,
    station: Seq<char>,
    zone: Seq<char>,
    raw_ref: Seq<char>,
    message: Seq<char>,
)
    requires
        line_means(a, line, station, zone, raw_ref, Err(message)),
        stamp_time(
            stamp_in(words(line)[1], byte_len(crate::domain::iem_code(station))),
            zone,
        ) is Ok,
    ensures
        message == "wind token missing direction"@,
        exists|i: int|
            0 <= i < words(line).len() && crate::text::ends_with(#[trigger] words(line)[i], "KT"@)
                && token_means(a, words(line)[i], None),
{
    let tokens = words(line);
    let i = choose|i: int| 0 <= i < tokens.len() && token_means(a, #[trigger] tokens[i], None);
    assert(crate::text::ends_with(words(line)[i], "KT"@));
}

/// A station in a time zone that is not known has no observations read, whatever their form.
pub proof fn law_unknown_time_zones_are_refused<A: Arithmetic>(
    a: &A,
    bytes: &[u8],
    text: &str,
    features: &Vec<NwsFeature>,
    station: &StationRecord,
    raw_ref: &str,
    hourly: Result<Vec<ObservationRecord>, Failure>,
    one_minute: Result<Vec<ObservationRecord>, Failure>,
    five_minutes: Result<Vec<ObservationRecord>, Failure>,
    live: Result<Vec<ObservationRecord>, Failure>,
)
    requires
        !zone_known(station.timezone@),
        call_ensures(normalize_ghcnh::<A>, (a, bytes, station, raw_ref), hourly),
        call_ensures(normalize_iem::<A>, (a, bytes, station, raw_ref), one_minute),
        call_ensures(normalize_ncei::<A>, (a, text, station, raw_ref), five_minutes),
        call_ensures(normalize_nws::<A>, (a, features, station, raw_ref), live),
    ensures
        hourly is Err,
        hourly->Err_0.message@ == "unsupported timezone "@ + station.timezone@,
        one_minute is Err,
        one_minute->Err_0.message@ == "unsupported timezone "@ + station.timezone@,
        five_minutes is Err,
        five_minutes->Err_0.message@ == "unsupported timezone "@ + station.timezone@,
        live is Err,
        live->Err_0.message@ == "unsupported timezone "@ + station.timezone@,
{
}

/// A station without data is told, and one with data has all of them: each moment once, and the
/// days by date.
pub proof fn law_stations_without_data_are_told(
    station: &StationId,
    observations: Vec<ObservationRecord>,
    daily: Vec<DailySummary>,
    profiles: Vec<DayProfile>,
    observed: Result<Vec<ObservationRecord>, Failure>,
    days: Result<Vec<DailySummary>, Failure>,
    hours: Result<Vec<DayProfile>, Failure>,
)
    requires
        call_ensures(station_observations, (observations, station), observed),
        call_ensures(station_daily, (daily, station), days),
        call_ensures(station_profiles, (profiles, station), hours),
    ensures
        observed is Err <==> observations@.len() == 0,
        observed is Err ==> observed->Err_0.message@
            == "no normalized observations found for station "@ + station@,
        observed is Ok ==> keeps_each_moment_once(observations@, observed->Ok_0@),
        days is Err <==> daily@.len() == 0,
        days is Err ==> days->Err_0.message@ == "no daily summaries found for station "@ + station@,
        days is Ok ==> days->Ok_0@.len() == daily@.len(),
        days is Ok ==> forall|k: int, l: int|
            0 <= k < l < days->Ok_0@.len() ==> (#[trigger] days->Ok_0@[k]).local_date.not_after(
                (#[trigger] days->Ok_0@[l]).local_date,
            ),
        hours is Err <==> profiles@.len() == 0,
        hours is Err ==> hours->Err_0.message@ == "no day profiles found for station "@ + station@,
        hours is Ok ==> hours->Ok_0@.len() == profiles@.len(),
        hours is Ok ==> forall|k: int, l: int|
            0 <= k < l < hours->Ok_0@.len() ==> (#[trigger] hours->Ok_0@[k]).local_date.not_after(
                (#[trigger] hours->Ok_0@[l]).local_date,
            ),
{
    if observed is Ok {
        let chosen = choose|chosen: Seq<usize>| #[trigger]
            crate::engine::is_dedupe(observations@, chosen) && observed->Ok_0@
                == crate::order::picked(observations@, chosen);
        crate::laws::keeping::lemma_keeps_each_moment_once(observations@, chosen);
    }
    if days is Ok {
        let dates = crate::dataset::summary_dates(daily@);
        let order = choose|order: Seq<usize>| #[trigger]
            crate::order::is_stable_order(crate::dataset::summary_dates(daily@), order)
                && days->Ok_0@ == crate::order::picked(daily@, order);
        assert forall|k: int, l: int| 0 <= k < l < days->Ok_0@.len() implies (
        #[trigger] days->Ok_0@[k]).local_date.not_after((#[trigger] days->Ok_0@[l]).local_date) by {
            assert(crate::order::precedes(dates, order[k] as int, order[l] as int));
            assert(order[k] < dates.len() && order[l] < dates.len());
            assert(dates[order[k] as int] == days->Ok_0@[k].local_date);
            assert(dates[order[l] as int] == days->Ok_0@[l].local_date);
        }
    }
    if hours is Ok {
        let dates = crate::dataset::profile_dates(profiles@);
        let order = choose|order: Seq<usize>| #[trigger]
            crate::order::is_stable_order(crate::dataset::profile_dates(profiles@), order)
                && hours->Ok_0@ == crate::order::picked(profiles@, order);
        assert forall|k: int, l: int| 0 <= k < l < hours->Ok_0@.len() implies (
        #[trigger] hours->Ok_0@[k]).local_date.not_after((#[trigger] hours->Ok_0@[l]).local_date) by {
            assert(crate::order::precedes(dates, order[k] as int, order[l] as int));
            assert(order[k] < dates.len() && order[l] < dates.len());
            assert(dates[order[k] as int] == hours->Ok_0@[k].local_date);
            assert(dates[order[l] as int] == hours->Ok_0@[l].local_date);
        }
    }
}

/// Each reason why a row is refused has a message of its own.
pub proof fn law_refused_rows_say_what_is_wrong(error: RowError, message: &'static str)
    requires
        call_ensures(RowError::message, (error,), message),
    ensures
        error is Source ==> message@ == "failed to parse observation source"@,
        error is ObservedAtUtc ==> message@ == "failed to parse observed_at_utc"@,
        error is ObservedAtLocal ==> message@ == "failed to parse observed_at_local"@,
        error is ObservationDate ==> message@ == "failed to parse local_date"@,
        error is QualityFlags ==> message@ == "failed to parse quality flags"@,
        error is SummaryDate ==> message@ == "failed to parse summary local_date"@,
        error is SummarySourceSlugs ==> message@ == "failed to parse summary source slugs"@,
        error is ProfileDate ==> message@ == "failed to parse profile local_date"@,
        error is ProfileSourceSlugs ==> message@ == "failed to parse profile source slugs"@,
{
}

/// The rows of profiles with twenty-four hours each stand profile by profile, hour by hour.
pub proof fn law_rows_of_profiles_stand_hour_by_hour(
    profiles: &Vec<DayProfile>,
    rows: Vec<DayProfileRow>,
    p: int,
    h: int,
)
    requires
        call_ensures(rows_of_profiles, (profiles,), rows),
        forall|i: int| 0 <= i < profiles@.len() ==> (#[trigger] profiles@[i]).hours@.len() == 24,
        0 <= p < profiles@.len(),
        0 <= h < 24,
    ensures
        rows@.len() == 24 * profiles@.len(),
        rows@[24 * p + h].station_id@ == profiles@[p].station_id@,
        rows@[24 * p + h].local_date@ == profiles@[p].local_date.text(),
        rows@[24 * p + h].hour == profiles@[p].hours@[h].hour,
        rows@[24 * p + h].temperature_c == profiles@[p].hours@[h].temperature_c,
{
    let models = crate::rows::profile_models(profiles@);
    assert(models.len() == profiles@.len());
    assert forall|i: int| 0 <= i < models.len()
        implies (#[trigger] models[i]).hours.len() == 24 by {
        assert(models[i] == profiles@[i]@);
        assert(profiles@[i].hours@.len() == 24);
    }
    lemma_full_hours_before(models, p);
    lemma_full_hours_before(models, models.len() as int);
    assert(models[p] == profiles@[p]@);
    assert(models[p].hours == profiles@[p].hours@);
    let row = rows@[crate::rows::hours_before(models, p) + h];
    assert(row.tells(models[p], models[p].hours[h]));
    assert(row.point() == profiles@[p].hours@[h]);
}

proof fn lemma_full_hours_before(models: Seq<crate::domain::DayProfileModel>, n: int)
    requires
        0 <= n <= models.len(),
        forall|i: int| 0 <= i < models.len() ==> (#[trigger] models[i]).hours.len() == 24,
    ensures
        crate::rows::hours_before(models, n) == 24 * n,
    decreases n,
{
    if n > 0 {
        lemma_full_hours_before(models, n - 1);
        assert(models[n - 1].hours.len() == 24);
    }
}

} // verus!
