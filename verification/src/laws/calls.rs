//! Calls: what the laws of analogs, probabilities, tables and tokens speak of is what the functions
//! return.
use vstd::prelude::*;
use crate::analogs::{
    analog_models, are_top_analogs, has_hourly, hourly_distance, hours_apart, minimum_analog_hours,
    observed_high, profile_distance, profiles_apart, top_analogs,
};
use crate::calendar::{Date, Zone};
use crate::domain::{
    maybe_outcome, opt_estimate, outcome, AnalogResult, CombinedProbability, DailySummary,
    DayProfile, Failure, HourlyProfilePoint, ObservationRecord, ProbabilityBreakdown,
    ProbabilityEstimate, StationId, StationRecord,
};
use crate::ghcnh::{ghcnh_row_means, GhcnhHeaderIndexes};
use crate::iem::{iem_row_means, read_iem_row, IemHeaderIndexes};
use crate::laws::likeness::{law_all_hours_up_to_the_as_of_hour_count, lemma_high, share_a_quantity};
use crate::laws::tables::{is_number_in_column, law_ghcnh_values_are_in_their_columns};
use crate::ncei::{
    apply_token, evaluate_token, line_means, parse_ncei_line, token_means, with_token, TokenValue,
};
use crate::nws::{
    features_mean, normalize_nws, nws_means, nws_observation_from_properties, NwsFeature,
    NwsObservationProperties,
};
use crate::probability::{
    analog_probability_estimate, analogs_make, best_analogs_make, breakdown_is,
    build_probability_breakdown, combine_estimates, combined_model, combines, estimate_from_analogs,
    estimate_models, probability_quality_state, quality_state_of,
};
use crate::reading::{Arithmetic, Reading};
use crate::rows::{profiles_read, DayProfileRow, RowError};
use crate::text::texts;

verus! {

/// Hours and days are compared as the laws of likeness say.
pub proof fn law_distances_are_those_of_hours_and_days<A: Arithmetic>(
    a: &A,
    left: &HourlyProfilePoint,
    right: &HourlyProfilePoint,
    apart: Option<Reading>,
    one: &DayProfile,
    other: &DayProfile,
    as_of_hour: Option<u8>,
    out: Option<(Reading, usize)>,
)
    requires
        call_ensures(hourly_distance::<A>, (a, left, right), apart),
        call_ensures(profile_distance::<A>, (a, one, other, as_of_hour), out),
    ensures
        hours_apart(a, *left, *right, apart),
        profiles_apart(a, one.hours@, other.hours@, as_of_hour, out),
{
}

/// Up to an as-of hour, two days that have a quantity in common in every hour are compared over
/// exactly the hours up to it and with it.
pub proof fn law_days_are_compared_up_to_the_as_of_hour<A: Arithmetic>(
    a: &A,
    one: &DayProfile,
    other: &DayProfile,
    hour: u8,
    out: Option<(Reading, usize)>,
)
    requires
        call_ensures(profile_distance::<A>, (a, one, other, Some(hour)), out),
        hour < 24,
        hour < one.hours@.len(),
        hour < other.hours@.len(),
        forall|k: int| 0 <= k <= hour
            ==> share_a_quantity(#[trigger] one.hours@[k], other.hours@[k]),
    ensures
        out is Some <==> hour >= 1,
        out is Some ==> (out->0).1 == hour + 1,
{
    law_all_hours_up_to_the_as_of_hour_count(a, one.hours@, other.hours@, hour, out);
}

/// Days are compared over two hours at least up to an hour, and over six for a whole day; the high
/// of a date is that of its last summary; and the hourly source is told by its name.
pub proof fn law_hours_needed_and_highs_are_told(
    as_of_hour: Option<u8>,
    fewest: usize,
    daily: &Vec<DailySummary>,
    date: Date,
    high: Option<Reading>,
    i: int,
    slugs: &Vec<String>,
    hourly: bool,
)
    requires
        call_ensures(minimum_analog_hours, (as_of_hour,), fewest),
        call_ensures(observed_high, (daily, date), high),
        call_ensures(has_hourly, (slugs,), hourly),
    ensures
        as_of_hour is Some ==> fewest == 2,
        as_of_hour is None ==> fewest == 6,
        0 <= i < daily@.len() && daily@[i].local_date == date && (forall|j: int|
            i < j < daily@.len() ==> (#[trigger] daily@[j]).local_date != date) ==> high
            == daily@[i].high_temp_c,
        (forall|j: int| 0 <= j < daily@.len() ==> (#[trigger] daily@[j]).local_date != date)
            ==> high is None,
        hourly <==> texts(slugs@).contains("ghcnh"@),
{
    lemma_high(daily@, date);
    if 0 <= i < daily@.len() {
        assert(daily@[i] == daily@[i]);
    }
}

/// A search finds the best analogs.
pub proof fn law_searches_find_the_best_analogs<A: Arithmetic>(
    a: &A,
    station: &StationId,
    target_date: Date,
    daily: &Vec<DailySummary>,
    profiles: &Vec<DayProfile>,
    target: &DayProfile,
    as_of_hour: Option<u8>,
    top_n: usize,
    analogs: Vec<AnalogResult>,
)
    requires
        call_ensures(
            top_analogs::<A>,
            (a, station, target_date, daily, profiles, target, as_of_hour, top_n),
            analogs,
        ),
    ensures
        are_top_analogs(
            a,
            station@,
            target_date,
            daily@,
            profiles@,
            *target,
            as_of_hour,
            top_n as nat,
            analog_models(analogs@),
        ),
{
}

/// Analogs, and estimates together, make the estimates that the laws of chances speak of, and the
/// data are in the state that they speak of.
pub proof fn law_estimates_are_made_of_analogs_and_combined<A: Arithmetic>(
    a: &A,
    station: &StationId,
    target_date: Date,
    threshold: Reading,
    daily: &Vec<DailySummary>,
    profiles: &Vec<DayProfile>,
    target: Option<&DayProfile>,
    as_of_hour: Option<u8>,
    season: Option<ProbabilityEstimate>,
    analogs: &Vec<AnalogResult>,
    voted: Option<ProbabilityEstimate>,
    best: Option<ProbabilityEstimate>,
    together: (Vec<ProbabilityEstimate>, Option<CombinedProbability>),
    state: String,
)
    requires
        call_ensures(estimate_from_analogs::<A>, (a, analogs, threshold, as_of_hour), voted),
        call_ensures(
            analog_probability_estimate::<A>,
            (a, station, target_date, threshold, daily, profiles, target, as_of_hour),
            best,
        ),
        call_ensures(combine_estimates::<A>, (a, season, best, as_of_hour), together),
        call_ensures(
            probability_quality_state,
            (target_date, target, daily, profiles, as_of_hour),
            state,
        ),
    ensures
        analogs_make(a, analog_models(analogs@), threshold, as_of_hour, opt_estimate(voted)),
        best_analogs_make(
            a,
            station@,
            target_date,
            threshold,
            daily@,
            profiles@,
            target,
            as_of_hour,
            opt_estimate(best),
        ),
        combines(
            a,
            opt_estimate(season),
            opt_estimate(best),
            as_of_hour,
            estimate_models(together.0@),
            combined_model(together.1),
        ),
        state@ == quality_state_of(target_date, target, daily@, profiles@, as_of_hour),
{
}

/// A report is made of the days of the season and of the analogs.
pub proof fn law_reports_are_made_of_the_season_and_the_analogs<A: Arithmetic>(
    a: &A,
    station: StationId,
    target_date: Date,
    threshold: Reading,
    daily: &Vec<DailySummary>,
    profiles: &Vec<DayProfile>,
    target: Option<&DayProfile>,
    as_of_hour: Option<u8>,
    out: ProbabilityBreakdown,
)
    requires
        call_ensures(
            build_probability_breakdown::<A>,
            (a, station, target_date, threshold, daily, profiles, target, as_of_hour),
            out,
        ),
    ensures
        breakdown_is(
            a,
            station@,
            target_date,
            threshold,
            daily@,
            profiles@,
            target,
            as_of_hour,
            out@,
        ),
{
}

/// The temperature of an observation that is read out of a row of a GHCNh table is the number in
/// the column called `temperature`, and its dew point that in the column called
/// `dew_point_temperature`.
pub proof fn law_rows_are_read_by_the_names_of_the_columns<A: Arithmetic>(
    a: &A,
    columns: &GhcnhHeaderIndexes,
    headers: Seq<Seq<char>>,
    row: &Vec<String>,
    station: &StationId,
    zone: &Zone,
    raw_ref: &str,
    o: ObservationRecord,
)
    requires
        columns.locates(headers),
        call_ensures(
            GhcnhHeaderIndexes::to_observation::<A>,
            (columns, a, row, station, zone, raw_ref),
            Ok::<Option<ObservationRecord>, Failure>(Some(o)),
        ),
    ensures
        is_number_in_column(a, headers, texts(row@), "temperature"@, o.temperature_c),
        is_number_in_column(a, headers, texts(row@), "dew_point_temperature"@, o.dewpoint_c),
{
    law_ghcnh_values_are_in_their_columns(
        a,
        *columns,
        headers,
        texts(row@),
        station@,
        zone.called(),
        raw_ref@,
        o,
    );
}

/// Rows, lines and what the service sends are read as the laws of tables, tokens and the live
/// service say.
pub proof fn law_observations_are_read_of_rows_lines_and_properties<A: Arithmetic>(
    a: &A,
    station: &StationId,
    zone: &Zone,
    raw_ref: &str,
    columns: &GhcnhHeaderIndexes,
    row: &Vec<String>,
    hourly: Result<Option<ObservationRecord>, Failure>,
    other_columns: &IemHeaderIndexes,
    one_minute: Result<ObservationRecord, Failure>,
    line: &[char],
    five_minutes: Result<Option<ObservationRecord>, Failure>,
    properties: &NwsObservationProperties,
    live: Result<ObservationRecord, Failure>,
)
    requires
        call_ensures(
            GhcnhHeaderIndexes::to_observation::<A>,
            (columns, a, row, station, zone, raw_ref),
            hourly,
        ),
        call_ensures(
            read_iem_row::<A>,
            (a, other_columns, row, station, zone, raw_ref),
            one_minute,
        ),
        call_ensures(parse_ncei_line::<A>, (a, line, station, zone, raw_ref), five_minutes),
        call_ensures(
            nws_observation_from_properties::<A>,
            (a, properties, station, zone, raw_ref),
            live,
        ),
    ensures
        ghcnh_row_means(
            a,
            *columns,
            texts(row@),
            station@,
            zone.called(),
            raw_ref@,
            maybe_outcome(hourly),
        ),
        iem_row_means(
            a,
            *other_columns,
            texts(row@),
            station@,
            zone.called(),
            raw_ref@,
            outcome(one_minute),
        ),
        line_means(a, line@, station@, zone.called(), raw_ref@, maybe_outcome(five_minutes)),
        nws_means(a, *properties, station@, zone.called(), raw_ref@, outcome(live)),
{
}

/// A list that the service sends is read item by item.
pub proof fn law_lists_of_the_service_are_read<A: Arithmetic>(
    a: &A,
    features: &Vec<NwsFeature>,
    station: &StationRecord,
    raw_ref: &str,
    observations: Vec<ObservationRecord>,
)
    requires
        call_ensures(
            normalize_nws::<A>,
            (a, features, station, raw_ref),
            Ok::<Vec<ObservationRecord>, Failure>(observations),
        ),
    ensures
        features_mean(
            a,
            features@,
            station.station_id@,
            station.timezone@,
            raw_ref@,
            Ok(crate::domain::observation_models(observations@)),
        ),
{
}

/// A token says what the laws of tokens say, and sets that in an observation.
pub proof fn law_tokens_are_evaluated_and_applied<A: Arithmetic>(
    a: &A,
    token: &[char],
    value: Option<TokenValue>,
    before: ObservationRecord,
    after: ObservationRecord,
)
    requires
        call_ensures(evaluate_token::<A>, (a, token), value),
        value is Some,
        call_ensures(apply_token, (before, token, value->0), after),
    ensures
        token_means(a, token@, value),
        after@ == with_token(before@, token@, value->0),
{
}

/// Profiles that are read out of rows are those that the rows hold.
pub proof fn law_profiles_are_read_of_rows(rows: Vec<DayProfileRow>, profiles: Vec<DayProfile>)
    requires
        call_ensures(
            DayProfileRow::into_profiles,
            (rows,),
            Ok::<Vec<DayProfile>, RowError>(profiles),
        ),
    ensures
        profiles_read(rows@, profiles@),
{
}

} // verus!
