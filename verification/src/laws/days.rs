//! Days: their summaries and their hours are made of the observations of the station and date.
use vstd::prelude::*;
use crate::calendar::Date;
use crate::domain::{DailySummary, DayProfile, HourlyProfilePoint, ObservationRecord};
use crate::engine::{
    day_keys, groups_days, hour_of, in_hour, law_groups_are_of_one_day, observed_hours,
    profiles_are, profiles_day, profiles_hour, quantity_of, slug_if, slugs_of, summaries_are,
    summarizes, values_of, Quantity,
};
use crate::laws::lists::{
    lemma_filter_holds, lemma_filter_map_holds, lemma_kept_filter_map, lemma_picked_filter,
    lemma_picked_kept,
};
use crate::order::{is_grouping, lemma_group_holds_ties, picked, ties, Key};
use crate::reading::{
    greatest, law_greatest_bounds_the_values, law_least_bounds_the_values, least, measures_alike,
    Arithmetic, Reading,
};
use crate::source::{lemma_slug_lens, DataSource};
use crate::text::texts;

verus! {

/// The mean that the arithmetic makes of the values, and none where there are no values.
pub open spec fn is_their_mean<A: Arithmetic>(a: &A, values: Seq<Reading>,
    out: Option<Reading>) -> bool {
    &&& out is None <==> values.len() == 0
    &&& out is Some ==> exists|list: &Vec<Reading>|
        list@ == values && #[trigger] call_ensures(A::mean, (a, list), out->0)
}

/// The sum that the arithmetic makes of the values, and none where there are no values.
pub open spec fn is_their_sum<A: Arithmetic>(a: &A, values: Seq<Reading>,
    out: Option<Reading>) -> bool {
    &&& out is None <==> values.len() == 0
    &&& out is Some ==> exists|list: &Vec<Reading>|
        list@ == values && #[trigger] call_ensures(A::total, (a, list), out->0)
}

/// The members of a group are the observations of its station and date.
proof fn lemma_group_is_the_day(
    observations: Seq<ObservationRecord>,
    groups: Seq<Vec<usize>>,
    g: int,
    station: Seq<char>,
    date: Date,
)
    requires
        observations.len() <= usize::MAX,
        groups_days(groups, observations),
        0 <= g < groups.len(),
        station == observations[groups[g]@[0] as int].station_id@,
        date == observations[groups[g]@[0] as int].local_date,
    ensures
        groups[g]@.len() > 0,
        picked(observations, groups[g]@) == observations.filter(
            |o: ObservationRecord| o.station_id@ == station && o.local_date == date,
        ),
{
    let keys = choose|keys: Seq<(Vec<char>, Date)>| #[trigger]
        day_keys(keys, observations) && is_grouping(keys, groups);
    let members = groups[g]@;
    assert(groups[g]@.len() > 0);
    assert(0 <= groups[g]@[0] < keys.len());
    let p = |o: ObservationRecord| o.station_id@ == station && o.local_date == date;
    assert forall|k: int| 0 <= k < members.len()
        implies #[trigger] members[k] < observations.len() by {
        assert(0 <= groups[g]@[k] < keys.len());
    }
    assert forall|i: int| 0 <= i < observations.len() implies (p(#[trigger] observations[i])
        <==> members.contains(i as usize)) by {
        if members.contains(i as usize) {
            let k = choose|k: int| 0 <= k < members.len() && members[k] == i as usize;
            law_groups_are_of_one_day(groups, observations, g, k, 0);
        }
        if p(observations[i]) {
            let head = keys[members[0] as int];
            assert(keys[i].0@ == observations[i].station_id@);
            assert(head.0@ == observations[members[0] as int].station_id@);
            crate::laws::days::lemma_same_keys_tie(keys[i], head);
            lemma_group_holds_ties(keys, groups, g, i);
        }
    }
    lemma_picked_filter(observations, members, p);
}

proof fn lemma_same_keys_tie(left: (Vec<char>, Date), right: (Vec<char>, Date))
    requires
        left.0@ == right.0@,
        left.1 == right.1,
    ensures
        ties(left, right),
{
    <(Vec<char>, Date)>::total(&left, &right);
    <(Vec<char>, Date)>::total(&right, &left);
}

/// The values of a quantity that the members have are those of their fields.
proof fn lemma_values_are_of_the_fields(
    observations: Seq<ObservationRecord>,
    members: Seq<usize>,
    items: Seq<ObservationRecord>,
)
    requires
        items == picked(observations, members),
    ensures
        values_of(observations, members, Quantity::Temperature) == items.filter_map(
            |o: ObservationRecord| o.temperature_c,
        ),
        values_of(observations, members, Quantity::Dewpoint) == items.filter_map(
            |o: ObservationRecord| o.dewpoint_c,
        ),
        values_of(observations, members, Quantity::RelativeHumidity) == items.filter_map(
            |o: ObservationRecord| o.relative_humidity_pct,
        ),
        values_of(observations, members, Quantity::WindSpeed) == items.filter_map(
            |o: ObservationRecord| o.wind_speed_kt,
        ),
        values_of(observations, members, Quantity::WindU) == items.filter_map(
            |o: ObservationRecord| o.wind_u_kt,
        ),
        values_of(observations, members, Quantity::WindV) == items.filter_map(
            |o: ObservationRecord| o.wind_v_kt,
        ),
        values_of(observations, members, Quantity::Precipitation) == items.filter_map(
            |o: ObservationRecord| o.precipitation_mm,
        ),
        values_of(observations, members, Quantity::CloudCover) == items.filter_map(
            |o: ObservationRecord| o.cloud_cover_fraction,
        ),
{
    lemma_kept_filter_map(
        items,
        Seq::new(
            members.len(),
            |k: int| quantity_of(observations[members[k] as int], Quantity::Temperature),
        ),
        |o: ObservationRecord| o.temperature_c,
    );
    lemma_kept_filter_map(
        items,
        Seq::new(
            members.len(),
            |k: int| quantity_of(observations[members[k] as int], Quantity::Dewpoint),
        ),
        |o: ObservationRecord| o.dewpoint_c,
    );
    lemma_kept_filter_map(
        items,
        Seq::new(
            members.len(),
            |k: int| quantity_of(observations[members[k] as int], Quantity::RelativeHumidity),
        ),
        |o: ObservationRecord| o.relative_humidity_pct,
    );
    lemma_kept_filter_map(
        items,
        Seq::new(
            members.len(),
            |k: int| quantity_of(observations[members[k] as int], Quantity::WindSpeed),
        ),
        |o: ObservationRecord| o.wind_speed_kt,
    );
    lemma_kept_filter_map(
        items,
        Seq::new(
            members.len(),
            |k: int| quantity_of(observations[members[k] as int], Quantity::WindU),
        ),
        |o: ObservationRecord| o.wind_u_kt,
    );
    lemma_kept_filter_map(
        items,
        Seq::new(
            members.len(),
            |k: int| quantity_of(observations[members[k] as int], Quantity::WindV),
        ),
        |o: ObservationRecord| o.wind_v_kt,
    );
    lemma_kept_filter_map(
        items,
        Seq::new(
            members.len(),
            |k: int| quantity_of(observations[members[k] as int], Quantity::Precipitation),
        ),
        |o: ObservationRecord| o.precipitation_mm,
    );
    lemma_kept_filter_map(
        items,
        Seq::new(
            members.len(),
            |k: int| quantity_of(observations[members[k] as int], Quantity::CloudCover),
        ),
        |o: ObservationRecord| o.cloud_cover_fraction,
    );
}

/// A summary is made of the observations of its station and date: it counts them, and each of its
/// means and its total are made of the values of one quantity in all of them, in their order, and
/// of nothing else.
pub proof fn law_summaries_tell_of_the_observations_of_the_day<A: Arithmetic>(
    a: &A,
    observations: Seq<ObservationRecord>,
    summaries: Seq<DailySummary>,
    g: int,
)
    requires
        observations.len() <= usize::MAX,
        summaries_are(a, observations, summaries),
        0 <= g < summaries.len(),
    ensures
        ({
            let day = summaries[g];
            let of_day = observations.filter(
                |o: ObservationRecord|
                    o.station_id@ == day.station_id@ && o.local_date == day.local_date,
            );
            &&& day.observation_count == of_day.len()
            &&& of_day.len() > 0
            &&& is_their_mean(
                a,
                of_day.filter_map(|o: ObservationRecord| o.temperature_c),
                day.mean_temp_c,
            )
            &&& is_their_mean(
                a,
                of_day.filter_map(|o: ObservationRecord| o.dewpoint_c),
                day.mean_dewpoint_c,
            )
            &&& is_their_mean(
                a,
                of_day.filter_map(|o: ObservationRecord| o.relative_humidity_pct),
                day.mean_relative_humidity_pct,
            )
            &&& is_their_mean(
                a,
                of_day.filter_map(|o: ObservationRecord| o.wind_u_kt),
                day.mean_wind_u_kt,
            )
            &&& is_their_mean(
                a,
                of_day.filter_map(|o: ObservationRecord| o.wind_v_kt),
                day.mean_wind_v_kt,
            )
            &&& is_their_sum(
                a,
                of_day.filter_map(|o: ObservationRecord| o.precipitation_mm),
                day.total_precipitation_mm,
            )
            &&& is_their_mean(
                a,
                of_day.filter_map(|o: ObservationRecord| o.cloud_cover_fraction),
                day.mean_cloud_cover_fraction,
            )
        }),
{
    lemma_summary(a, observations, summaries, g);
}

/// What the summary of a day is made of.
proof fn lemma_summary<A: Arithmetic>(
    a: &A,
    observations: Seq<ObservationRecord>,
    summaries: Seq<DailySummary>,
    g: int,
) -> (r: (Seq<ObservationRecord>, Seq<usize>))
    requires
        observations.len() <= usize::MAX,
        summaries_are(a, observations, summaries),
        0 <= g < summaries.len(),
    ensures
        r.0 == observations.filter(
                |o: ObservationRecord|
                    o.station_id@ == summaries[g].station_id@
                        && o.local_date == summaries[g].local_date,
            ),
        r.0 == picked(observations, r.1),
        r.1.len() > 0,
        summarizes(a, observations, r.1, summaries[g]@),
        values_of(observations, r.1, Quantity::Temperature) == r.0.filter_map(
            |o: ObservationRecord| o.temperature_c,
        ),
        values_of(observations, r.1, Quantity::Dewpoint) == r.0.filter_map(
            |o: ObservationRecord| o.dewpoint_c,
        ),
        values_of(observations, r.1, Quantity::RelativeHumidity) == r.0.filter_map(
            |o: ObservationRecord| o.relative_humidity_pct,
        ),
        values_of(observations, r.1, Quantity::WindSpeed) == r.0.filter_map(
            |o: ObservationRecord| o.wind_speed_kt,
        ),
        values_of(observations, r.1, Quantity::WindU) == r.0.filter_map(
            |o: ObservationRecord| o.wind_u_kt,
        ),
        values_of(observations, r.1, Quantity::WindV) == r.0.filter_map(
            |o: ObservationRecord| o.wind_v_kt,
        ),
        values_of(observations, r.1, Quantity::Precipitation) == r.0.filter_map(
            |o: ObservationRecord| o.precipitation_mm,
        ),
        values_of(observations, r.1, Quantity::CloudCover) == r.0.filter_map(
            |o: ObservationRecord| o.cloud_cover_fraction,
        ),
{
    let groups = choose|groups: Seq<Vec<usize>>| #[trigger]
        groups_days(groups, observations) && summaries.len() == groups.len() && forall|g: int|
            0 <= g < groups.len() ==> summarizes(
                a,
                observations,
                (#[trigger] groups[g])@,
                summaries[g]@,
            );
    let members = groups[g]@;
    let day = summaries[g];
    assert(summarizes(a, observations, groups[g]@, summaries[g]@));
    assert(day@.station == day.station_id@);
    assert(day@.date == day.local_date);
    lemma_group_is_the_day(observations, groups, g, day.station_id@, day.local_date);
    let of_day = picked(observations, members);
    let station = day.station_id@;
    let date = day.local_date;
    assert((|o: ObservationRecord| o.station_id@ == station && o.local_date == date) =~= (
    |o: ObservationRecord| o.station_id@ == day.station_id@ && o.local_date == day.local_date));
    assert((|o: ObservationRecord| o.station_id@ == station && o.local_date == date) =~= (
    |o: ObservationRecord|
        o.station_id@ == summaries[g].station_id@ && o.local_date == summaries[g].local_date));
    lemma_values_are_of_the_fields(observations, members, of_day);
    (of_day, members)
}

/// No wind speed observed on the day that is a number exceeds the summary's maximum, which is there
/// where one was observed, and is one of those observed.
pub proof fn law_no_wind_of_the_day_exceeds_the_maximum<A: Arithmetic>(
    a: &A,
    observations: Seq<ObservationRecord>,
    summaries: Seq<DailySummary>,
    g: int,
)
    requires
        observations.len() <= usize::MAX,
        summaries_are(a, observations, summaries),
        0 <= g < summaries.len(),
    ensures
        ({
            let day = summaries[g];
            &&& forall|i: int|
                0 <= i < observations.len() && (#[trigger] observations[i]).station_id@
                    == day.station_id@ && observations[i].local_date == day.local_date
                    && observations[i].wind_speed_kt is Some ==> {
                    &&& day.max_wind_speed_kt is Some
                    &&& !observations[i].wind_speed_kt->0.is_nan()
                        ==> day.max_wind_speed_kt->0.at_least(
                        observations[i].wind_speed_kt->0,
                    )
                }
            &&& day.max_wind_speed_kt is Some ==> exists|i: int|
                0 <= i < observations.len() && (#[trigger] observations[i]).station_id@
                    == day.station_id@ && observations[i].local_date == day.local_date
                    && observations[i].wind_speed_kt == day.max_wind_speed_kt
        }),
{
    let day = summaries[g];
    let (of_day, members) = lemma_summary(a, observations, summaries, g);
    let p = |o: ObservationRecord| o.station_id@ == day.station_id@
        && o.local_date == day.local_date;
    let f = |o: ObservationRecord| o.wind_speed_kt;
    assert(of_day == observations.filter(p));
    let values = of_day.filter_map(f);
    lemma_filter_holds(observations, p);
    lemma_filter_map_holds(of_day, f);
    assert(day.max_wind_speed_kt == greatest(values));
    assert forall|i: int|
        0 <= i < observations.len() && (#[trigger] observations[i]).station_id@ == day.station_id@
            && observations[i].local_date == day.local_date
                && observations[i].wind_speed_kt is Some implies {
        &&& day.max_wind_speed_kt is Some
        &&& !observations[i].wind_speed_kt->0.is_nan() ==> day.max_wind_speed_kt->0.at_least(
                        observations[i].wind_speed_kt->0,
                    )
    } by {
        assert(p(observations[i]));
        let k = choose|k: int| 0 <= k < of_day.len() && of_day[k] == observations[i];
        assert(f(of_day[k]) is Some);
        let v = observations[i].wind_speed_kt->0;
        let j = choose|j: int| 0 <= j < values.len() && values[j] == v;
        if !v.is_nan() {
            law_greatest_bounds_the_values(values, j);
        }
        crate::reading::law_extremes_are_values(values);
    }
    if day.max_wind_speed_kt is Some {
        crate::reading::law_extremes_are_values(values);
        let m = day.max_wind_speed_kt->0;
        let j = choose|j: int| 0 <= j < values.len() && values[j] == m;
        let k = choose|k: int| 0 <= k < of_day.len() && f(#[trigger] of_day[k]) == Some(values[j]);
        assert(observations.contains(of_day[k]) && p(of_day[k]));
        let i = choose|i: int| 0 <= i < observations.len() && observations[i] == of_day[k];
        assert(observations[i].wind_speed_kt == day.max_wind_speed_kt);
    }
}

/// No temperature observed on the day that is a number exceeds the summary's high, which is there
/// where one was observed, and is one of those observed.
pub proof fn law_no_temperature_of_the_day_exceeds_the_high<A: Arithmetic>(
    a: &A,
    observations: Seq<ObservationRecord>,
    summaries: Seq<DailySummary>,
    g: int,
)
    requires
        observations.len() <= usize::MAX,
        summaries_are(a, observations, summaries),
        0 <= g < summaries.len(),
    ensures
        ({
            let day = summaries[g];
            &&& forall|i: int|
                0 <= i < observations.len() && (#[trigger] observations[i]).station_id@
                    == day.station_id@ && observations[i].local_date == day.local_date
                    && observations[i].temperature_c is Some ==> {
                    &&& day.high_temp_c is Some
                    &&& !observations[i].temperature_c->0.is_nan() ==> day.high_temp_c->0.at_least(
                        observations[i].temperature_c->0,
                    )
                }
            &&& day.high_temp_c is Some ==> exists|i: int|
                0 <= i < observations.len() && (#[trigger] observations[i]).station_id@
                    == day.station_id@ && observations[i].local_date == day.local_date
                    && observations[i].temperature_c == day.high_temp_c
        }),
{
    let day = summaries[g];
    let (of_day, members) = lemma_summary(a, observations, summaries, g);
    let p = |o: ObservationRecord| o.station_id@ == day.station_id@
        && o.local_date == day.local_date;
    let f = |o: ObservationRecord| o.temperature_c;
    assert(of_day == observations.filter(p));
    let values = of_day.filter_map(f);
    lemma_filter_holds(observations, p);
    lemma_filter_map_holds(of_day, f);
    assert(day.high_temp_c == greatest(values));
    assert forall|i: int|
        0 <= i < observations.len() && (#[trigger] observations[i]).station_id@ == day.station_id@
            && observations[i].local_date == day.local_date
                && observations[i].temperature_c is Some implies {
        &&& day.high_temp_c is Some
        &&& !observations[i].temperature_c->0.is_nan() ==> day.high_temp_c->0.at_least(
                        observations[i].temperature_c->0,
                    )
    } by {
        assert(p(observations[i]));
        let k = choose|k: int| 0 <= k < of_day.len() && of_day[k] == observations[i];
        assert(f(of_day[k]) is Some);
        let v = observations[i].temperature_c->0;
        let j = choose|j: int| 0 <= j < values.len() && values[j] == v;
        if !v.is_nan() {
            law_greatest_bounds_the_values(values, j);
        }
        crate::reading::law_extremes_are_values(values);
    }
    if day.high_temp_c is Some {
        crate::reading::law_extremes_are_values(values);
        let m = day.high_temp_c->0;
        let j = choose|j: int| 0 <= j < values.len() && values[j] == m;
        let k = choose|k: int| 0 <= k < of_day.len() && f(#[trigger] of_day[k]) == Some(values[j]);
        assert(observations.contains(of_day[k]) && p(of_day[k]));
        let i = choose|i: int| 0 <= i < observations.len() && observations[i] == of_day[k];
        assert(observations[i].temperature_c == day.high_temp_c);
    }
}

/// No temperature observed on the day that is a number is below the summary's low, which is there
/// where one was observed, and is one of those observed.
pub proof fn law_no_temperature_of_the_day_is_below_the_low<A: Arithmetic>(
    a: &A,
    observations: Seq<ObservationRecord>,
    summaries: Seq<DailySummary>,
    g: int,
)
    requires
        observations.len() <= usize::MAX,
        summaries_are(a, observations, summaries),
        0 <= g < summaries.len(),
    ensures
        ({
            let day = summaries[g];
            &&& forall|i: int|
                0 <= i < observations.len() && (#[trigger] observations[i]).station_id@
                    == day.station_id@ && observations[i].local_date == day.local_date
                    && observations[i].temperature_c is Some ==> {
                    &&& day.low_temp_c is Some
                    &&& !observations[i].temperature_c->0.is_nan()
                        ==> observations[i].temperature_c->0.at_least(
                        day.low_temp_c->0,
                    )
                }
            &&& day.low_temp_c is Some ==> exists|i: int|
                0 <= i < observations.len() && (#[trigger] observations[i]).station_id@
                    == day.station_id@ && observations[i].local_date == day.local_date
                    && observations[i].temperature_c == day.low_temp_c
        }),
{
    let day = summaries[g];
    let (of_day, members) = lemma_summary(a, observations, summaries, g);
    let p = |o: ObservationRecord| o.station_id@ == day.station_id@
        && o.local_date == day.local_date;
    let f = |o: ObservationRecord| o.temperature_c;
    assert(of_day == observations.filter(p));
    let values = of_day.filter_map(f);
    lemma_filter_holds(observations, p);
    lemma_filter_map_holds(of_day, f);
    assert(day.low_temp_c == least(values));
    assert forall|i: int|
        0 <= i < observations.len() && (#[trigger] observations[i]).station_id@ == day.station_id@
            && observations[i].local_date == day.local_date
                && observations[i].temperature_c is Some implies {
        &&& day.low_temp_c is Some
        &&& !observations[i].temperature_c->0.is_nan()
            ==> observations[i].temperature_c->0.at_least(
                        day.low_temp_c->0,
                    )
    } by {
        assert(p(observations[i]));
        let k = choose|k: int| 0 <= k < of_day.len() && of_day[k] == observations[i];
        assert(f(of_day[k]) is Some);
        let v = observations[i].temperature_c->0;
        let j = choose|j: int| 0 <= j < values.len() && values[j] == v;
        if !v.is_nan() {
            law_least_bounds_the_values(values, j);
        }
        crate::reading::law_extremes_are_values(values);
    }
    if day.low_temp_c is Some {
        crate::reading::law_extremes_are_values(values);
        let m = day.low_temp_c->0;
        let j = choose|j: int| 0 <= j < values.len() && values[j] == m;
        let k = choose|k: int| 0 <= k < of_day.len() && f(#[trigger] of_day[k]) == Some(values[j]);
        assert(observations.contains(of_day[k]) && p(of_day[k]));
        let i = choose|i: int| 0 <= i < observations.len() && observations[i] == of_day[k];
        assert(observations[i].temperature_c == day.low_temp_c);
    }
}

/// An hour of a profile is made of the observations of its station and date whose local time is
/// within the hour: it counts them, and each of its means and its total are made of the values of
/// one quantity in all of them, in their order, and of nothing else.
pub proof fn law_hours_tell_of_the_observations_in_them<A: Arithmetic>(
    a: &A,
    observations: Seq<ObservationRecord>,
    profiles: Seq<DayProfile>,
    g: int,
    hour: int,
)
    requires
        observations.len() <= usize::MAX,
        profiles_are(a, observations, profiles),
        0 <= g < profiles.len(),
        0 <= hour < 24,
    ensures
        profiles[g].hours@.len() == 24,
        ({
            let day = profiles[g];
            let point = day.hours@[hour];
            let within = observations.filter(
                |o: ObservationRecord|
                    o.station_id@ == day.station_id@ && o.local_date == day.local_date,
            ).filter(|o: ObservationRecord| o.observed_at_local.clock() % 86400 / 3600 == hour);
            &&& point.hour == hour
            &&& point.sample_count == within.len()
            &&& is_their_mean(
                a,
                within.filter_map(|o: ObservationRecord| o.temperature_c),
                point.temperature_c,
            )
            &&& is_their_mean(
                a,
                within.filter_map(|o: ObservationRecord| o.dewpoint_c),
                point.dewpoint_c,
            )
            &&& is_their_mean(
                a,
                within.filter_map(|o: ObservationRecord| o.relative_humidity_pct),
                point.relative_humidity_pct,
            )
            &&& is_their_mean(
                a,
                within.filter_map(|o: ObservationRecord| o.wind_u_kt),
                point.wind_u_kt,
            )
            &&& is_their_mean(
                a,
                within.filter_map(|o: ObservationRecord| o.wind_v_kt),
                point.wind_v_kt,
            )
            &&& is_their_mean(
                a,
                within.filter_map(|o: ObservationRecord| o.cloud_cover_fraction),
                point.cloud_cover_fraction,
            )
            &&& is_their_sum(
                a,
                within.filter_map(|o: ObservationRecord| o.precipitation_mm),
                point.precipitation_mm,
            )
        }),
{
    let day = profiles[g];
    let (of_day, members) = lemma_profile(a, observations, profiles, g);
    let p = |o: ObservationRecord| o.station_id@ == day.station_id@
        && o.local_date == day.local_date;
    assert(of_day == observations.filter(p));
    let chosen = in_hour(observations, members, hour);
    assert(profiles_hour(a, observations, members, hour, day@.hours[hour]));
    lemma_picked_kept(
        observations,
        members,
        Seq::new(
            members.len(),
            |k: int|
                if hour_of(observations[members[k] as int]) == hour {
                    Some(members[k])
                } else {
                    None
                },
        ),
        |o: ObservationRecord| o.observed_at_local.clock() % 86400 / 3600 == hour,
    );
    let within = picked(observations, chosen);
    lemma_values_are_of_the_fields(observations, chosen, within);
}

/// What the profile of a day is made of.
proof fn lemma_profile<A: Arithmetic>(
    a: &A,
    observations: Seq<ObservationRecord>,
    profiles: Seq<DayProfile>,
    g: int,
) -> (r: (Seq<ObservationRecord>, Seq<usize>))
    requires
        observations.len() <= usize::MAX,
        profiles_are(a, observations, profiles),
        0 <= g < profiles.len(),
    ensures
        r.0 == observations.filter(
                |o: ObservationRecord|
                    o.station_id@ == profiles[g].station_id@
                        && o.local_date == profiles[g].local_date,
            ),
        r.0 == picked(observations, r.1),
        r.1.len() > 0,
        profiles_day(a, observations, r.1, profiles[g]@),
{
    let groups = choose|groups: Seq<Vec<usize>>| #[trigger]
        groups_days(groups, observations) && profiles.len() == groups.len() && forall|g: int|
            0 <= g < groups.len() ==> profiles_day(
                a,
                observations,
                (#[trigger] groups[g])@,
                profiles[g]@,
            );
    let members = groups[g]@;
    let day = profiles[g];
    assert(profiles_day(a, observations, groups[g]@, profiles[g]@));
    assert(day@.station == day.station_id@);
    assert(day@.date == day.local_date);
    lemma_group_is_the_day(observations, groups, g, day.station_id@, day.local_date);
    let of_day = picked(observations, members);
    let station = day.station_id@;
    let date = day.local_date;
    assert((|o: ObservationRecord| o.station_id@ == station && o.local_date == date) =~= (
    |o: ObservationRecord|
        o.station_id@ == profiles[g].station_id@ && o.local_date == profiles[g].local_date));
    (of_day, members)
}

/// There is one summary for each station and date with observations, and so there is one profile.
pub proof fn law_each_day_has_one_summary_and_profile<A: Arithmetic>(
    a: &A,
    observations: Seq<ObservationRecord>,
    summaries: Seq<DailySummary>,
    profiles: Seq<DayProfile>,
    i: int,
)
    requires
        observations.len() <= usize::MAX,
        summaries_are(a, observations, summaries),
        profiles_are(a, observations, profiles),
        0 <= i < observations.len(),
    ensures
        exists|g: int|
            0 <= g < summaries.len() && (#[trigger] summaries[g]).station_id@
                == observations[i].station_id@ && summaries[g].local_date
                == observations[i].local_date,
        exists|g: int|
            0 <= g < profiles.len() && (#[trigger] profiles[g]).station_id@
                == observations[i].station_id@ && profiles[g].local_date
                == observations[i].local_date,
        forall|g: int, h: int|
            0 <= g < h < summaries.len() ==> !((#[trigger] summaries[g]).station_id@ == (
            #[trigger] summaries[h]).station_id@ && summaries[g].local_date
                == summaries[h].local_date),
        forall|g: int, h: int|
            0 <= g < h < profiles.len() ==> !((#[trigger] profiles[g]).station_id@ == (
            #[trigger] profiles[h]).station_id@
                && profiles[g].local_date == profiles[h].local_date),
{
    let groups = choose|groups: Seq<Vec<usize>>| #[trigger]
        groups_days(groups, observations) && summaries.len() == groups.len() && forall|g: int|
            0 <= g < groups.len() ==> summarizes(
                a,
                observations,
                (#[trigger] groups[g])@,
                summaries[g]@,
            );
    assert forall|g: int| 0 <= g < groups.len() implies (#[trigger] summaries[g]).station_id@
        == observations[groups[g]@[0] as int].station_id@ && summaries[g].local_date
        == observations[groups[g]@[0] as int].local_date by {
        assert(summarizes(a, observations, groups[g]@, summaries[g]@));
        assert(summaries[g]@.station == summaries[g].station_id@);
    }
    let g = lemma_days_apart(observations, groups, i);
    assert(summaries[g].station_id@ == observations[i].station_id@);
    assert forall|g: int, h: int| 0 <= g < h < summaries.len()
        implies !((#[trigger] summaries[g]).station_id@
        == (#[trigger] summaries[h]).station_id@
            && summaries[g].local_date == summaries[h].local_date) by {
        assert(are_days_apart(observations, groups, g, h));
    }
    let others = choose|groups: Seq<Vec<usize>>| #[trigger]
        groups_days(groups, observations) && profiles.len() == groups.len() && forall|g: int|
            0 <= g < groups.len() ==> profiles_day(
                a,
                observations,
                (#[trigger] groups[g])@,
                profiles[g]@,
            );
    assert forall|g: int| 0 <= g < others.len() implies (#[trigger] profiles[g]).station_id@
        == observations[others[g]@[0] as int].station_id@ && profiles[g].local_date
        == observations[others[g]@[0] as int].local_date by {
        assert(profiles_day(a, observations, others[g]@, profiles[g]@));
        assert(profiles[g]@.station == profiles[g].station_id@);
    }
    let h = lemma_days_apart(observations, others, i);
    assert(profiles[h].station_id@ == observations[i].station_id@);
    assert forall|g: int, h: int| 0 <= g < h < profiles.len()
        implies !((#[trigger] profiles[g]).station_id@
        == (#[trigger] profiles[h]).station_id@
            && profiles[g].local_date == profiles[h].local_date) by {
        assert(are_days_apart(observations, others, g, h));
    }
}

/// The summaries of a station stand in the order of their dates.
pub proof fn law_days_of_a_station_stand_in_order<A: Arithmetic>(
    a: &A,
    observations: Seq<ObservationRecord>,
    summaries: Seq<DailySummary>,
    g: int,
    h: int,
)
    requires
        observations.len() <= usize::MAX,
        summaries_are(a, observations, summaries),
        0 <= g < h < summaries.len(),
        summaries[g].station_id@ == summaries[h].station_id@,
    ensures
        summaries[g].local_date.not_after(summaries[h].local_date),
        summaries[g].local_date != summaries[h].local_date,
{
    let groups = choose|groups: Seq<Vec<usize>>| #[trigger]
        groups_days(groups, observations) && summaries.len() == groups.len() && forall|g: int|
            0 <= g < groups.len() ==> summarizes(
                a,
                observations,
                (#[trigger] groups[g])@,
                summaries[g]@,
            );
    let keys = choose|keys: Seq<(Vec<char>, Date)>| #[trigger]
        day_keys(keys, observations) && is_grouping(keys, groups);
    assert(groups[g]@.len() > 0 && groups[h]@.len() > 0);
    assert(0 <= groups[g]@[0] < keys.len() && 0 <= groups[h]@[0] < keys.len());
    assert(summarizes(a, observations, groups[g]@, summaries[g]@));
    assert(summarizes(a, observations, groups[h]@, summaries[h]@));
    let left = keys[groups[g]@[0] as int];
    let right = keys[groups[h]@[0] as int];
    assert(!right.at_most(&left));
    <(Vec<char>, Date)>::total(&left, &right);
    assert(summaries[g]@.station == summaries[g].station_id@);
    assert(summaries[h]@.station == summaries[h].station_id@);
    assert(left.0@ == right.0@);
    lemma_same_keys_tie((left.0, left.1), (right.0, left.1));
    if left.1 == right.1 {
        lemma_same_keys_tie(left, right);
    }
}

spec fn are_days_apart(
    observations: Seq<ObservationRecord>,
    groups: Seq<Vec<usize>>,
    g: int,
    h: int,
) -> bool {
    let left = observations[groups[g]@[0] as int];
    let right = observations[groups[h]@[0] as int];
    !(left.station_id@ == right.station_id@ && left.local_date == right.local_date)
}

proof fn lemma_days_apart(
    observations: Seq<ObservationRecord>,
    groups: Seq<Vec<usize>>,
    i: int,
) -> (g: int)
    requires
        observations.len() <= usize::MAX,
        groups_days(groups, observations),
        0 <= i < observations.len(),
    ensures
        0 <= g < groups.len(),
        observations[groups[g]@[0] as int].station_id@ == observations[i].station_id@,
        observations[groups[g]@[0] as int].local_date == observations[i].local_date,
        forall|g: int, h: int|
            0 <= g < h < groups.len() ==> #[trigger] are_days_apart(observations, groups, g, h),
{
    let keys = choose|keys: Seq<(Vec<char>, Date)>| #[trigger]
        day_keys(keys, observations) && is_grouping(keys, groups);
    assert(crate::order::in_some_group(groups, i));
    let g = choose|g: int| #[trigger] crate::order::in_group(groups, g, i);
    let k = choose|k: int| 0 <= k < groups[g]@.len() && groups[g]@[k] == i as usize;
    law_groups_are_of_one_day(groups, observations, g, k, 0);
    assert forall|g: int, h: int| 0 <= g < h < groups.len() implies #[trigger] are_days_apart(
        observations,
        groups,
        g,
        h,
    ) by {
        assert(groups[g]@.len() > 0 && groups[h]@.len() > 0);
        assert(0 <= groups[g]@[0] < keys.len() && 0 <= groups[h]@[0] < keys.len());
        if !are_days_apart(observations, groups, g, h) {
            lemma_same_keys_tie(keys[groups[g]@[0] as int], keys[groups[h]@[0] as int]);
        }
    }
    g
}

proof fn lemma_slugs_name_the_sources(
    observations: Seq<ObservationRecord>,
    members: Seq<usize>,
    of_day: Seq<ObservationRecord>,
    slugs: Seq<Seq<char>>,
)
    requires
        of_day == picked(observations, members),
        slugs == slugs_of(observations, members),
    ensures
        slugs.contains("ghcnh"@) <==> exists|i: int|
                0 <= i < of_day.len() && (#[trigger] of_day[i]).source == DataSource::Ghcnh,
        slugs.contains("iem-asos-1min"@) <==> exists|i: int|
                0 <= i < of_day.len()
                    && (#[trigger] of_day[i]).source == DataSource::IemAsosOneMinute,
        slugs.contains("ncei-asos-5min"@) <==> exists|i: int|
                0 <= i < of_day.len()
                    && (#[trigger] of_day[i]).source == DataSource::NceiAsosFiveMinute,
        slugs.contains("nws-api"@) <==> exists|i: int|
                0 <= i < of_day.len() && (#[trigger] of_day[i]).source == DataSource::NwsApi,
        forall|k: int|
                0 <= k < slugs.len() ==> #[trigger] slugs[k] == "ghcnh"@ || slugs[k]
                    == "iem-asos-1min"@ || slugs[k] == "ncei-asos-5min"@ || slugs[k] == "nws-api"@,
        forall|k: int, l: int|
                0 <= k < l < slugs.len() ==> {
                    ||| (#[trigger] slugs[k])[0] < (#[trigger] slugs[l])[0]
                    ||| slugs[k][0] == slugs[l][0] && slugs[k][1] < slugs[l][1]
                },
{
    reveal_strlit("ghcnh");
    reveal_strlit("iem-asos-1min");
    reveal_strlit("ncei-asos-5min");
    reveal_strlit("nws-api");
    lemma_slug_lens();
    let a = slug_if(observations, members, DataSource::Ghcnh);
    let b = slug_if(observations, members, DataSource::IemAsosOneMinute);
    let c = slug_if(observations, members, DataSource::NceiAsosFiveMinute);
    let d = slug_if(observations, members, DataSource::NwsApi);
    assert(slugs == a + b + c + d);
    lemma_named(observations, members, of_day, DataSource::Ghcnh);
    lemma_named(observations, members, of_day, DataSource::IemAsosOneMinute);
    lemma_named(observations, members, of_day, DataSource::NceiAsosFiveMinute);
    lemma_named(observations, members, of_day, DataSource::NwsApi);
    if a.len() > 0 {
        assert(slugs[0] == "ghcnh"@);
    }
    if b.len() > 0 {
        assert(slugs[a.len() as int] == "iem-asos-1min"@);
    }
    if c.len() > 0 {
        assert(slugs[(a.len() + b.len()) as int] == "ncei-asos-5min"@);
    }
    if d.len() > 0 {
        assert(slugs[(a.len() + b.len() + c.len()) as int] == "nws-api"@);
    }
}

proof fn lemma_named(
    observations: Seq<ObservationRecord>,
    members: Seq<usize>,
    of_day: Seq<ObservationRecord>,
    source: DataSource,
)
    requires
        of_day == picked(observations, members),
    ensures
        slug_if(observations, members, source).len() > 0 <==> exists|i: int|
            0 <= i < of_day.len() && (#[trigger] of_day[i]).source == source,
        slug_if(observations, members, source).len() <= 1,
        slug_if(observations, members, source).len() > 0
            ==> slug_if(observations, members, source)[0]
            == crate::source::slug_of(source),
{
    if slug_if(observations, members, source).len() > 0 {
        let k = choose|k: int|
            0 <= k < members.len() && observations[#[trigger] members[k] as int].source == source;
        assert(of_day[k].source == source);
    }
    if exists|i: int| 0 <= i < of_day.len() && (#[trigger] of_day[i]).source == source {
        let i = choose|i: int| 0 <= i < of_day.len() && (#[trigger] of_day[i]).source == source;
        assert(observations[members[i] as int].source == source);
    }
}

/// The names of the sources of a summary: each source that an observation of the day came from is
/// named once, no other is, and they stand in the order of the alphabet.
pub proof fn law_summaries_name_the_sources_of_the_day<A: Arithmetic>(
    a: &A,
    observations: Seq<ObservationRecord>,
    summaries: Seq<DailySummary>,
    g: int,
)
    requires
        observations.len() <= usize::MAX,
        summaries_are(a, observations, summaries),
        0 <= g < summaries.len(),
    ensures
        ({
            let day = summaries[g];
            let slugs = texts(day.source_slugs@);
            let of_day = observations.filter(
                |o: ObservationRecord|
                    o.station_id@ == day.station_id@ && o.local_date == day.local_date,
            );
            &&& slugs.contains("ghcnh"@) <==> exists|i: int|
                0 <= i < of_day.len() && (#[trigger] of_day[i]).source == DataSource::Ghcnh
            &&& slugs.contains("iem-asos-1min"@) <==> exists|i: int|
                0 <= i < of_day.len()
                    && (#[trigger] of_day[i]).source == DataSource::IemAsosOneMinute
            &&& slugs.contains("ncei-asos-5min"@) <==> exists|i: int|
                0 <= i < of_day.len()
                    && (#[trigger] of_day[i]).source == DataSource::NceiAsosFiveMinute
            &&& slugs.contains("nws-api"@) <==> exists|i: int|
                0 <= i < of_day.len() && (#[trigger] of_day[i]).source == DataSource::NwsApi
            &&& forall|k: int|
                0 <= k < slugs.len() ==> #[trigger] slugs[k] == "ghcnh"@ || slugs[k]
                    == "iem-asos-1min"@ || slugs[k] == "ncei-asos-5min"@ || slugs[k] == "nws-api"@
            &&& forall|k: int, l: int|
                0 <= k < l < slugs.len() ==> {
                    ||| (#[trigger] slugs[k])[0] < (#[trigger] slugs[l])[0]
                    ||| slugs[k][0] == slugs[l][0] && slugs[k][1] < slugs[l][1]
                }
        }),
{
    let day = summaries[g];
    let (of_day, members) = lemma_summary(a, observations, summaries, g);
    let p = |o: ObservationRecord| o.station_id@ == day.station_id@
        && o.local_date == day.local_date;
    assert(of_day == observations.filter(p));
    lemma_slugs_name_the_sources(observations, members, of_day, texts(day.source_slugs@));
}

/// The names of the sources of a profile: each source that an observation of the day came from is
/// named once, no other is, and they stand in the order of the alphabet.
pub proof fn law_profiles_name_the_sources_of_the_day<A: Arithmetic>(
    a: &A,
    observations: Seq<ObservationRecord>,
    profiles: Seq<DayProfile>,
    g: int,
)
    requires
        observations.len() <= usize::MAX,
        profiles_are(a, observations, profiles),
        0 <= g < profiles.len(),
    ensures
        ({
            let day = profiles[g];
            let slugs = texts(day.source_slugs@);
            let of_day = observations.filter(
                |o: ObservationRecord|
                    o.station_id@ == day.station_id@ && o.local_date == day.local_date,
            );
            &&& slugs.contains("ghcnh"@) <==> exists|i: int|
                0 <= i < of_day.len() && (#[trigger] of_day[i]).source == DataSource::Ghcnh
            &&& slugs.contains("iem-asos-1min"@) <==> exists|i: int|
                0 <= i < of_day.len()
                    && (#[trigger] of_day[i]).source == DataSource::IemAsosOneMinute
            &&& slugs.contains("ncei-asos-5min"@) <==> exists|i: int|
                0 <= i < of_day.len()
                    && (#[trigger] of_day[i]).source == DataSource::NceiAsosFiveMinute
            &&& slugs.contains("nws-api"@) <==> exists|i: int|
                0 <= i < of_day.len() && (#[trigger] of_day[i]).source == DataSource::NwsApi
            &&& forall|k: int|
                0 <= k < slugs.len() ==> #[trigger] slugs[k] == "ghcnh"@ || slugs[k]
                    == "iem-asos-1min"@ || slugs[k] == "ncei-asos-5min"@ || slugs[k] == "nws-api"@
            &&& forall|k: int, l: int|
                0 <= k < l < slugs.len() ==> {
                    ||| (#[trigger] slugs[k])[0] < (#[trigger] slugs[l])[0]
                    ||| slugs[k][0] == slugs[l][0] && slugs[k][1] < slugs[l][1]
                }
        }),
{
    let day = profiles[g];
    let (of_day, members) = lemma_profile(a, observations, profiles, g);
    let p = |o: ObservationRecord| o.station_id@ == day.station_id@
        && o.local_date == day.local_date;
    assert(of_day == observations.filter(p));
    lemma_slugs_name_the_sources(observations, members, of_day, texts(day.source_slugs@));
}

/// The number of observed hours of a profile is that of its hours with a sample.
pub proof fn law_observed_hours_are_those_with_samples<A: Arithmetic>(
    a: &A,
    observations: Seq<ObservationRecord>,
    profiles: Seq<DayProfile>,
    g: int,
)
    requires
        observations.len() <= usize::MAX,
        profiles_are(a, observations, profiles),
        0 <= g < profiles.len(),
    ensures
        profiles[g].observed_hour_count == profiles[g].hours@.filter(
            |point: HourlyProfilePoint| point.sample_count > 0,
        ).len(),
{
    let (of_day, members) = lemma_profile(a, observations, profiles, g);
    lemma_observed_hours(profiles[g].hours@);
}

proof fn lemma_observed_hours(hours: Seq<HourlyProfilePoint>)
    ensures
        observed_hours(hours) == hours.filter(
            |point: HourlyProfilePoint| point.sample_count > 0,
        ).len(),
    decreases hours.len(),
{
    reveal(Seq::filter);
    if hours.len() > 0 {
        lemma_observed_hours(hours.drop_last());
    }
}

/// A mean of values from `low` to `high` is from `low` to `high`.
pub open spec fn means_stay_within<A: Arithmetic>(a: &A, low: Reading, high: Reading) -> bool {
    forall|list: &Vec<Reading>, m: Reading|
        list@.len() > 0 && (forall|k: int|
            0 <= k < list@.len() ==> (#[trigger] list@[k]).at_least(low) && high.at_least(list@[k]))
            && #[trigger] call_ensures(A::mean, (a, list), m)
                ==> m.at_least(low) && high.at_least(m)
}

/// The hourly temperature lies between bounds of those observed in the hour, wherever the means of
/// values within these bounds do, and there is none exactly where none was observed in the hour.
pub proof fn law_hourly_temperature_is_within_that_observed<A: Arithmetic>(
    a: &A,
    observations: Seq<ObservationRecord>,
    profiles: Seq<DayProfile>,
    g: int,
    hour: int,
    low: Reading,
    high: Reading,
)
    requires
        observations.len() <= usize::MAX,
        profiles_are(a, observations, profiles),
        0 <= g < profiles.len(),
        0 <= hour < 24,
        means_stay_within(a, low, high),
        forall|i: int|
            0 <= i < observations.len() && (#[trigger] observations[i]).station_id@
                == profiles[g].station_id@ && observations[i].local_date == profiles[g].local_date
                && observations[i].observed_at_local.clock() % 86400 / 3600 == hour
                && observations[i].temperature_c is Some
                    ==> observations[i].temperature_c->0.at_least(low)
                && high.at_least(observations[i].temperature_c->0),
    ensures
        profiles[g].hours@[hour].temperature_c is None <==> !exists|i: int|
            0 <= i < observations.len() && (#[trigger] observations[i]).station_id@
                == profiles[g].station_id@ && observations[i].local_date == profiles[g].local_date
                && observations[i].observed_at_local.clock() % 86400 / 3600 == hour
                && observations[i].temperature_c is Some,
        profiles[g].hours@[hour].temperature_c is Some ==> {
            &&& profiles[g].hours@[hour].temperature_c->0.at_least(low)
            &&& high.at_least(profiles[g].hours@[hour].temperature_c->0)
        },
{
    law_hours_tell_of_the_observations_in_them(a, observations, profiles, g, hour);
    let day = profiles[g];
    let p = |o: ObservationRecord| o.station_id@ == day.station_id@
        && o.local_date == day.local_date;
    let q = |o: ObservationRecord| o.observed_at_local.clock() % 86400 / 3600 == hour;
    let f = |o: ObservationRecord| o.temperature_c;
    let of_day = observations.filter(p);
    let within = of_day.filter(q);
    let values = within.filter_map(f);
    lemma_filter_holds(observations, p);
    lemma_filter_holds(of_day, q);
    lemma_filter_map_holds(within, f);
    assert forall|k: int| 0 <= k < values.len() implies exists|i: int|
        0 <= i < observations.len() && (#[trigger] observations[i]).station_id@ == day.station_id@
            && observations[i].local_date == day.local_date
            && observations[i].observed_at_local.clock() % 86400 / 3600 == hour
            && observations[i].temperature_c == Some(#[trigger] values[k]) by {
        let j = choose|j: int| 0 <= j < within.len() && f(#[trigger] within[j]) == Some(values[k]);
        assert(of_day.contains(within[j]) && q(within[j]));
        let l = choose|l: int| 0 <= l < of_day.len() && of_day[l] == within[j];
        assert(observations.contains(of_day[l]) && p(of_day[l]));
        let i = choose|i: int| 0 <= i < observations.len() && observations[i] == of_day[l];
        assert(observations[i].temperature_c == Some(values[k]));
    }
    if exists|i: int|
        0 <= i < observations.len() && (#[trigger] observations[i]).station_id@ == day.station_id@
            && observations[i].local_date == day.local_date
            && observations[i].observed_at_local.clock() % 86400 / 3600 == hour
            && observations[i].temperature_c is Some {
        let i = choose|i: int|
            0 <= i < observations.len() && (#[trigger] observations[i]).station_id@
                == day.station_id@ && observations[i].local_date == day.local_date
                && observations[i].observed_at_local.clock() % 86400 / 3600 == hour
                && observations[i].temperature_c is Some;
        assert(p(observations[i]));
        let l = choose|l: int| 0 <= l < of_day.len() && of_day[l] == observations[i];
        assert(q(of_day[l]));
        let j = choose|j: int| 0 <= j < within.len() && within[j] == of_day[l];
        assert(f(within[j]) is Some);
        assert(values.contains(f(within[j])->0));
        assert(values.len() > 0);
    }
    if values.len() > 0 {
        let v = values[0];
        let i = choose|i: int|
            0 <= i < observations.len() && (#[trigger] observations[i]).station_id@
                == day.station_id@ && observations[i].local_date == day.local_date
                && observations[i].observed_at_local.clock() % 86400 / 3600 == hour
                && observations[i].temperature_c == Some(values[0]);
        assert(observations[i].temperature_c is Some);
    }
}

/// The hourly dew point lies between bounds of those observed in the hour, wherever the means of
/// values within these bounds do, and there is none exactly where none was observed in the hour.
pub proof fn law_hourly_dew_point_is_within_that_observed<A: Arithmetic>(
    a: &A,
    observations: Seq<ObservationRecord>,
    profiles: Seq<DayProfile>,
    g: int,
    hour: int,
    low: Reading,
    high: Reading,
)
    requires
        observations.len() <= usize::MAX,
        profiles_are(a, observations, profiles),
        0 <= g < profiles.len(),
        0 <= hour < 24,
        means_stay_within(a, low, high),
        forall|i: int|
            0 <= i < observations.len() && (#[trigger] observations[i]).station_id@
                == profiles[g].station_id@ && observations[i].local_date == profiles[g].local_date
                && observations[i].observed_at_local.clock() % 86400 / 3600 == hour
                && observations[i].dewpoint_c is Some
                    ==> observations[i].dewpoint_c->0.at_least(low)
                && high.at_least(observations[i].dewpoint_c->0),
    ensures
        profiles[g].hours@[hour].dewpoint_c is None <==> !exists|i: int|
            0 <= i < observations.len() && (#[trigger] observations[i]).station_id@
                == profiles[g].station_id@ && observations[i].local_date == profiles[g].local_date
                && observations[i].observed_at_local.clock() % 86400 / 3600 == hour
                && observations[i].dewpoint_c is Some,
        profiles[g].hours@[hour].dewpoint_c is Some ==> {
            &&& profiles[g].hours@[hour].dewpoint_c->0.at_least(low)
            &&& high.at_least(profiles[g].hours@[hour].dewpoint_c->0)
        },
{
    law_hours_tell_of_the_observations_in_them(a, observations, profiles, g, hour);
    let day = profiles[g];
    let p = |o: ObservationRecord| o.station_id@ == day.station_id@
        && o.local_date == day.local_date;
    let q = |o: ObservationRecord| o.observed_at_local.clock() % 86400 / 3600 == hour;
    let f = |o: ObservationRecord| o.dewpoint_c;
    let of_day = observations.filter(p);
    let within = of_day.filter(q);
    let values = within.filter_map(f);
    lemma_filter_holds(observations, p);
    lemma_filter_holds(of_day, q);
    lemma_filter_map_holds(within, f);
    assert forall|k: int| 0 <= k < values.len() implies exists|i: int|
        0 <= i < observations.len() && (#[trigger] observations[i]).station_id@ == day.station_id@
            && observations[i].local_date == day.local_date
            && observations[i].observed_at_local.clock() % 86400 / 3600 == hour
            && observations[i].dewpoint_c == Some(#[trigger] values[k]) by {
        let j = choose|j: int| 0 <= j < within.len() && f(#[trigger] within[j]) == Some(values[k]);
        assert(of_day.contains(within[j]) && q(within[j]));
        let l = choose|l: int| 0 <= l < of_day.len() && of_day[l] == within[j];
        assert(observations.contains(of_day[l]) && p(of_day[l]));
        let i = choose|i: int| 0 <= i < observations.len() && observations[i] == of_day[l];
        assert(observations[i].dewpoint_c == Some(values[k]));
    }
    if exists|i: int|
        0 <= i < observations.len() && (#[trigger] observations[i]).station_id@ == day.station_id@
            && observations[i].local_date == day.local_date
            && observations[i].observed_at_local.clock() % 86400 / 3600 == hour
            && observations[i].dewpoint_c is Some {
        let i = choose|i: int|
            0 <= i < observations.len() && (#[trigger] observations[i]).station_id@
                == day.station_id@ && observations[i].local_date == day.local_date
                && observations[i].observed_at_local.clock() % 86400 / 3600 == hour
                && observations[i].dewpoint_c is Some;
        assert(p(observations[i]));
        let l = choose|l: int| 0 <= l < of_day.len() && of_day[l] == observations[i];
        assert(q(of_day[l]));
        let j = choose|j: int| 0 <= j < within.len() && within[j] == of_day[l];
        assert(f(within[j]) is Some);
        assert(values.contains(f(within[j])->0));
        assert(values.len() > 0);
    }
    if values.len() > 0 {
        let v = values[0];
        let i = choose|i: int|
            0 <= i < observations.len() && (#[trigger] observations[i]).station_id@
                == day.station_id@ && observations[i].local_date == day.local_date
                && observations[i].observed_at_local.clock() % 86400 / 3600 == hour
                && observations[i].dewpoint_c == Some(values[0]);
        assert(observations[i].dewpoint_c is Some);
    }
}

/// The hourly relative humidity lies between bounds of those observed in the hour, wherever the
/// means of values within these bounds do, and there is none exactly where none was observed in the
/// hour.
pub proof fn law_hourly_humidity_is_within_that_observed<A: Arithmetic>(
    a: &A,
    observations: Seq<ObservationRecord>,
    profiles: Seq<DayProfile>,
    g: int,
    hour: int,
    low: Reading,
    high: Reading,
)
    requires
        observations.len() <= usize::MAX,
        profiles_are(a, observations, profiles),
        0 <= g < profiles.len(),
        0 <= hour < 24,
        means_stay_within(a, low, high),
        forall|i: int|
            0 <= i < observations.len() && (#[trigger] observations[i]).station_id@
                == profiles[g].station_id@ && observations[i].local_date == profiles[g].local_date
                && observations[i].observed_at_local.clock() % 86400 / 3600 == hour
                && observations[i].relative_humidity_pct is Some
                    ==> observations[i].relative_humidity_pct->0.at_least(low)
                && high.at_least(observations[i].relative_humidity_pct->0),
    ensures
        profiles[g].hours@[hour].relative_humidity_pct is None <==> !exists|i: int|
            0 <= i < observations.len() && (#[trigger] observations[i]).station_id@
                == profiles[g].station_id@ && observations[i].local_date == profiles[g].local_date
                && observations[i].observed_at_local.clock() % 86400 / 3600 == hour
                && observations[i].relative_humidity_pct is Some,
        profiles[g].hours@[hour].relative_humidity_pct is Some ==> {
            &&& profiles[g].hours@[hour].relative_humidity_pct->0.at_least(low)
            &&& high.at_least(profiles[g].hours@[hour].relative_humidity_pct->0)
        },
{
    law_hours_tell_of_the_observations_in_them(a, observations, profiles, g, hour);
    let day = profiles[g];
    let p = |o: ObservationRecord| o.station_id@ == day.station_id@
        && o.local_date == day.local_date;
    let q = |o: ObservationRecord| o.observed_at_local.clock() % 86400 / 3600 == hour;
    let f = |o: ObservationRecord| o.relative_humidity_pct;
    let of_day = observations.filter(p);
    let within = of_day.filter(q);
    let values = within.filter_map(f);
    lemma_filter_holds(observations, p);
    lemma_filter_holds(of_day, q);
    lemma_filter_map_holds(within, f);
    assert forall|k: int| 0 <= k < values.len() implies exists|i: int|
        0 <= i < observations.len() && (#[trigger] observations[i]).station_id@ == day.station_id@
            && observations[i].local_date == day.local_date
            && observations[i].observed_at_local.clock() % 86400 / 3600 == hour
            && observations[i].relative_humidity_pct == Some(#[trigger] values[k]) by {
        let j = choose|j: int| 0 <= j < within.len() && f(#[trigger] within[j]) == Some(values[k]);
        assert(of_day.contains(within[j]) && q(within[j]));
        let l = choose|l: int| 0 <= l < of_day.len() && of_day[l] == within[j];
        assert(observations.contains(of_day[l]) && p(of_day[l]));
        let i = choose|i: int| 0 <= i < observations.len() && observations[i] == of_day[l];
        assert(observations[i].relative_humidity_pct == Some(values[k]));
    }
    if exists|i: int|
        0 <= i < observations.len() && (#[trigger] observations[i]).station_id@ == day.station_id@
            && observations[i].local_date == day.local_date
            && observations[i].observed_at_local.clock() % 86400 / 3600 == hour
            && observations[i].relative_humidity_pct is Some {
        let i = choose|i: int|
            0 <= i < observations.len() && (#[trigger] observations[i]).station_id@
                == day.station_id@ && observations[i].local_date == day.local_date
                && observations[i].observed_at_local.clock() % 86400 / 3600 == hour
                && observations[i].relative_humidity_pct is Some;
        assert(p(observations[i]));
        let l = choose|l: int| 0 <= l < of_day.len() && of_day[l] == observations[i];
        assert(q(of_day[l]));
        let j = choose|j: int| 0 <= j < within.len() && within[j] == of_day[l];
        assert(f(within[j]) is Some);
        assert(values.contains(f(within[j])->0));
        assert(values.len() > 0);
    }
    if values.len() > 0 {
        let v = values[0];
        let i = choose|i: int|
            0 <= i < observations.len() && (#[trigger] observations[i]).station_id@
                == day.station_id@ && observations[i].local_date == day.local_date
                && observations[i].observed_at_local.clock() % 86400 / 3600 == hour
                && observations[i].relative_humidity_pct == Some(values[0]);
        assert(observations[i].relative_humidity_pct is Some);
    }
}

/// The hourly wind along the first axis lies between bounds of those observed in the hour, wherever
/// the means of values within these bounds do, and there is none exactly where none was observed in
/// the hour.
pub proof fn law_hourly_eastward_wind_is_within_that_observed<A: Arithmetic>(
    a: &A,
    observations: Seq<ObservationRecord>,
    profiles: Seq<DayProfile>,
    g: int,
    hour: int,
    low: Reading,
    high: Reading,
)
    requires
        observations.len() <= usize::MAX,
        profiles_are(a, observations, profiles),
        0 <= g < profiles.len(),
        0 <= hour < 24,
        means_stay_within(a, low, high),
        forall|i: int|
            0 <= i < observations.len() && (#[trigger] observations[i]).station_id@
                == profiles[g].station_id@ && observations[i].local_date == profiles[g].local_date
                && observations[i].observed_at_local.clock() % 86400 / 3600 == hour
                && observations[i].wind_u_kt is Some ==> observations[i].wind_u_kt->0.at_least(low)
                && high.at_least(observations[i].wind_u_kt->0),
    ensures
        profiles[g].hours@[hour].wind_u_kt is None <==> !exists|i: int|
            0 <= i < observations.len() && (#[trigger] observations[i]).station_id@
                == profiles[g].station_id@ && observations[i].local_date == profiles[g].local_date
                && observations[i].observed_at_local.clock() % 86400 / 3600 == hour
                && observations[i].wind_u_kt is Some,
        profiles[g].hours@[hour].wind_u_kt is Some ==> {
            &&& profiles[g].hours@[hour].wind_u_kt->0.at_least(low)
            &&& high.at_least(profiles[g].hours@[hour].wind_u_kt->0)
        },
{
    law_hours_tell_of_the_observations_in_them(a, observations, profiles, g, hour);
    let day = profiles[g];
    let p = |o: ObservationRecord| o.station_id@ == day.station_id@
        && o.local_date == day.local_date;
    let q = |o: ObservationRecord| o.observed_at_local.clock() % 86400 / 3600 == hour;
    let f = |o: ObservationRecord| o.wind_u_kt;
    let of_day = observations.filter(p);
    let within = of_day.filter(q);
    let values = within.filter_map(f);
    lemma_filter_holds(observations, p);
    lemma_filter_holds(of_day, q);
    lemma_filter_map_holds(within, f);
    assert forall|k: int| 0 <= k < values.len() implies exists|i: int|
        0 <= i < observations.len() && (#[trigger] observations[i]).station_id@ == day.station_id@
            && observations[i].local_date == day.local_date
            && observations[i].observed_at_local.clock() % 86400 / 3600 == hour
            && observations[i].wind_u_kt == Some(#[trigger] values[k]) by {
        let j = choose|j: int| 0 <= j < within.len() && f(#[trigger] within[j]) == Some(values[k]);
        assert(of_day.contains(within[j]) && q(within[j]));
        let l = choose|l: int| 0 <= l < of_day.len() && of_day[l] == within[j];
        assert(observations.contains(of_day[l]) && p(of_day[l]));
        let i = choose|i: int| 0 <= i < observations.len() && observations[i] == of_day[l];
        assert(observations[i].wind_u_kt == Some(values[k]));
    }
    if exists|i: int|
        0 <= i < observations.len() && (#[trigger] observations[i]).station_id@ == day.station_id@
            && observations[i].local_date == day.local_date
            && observations[i].observed_at_local.clock() % 86400 / 3600 == hour
            && observations[i].wind_u_kt is Some {
        let i = choose|i: int|
            0 <= i < observations.len() && (#[trigger] observations[i]).station_id@
                == day.station_id@ && observations[i].local_date == day.local_date
                && observations[i].observed_at_local.clock() % 86400 / 3600 == hour
                && observations[i].wind_u_kt is Some;
        assert(p(observations[i]));
        let l = choose|l: int| 0 <= l < of_day.len() && of_day[l] == observations[i];
        assert(q(of_day[l]));
        let j = choose|j: int| 0 <= j < within.len() && within[j] == of_day[l];
        assert(f(within[j]) is Some);
        assert(values.contains(f(within[j])->0));
        assert(values.len() > 0);
    }
    if values.len() > 0 {
        let v = values[0];
        let i = choose|i: int|
            0 <= i < observations.len() && (#[trigger] observations[i]).station_id@
                == day.station_id@ && observations[i].local_date == day.local_date
                && observations[i].observed_at_local.clock() % 86400 / 3600 == hour
                && observations[i].wind_u_kt == Some(values[0]);
        assert(observations[i].wind_u_kt is Some);
    }
}

/// The hourly wind along the second axis lies between bounds of those observed in the hour,
/// wherever the means of values within these bounds do, and there is none exactly where none was
/// observed in the hour.
pub proof fn law_hourly_northward_wind_is_within_that_observed<A: Arithmetic>(
    a: &A,
    observations: Seq<ObservationRecord>,
    profiles: Seq<DayProfile>,
    g: int,
    hour: int,
    low: Reading,
    high: Reading,
)
    requires
        observations.len() <= usize::MAX,
        profiles_are(a, observations, profiles),
        0 <= g < profiles.len(),
        0 <= hour < 24,
        means_stay_within(a, low, high),
        forall|i: int|
            0 <= i < observations.len() && (#[trigger] observations[i]).station_id@
                == profiles[g].station_id@ && observations[i].local_date == profiles[g].local_date
                && observations[i].observed_at_local.clock() % 86400 / 3600 == hour
                && observations[i].wind_v_kt is Some ==> observations[i].wind_v_kt->0.at_least(low)
                && high.at_least(observations[i].wind_v_kt->0),
    ensures
        profiles[g].hours@[hour].wind_v_kt is None <==> !exists|i: int|
            0 <= i < observations.len() && (#[trigger] observations[i]).station_id@
                == profiles[g].station_id@ && observations[i].local_date == profiles[g].local_date
                && observations[i].observed_at_local.clock() % 86400 / 3600 == hour
                && observations[i].wind_v_kt is Some,
        profiles[g].hours@[hour].wind_v_kt is Some ==> {
            &&& profiles[g].hours@[hour].wind_v_kt->0.at_least(low)
            &&& high.at_least(profiles[g].hours@[hour].wind_v_kt->0)
        },
{
    law_hours_tell_of_the_observations_in_them(a, observations, profiles, g, hour);
    let day = profiles[g];
    let p = |o: ObservationRecord| o.station_id@ == day.station_id@
        && o.local_date == day.local_date;
    let q = |o: ObservationRecord| o.observed_at_local.clock() % 86400 / 3600 == hour;
    let f = |o: ObservationRecord| o.wind_v_kt;
    let of_day = observations.filter(p);
    let within = of_day.filter(q);
    let values = within.filter_map(f);
    lemma_filter_holds(observations, p);
    lemma_filter_holds(of_day, q);
    lemma_filter_map_holds(within, f);
    assert forall|k: int| 0 <= k < values.len() implies exists|i: int|
        0 <= i < observations.len() && (#[trigger] observations[i]).station_id@ == day.station_id@
            && observations[i].local_date == day.local_date
            && observations[i].observed_at_local.clock() % 86400 / 3600 == hour
            && observations[i].wind_v_kt == Some(#[trigger] values[k]) by {
        let j = choose|j: int| 0 <= j < within.len() && f(#[trigger] within[j]) == Some(values[k]);
        assert(of_day.contains(within[j]) && q(within[j]));
        let l = choose|l: int| 0 <= l < of_day.len() && of_day[l] == within[j];
        assert(observations.contains(of_day[l]) && p(of_day[l]));
        let i = choose|i: int| 0 <= i < observations.len() && observations[i] == of_day[l];
        assert(observations[i].wind_v_kt == Some(values[k]));
    }
    if exists|i: int|
        0 <= i < observations.len() && (#[trigger] observations[i]).station_id@ == day.station_id@
            && observations[i].local_date == day.local_date
            && observations[i].observed_at_local.clock() % 86400 / 3600 == hour
            && observations[i].wind_v_kt is Some {
        let i = choose|i: int|
            0 <= i < observations.len() && (#[trigger] observations[i]).station_id@
                == day.station_id@ && observations[i].local_date == day.local_date
                && observations[i].observed_at_local.clock() % 86400 / 3600 == hour
                && observations[i].wind_v_kt is Some;
        assert(p(observations[i]));
        let l = choose|l: int| 0 <= l < of_day.len() && of_day[l] == observations[i];
        assert(q(of_day[l]));
        let j = choose|j: int| 0 <= j < within.len() && within[j] == of_day[l];
        assert(f(within[j]) is Some);
        assert(values.contains(f(within[j])->0));
        assert(values.len() > 0);
    }
    if values.len() > 0 {
        let v = values[0];
        let i = choose|i: int|
            0 <= i < observations.len() && (#[trigger] observations[i]).station_id@
                == day.station_id@ && observations[i].local_date == day.local_date
                && observations[i].observed_at_local.clock() % 86400 / 3600 == hour
                && observations[i].wind_v_kt == Some(values[0]);
        assert(observations[i].wind_v_kt is Some);
    }
}

/// The hourly cloud cover lies between bounds of those observed in the hour, wherever the means of
/// values within these bounds do, and there is none exactly where none was observed in the hour.
pub proof fn law_hourly_cloud_cover_is_within_that_observed<A: Arithmetic>(
    a: &A,
    observations: Seq<ObservationRecord>,
    profiles: Seq<DayProfile>,
    g: int,
    hour: int,
    low: Reading,
    high: Reading,
)
    requires
        observations.len() <= usize::MAX,
        profiles_are(a, observations, profiles),
        0 <= g < profiles.len(),
        0 <= hour < 24,
        means_stay_within(a, low, high),
        forall|i: int|
            0 <= i < observations.len() && (#[trigger] observations[i]).station_id@
                == profiles[g].station_id@ && observations[i].local_date == profiles[g].local_date
                && observations[i].observed_at_local.clock() % 86400 / 3600 == hour
                && observations[i].cloud_cover_fraction is Some
                    ==> observations[i].cloud_cover_fraction->0.at_least(low)
                && high.at_least(observations[i].cloud_cover_fraction->0),
    ensures
        profiles[g].hours@[hour].cloud_cover_fraction is None <==> !exists|i: int|
            0 <= i < observations.len() && (#[trigger] observations[i]).station_id@
                == profiles[g].station_id@ && observations[i].local_date == profiles[g].local_date
                && observations[i].observed_at_local.clock() % 86400 / 3600 == hour
                && observations[i].cloud_cover_fraction is Some,
        profiles[g].hours@[hour].cloud_cover_fraction is Some ==> {
            &&& profiles[g].hours@[hour].cloud_cover_fraction->0.at_least(low)
            &&& high.at_least(profiles[g].hours@[hour].cloud_cover_fraction->0)
        },
{
    law_hours_tell_of_the_observations_in_them(a, observations, profiles, g, hour);
    let day = profiles[g];
    let p = |o: ObservationRecord| o.station_id@ == day.station_id@
        && o.local_date == day.local_date;
    let q = |o: ObservationRecord| o.observed_at_local.clock() % 86400 / 3600 == hour;
    let f = |o: ObservationRecord| o.cloud_cover_fraction;
    let of_day = observations.filter(p);
    let within = of_day.filter(q);
    let values = within.filter_map(f);
    lemma_filter_holds(observations, p);
    lemma_filter_holds(of_day, q);
    lemma_filter_map_holds(within, f);
    assert forall|k: int| 0 <= k < values.len() implies exists|i: int|
        0 <= i < observations.len() && (#[trigger] observations[i]).station_id@ == day.station_id@
            && observations[i].local_date == day.local_date
            && observations[i].observed_at_local.clock() % 86400 / 3600 == hour
            && observations[i].cloud_cover_fraction == Some(#[trigger] values[k]) by {
        let j = choose|j: int| 0 <= j < within.len() && f(#[trigger] within[j]) == Some(values[k]);
        assert(of_day.contains(within[j]) && q(within[j]));
        let l = choose|l: int| 0 <= l < of_day.len() && of_day[l] == within[j];
        assert(observations.contains(of_day[l]) && p(of_day[l]));
        let i = choose|i: int| 0 <= i < observations.len() && observations[i] == of_day[l];
        assert(observations[i].cloud_cover_fraction == Some(values[k]));
    }
    if exists|i: int|
        0 <= i < observations.len() && (#[trigger] observations[i]).station_id@ == day.station_id@
            && observations[i].local_date == day.local_date
            && observations[i].observed_at_local.clock() % 86400 / 3600 == hour
            && observations[i].cloud_cover_fraction is Some {
        let i = choose|i: int|
            0 <= i < observations.len() && (#[trigger] observations[i]).station_id@
                == day.station_id@ && observations[i].local_date == day.local_date
                && observations[i].observed_at_local.clock() % 86400 / 3600 == hour
                && observations[i].cloud_cover_fraction is Some;
        assert(p(observations[i]));
        let l = choose|l: int| 0 <= l < of_day.len() && of_day[l] == observations[i];
        assert(q(of_day[l]));
        let j = choose|j: int| 0 <= j < within.len() && within[j] == of_day[l];
        assert(f(within[j]) is Some);
        assert(values.contains(f(within[j])->0));
        assert(values.len() > 0);
    }
    if values.len() > 0 {
        let v = values[0];
        let i = choose|i: int|
            0 <= i < observations.len() && (#[trigger] observations[i]).station_id@
                == day.station_id@ && observations[i].local_date == day.local_date
                && observations[i].observed_at_local.clock() % 86400 / 3600 == hour
                && observations[i].cloud_cover_fraction == Some(values[0]);
        assert(observations[i].cloud_cover_fraction is Some);
    }
}

/// Two lists of observations that agree in stations, dates, local times and one quantity, and
/// perhaps in nothing else, give hours that agree in the mean of that quantity.
pub proof fn law_hourly_means_depend_on_their_own_quantity<A: Arithmetic>(
    a: &A,
    one: Seq<ObservationRecord>,
    other: Seq<ObservationRecord>,
    left: Seq<DayProfile>,
    right: Seq<DayProfile>,
    g: int,
    h: int,
    hour: int,
)
    requires
        measures_alike(a),
        one.len() == other.len() <= usize::MAX,
        forall|i: int|
            0 <= i < one.len() ==> (#[trigger] one[i]).station_id@ == other[i].station_id@
                && one[i].local_date == other[i].local_date && one[i].observed_at_local
                == other[i].observed_at_local,
        profiles_are(a, one, left),
        profiles_are(a, other, right),
        0 <= g < left.len(),
        0 <= h < right.len(),
        left[g].station_id@ == right[h].station_id@,
        left[g].local_date == right[h].local_date,
        0 <= hour < 24,
    ensures
        left[g].hours@[hour].sample_count == right[h].hours@[hour].sample_count,
        (forall|i: int| 0 <= i < one.len()
            ==> (#[trigger] one[i]).temperature_c == other[i].temperature_c)
            ==> left[g].hours@[hour].temperature_c == right[h].hours@[hour].temperature_c,
        (forall|i: int| 0 <= i < one.len()
            ==> (#[trigger] one[i]).dewpoint_c == other[i].dewpoint_c)
            ==> left[g].hours@[hour].dewpoint_c == right[h].hours@[hour].dewpoint_c,
        (forall|i: int| 0 <= i < one.len()
            ==> (#[trigger] one[i]).relative_humidity_pct == other[i].relative_humidity_pct)
            ==> left[g].hours@[hour].relative_humidity_pct
                == right[h].hours@[hour].relative_humidity_pct,
        (forall|i: int| 0 <= i < one.len() ==> (#[trigger] one[i]).wind_u_kt == other[i].wind_u_kt)
            ==> left[g].hours@[hour].wind_u_kt == right[h].hours@[hour].wind_u_kt,
        (forall|i: int| 0 <= i < one.len() ==> (#[trigger] one[i]).wind_v_kt == other[i].wind_v_kt)
            ==> left[g].hours@[hour].wind_v_kt == right[h].hours@[hour].wind_v_kt,
        (forall|i: int| 0 <= i < one.len()
            ==> (#[trigger] one[i]).cloud_cover_fraction == other[i].cloud_cover_fraction)
            ==> left[g].hours@[hour].cloud_cover_fraction
                == right[h].hours@[hour].cloud_cover_fraction,
{
    law_hours_tell_of_the_observations_in_them(a, one, left, g, hour);
    law_hours_tell_of_the_observations_in_them(a, other, right, h, hour);
    let day = left[g];
    let other_day = right[h];
    let p = |o: ObservationRecord| o.station_id@ == day.station_id@
        && o.local_date == day.local_date;
    let r = |o: ObservationRecord|
        o.station_id@ == other_day.station_id@ && o.local_date == other_day.local_date;
    assert(p =~= r);
    let q = |o: ObservationRecord| o.observed_at_local.clock() % 86400 / 3600 == hour;
    if forall|i: int| 0 <= i < one.len()
        ==> (#[trigger] one[i]).temperature_c == other[i].temperature_c {
        lemma_same_values(one, other, p, q, |o: ObservationRecord| o.temperature_c);
    }
    if forall|i: int| 0 <= i < one.len() ==> (#[trigger] one[i]).dewpoint_c == other[i].dewpoint_c {
        lemma_same_values(one, other, p, q, |o: ObservationRecord| o.dewpoint_c);
    }
    if forall|i: int| 0 <= i < one.len()
        ==> (#[trigger] one[i]).relative_humidity_pct == other[i].relative_humidity_pct {
        lemma_same_values(one, other, p, q, |o: ObservationRecord| o.relative_humidity_pct);
    }
    if forall|i: int| 0 <= i < one.len() ==> (#[trigger] one[i]).wind_u_kt == other[i].wind_u_kt {
        lemma_same_values(one, other, p, q, |o: ObservationRecord| o.wind_u_kt);
    }
    if forall|i: int| 0 <= i < one.len() ==> (#[trigger] one[i]).wind_v_kt == other[i].wind_v_kt {
        lemma_same_values(one, other, p, q, |o: ObservationRecord| o.wind_v_kt);
    }
    if forall|i: int| 0 <= i < one.len()
        ==> (#[trigger] one[i]).cloud_cover_fraction == other[i].cloud_cover_fraction {
        lemma_same_values(one, other, p, q, |o: ObservationRecord| o.cloud_cover_fraction);
    }
    lemma_same_values(one, other, p, q, |o: ObservationRecord| None);
}

proof fn lemma_same_values(
    one: Seq<ObservationRecord>,
    other: Seq<ObservationRecord>,
    p: spec_fn(ObservationRecord) -> bool,
    q: spec_fn(ObservationRecord) -> bool,
    f: spec_fn(ObservationRecord) -> Option<Reading>,
)
    requires
        one.len() == other.len(),
        forall|i: int|
            0 <= i < one.len() ==> p(#[trigger] one[i]) == p(other[i]) && q(one[i]) == q(other[i])
                && f(one[i]) == f(other[i]),
    ensures
        one.filter(p).filter(q).filter_map(f) == other.filter(p).filter(q).filter_map(f),
        one.filter(p).filter(q).len() == other.filter(p).filter(q).len(),
    decreases one.len(),
{
    reveal(Seq::filter);
    if one.len() > 0 {
        let n = one.len() - 1;
        let x = one[n];
        let y = other[n];
        assert(p(one[n]) == p(other[n]) && q(one[n]) == q(other[n]) && f(one[n]) == f(other[n]));
        let front = one.drop_last();
        let rest = other.drop_last();
        assert forall|i: int| 0 <= i < front.len()
            implies p(#[trigger] front[i]) == p(rest[i]) && q(
            front[i],
        ) == q(rest[i]) && f(front[i]) == f(rest[i]) by {
            assert(front[i] == one[i]);
        }
        lemma_same_values(front, rest, p, q, f);
        if p(x) {
            assert(one.filter(p).drop_last() =~= front.filter(p));
            assert(other.filter(p).drop_last() =~= rest.filter(p));
            if q(x) {
                assert(one.filter(p).filter(q).drop_last() =~= front.filter(p).filter(q));
                assert(other.filter(p).filter(q).drop_last() =~= rest.filter(p).filter(q));
            }
        }
    }
}

} // verus!
