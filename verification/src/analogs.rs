//! Past days whose hours were like those of a target day.
use vstd::prelude::*;
use crate::calendar::Date;
use crate::domain::{
    kept, lemma_kept_push, AnalogModel, AnalogResult, DailySummary, DayProfile, HourlyProfilePoint,
    StationId,
};
use crate::engine::mean_is;
use crate::numeral::{join, joined};
use crate::order::{is_stable_order, lemma_one_stable_order, precedes, sort_order, Key};
use crate::reading::{measures_alike, Arithmetic, Contrast, Reading};
use crate::source::{slug_of, DataSource};
use crate::text::{same_text, texts};

verus! {

/// The values of one quantity in two hours, where both have it: the lesser, then the greater.
pub open spec fn contrast_if(left: Option<Reading>, right: Option<Reading>, scale_tenths: u32) -> Seq<
    Contrast,
> {
    match (left, right) {
        (Some(l), Some(r)) => if l.total_rank() <= r.total_rank() {
            seq![Contrast { lesser: l, greater: r, scale_tenths }]
        } else {
            seq![Contrast { lesser: r, greater: l, scale_tenths }]
        },
        _ => seq![],
    }
}

/// The quantities that two hours both have: temperature, dew point and the parts of the wind on a
/// scale of ten, humidity of twenty, clouds of a half and rain of five.
pub open spec fn contrasts(left: HourlyProfilePoint, right: HourlyProfilePoint) -> Seq<Contrast> {
    contrast_if(left.temperature_c, right.temperature_c, 100) + contrast_if(
        left.dewpoint_c,
        right.dewpoint_c,
        100,
    ) + contrast_if(left.relative_humidity_pct, right.relative_humidity_pct, 200) + contrast_if(
        left.wind_u_kt,
        right.wind_u_kt,
        100,
    ) + contrast_if(left.wind_v_kt, right.wind_v_kt, 100) + contrast_if(
        left.cloud_cover_fraction,
        right.cloud_cover_fraction,
        5,
    ) + contrast_if(left.precipitation_mm, right.precipitation_mm, 50)
}

fn collect_distance(
    list: &mut Vec<Contrast>,
    left: Option<Reading>,
    right: Option<Reading>,
    scale_tenths: u32,
)
    ensures
        final(list)@ == old(list)@ + contrast_if(left, right, scale_tenths),
{
    let ghost before = list@;
    if let (Some(l), Some(r)) = (left, right) {
        if l.total_key() <= r.total_key() {
            list.push(Contrast { lesser: l, greater: r, scale_tenths });
        } else {
            list.push(Contrast { lesser: r, greater: l, scale_tenths });
        }
        assert(list@ =~= before + contrast_if(left, right, scale_tenths));
    } else {
        assert(list@ =~= before + contrast_if(left, right, scale_tenths));
    }
}

/// The quantities that two hours both have.
pub fn compare_hours(left: &HourlyProfilePoint, right: &HourlyProfilePoint) -> (r: Vec<Contrast>)
    ensures
        r@ == contrasts(*left, *right),
{
    let mut list: Vec<Contrast> = Vec::new();
    collect_distance(&mut list, left.temperature_c, right.temperature_c, 100);
    collect_distance(&mut list, left.dewpoint_c, right.dewpoint_c, 100);
    collect_distance(&mut list, left.relative_humidity_pct, right.relative_humidity_pct, 200);
    collect_distance(&mut list, left.wind_u_kt, right.wind_u_kt, 100);
    collect_distance(&mut list, left.wind_v_kt, right.wind_v_kt, 100);
    collect_distance(&mut list, left.cloud_cover_fraction, right.cloud_cover_fraction, 5);
    collect_distance(&mut list, left.precipitation_mm, right.precipitation_mm, 50);
    assert(list@ =~= contrasts(*left, *right));
    list
}

/// The arithmetic makes this the distance of hours with these values.
pub open spec fn separation_is<A: Arithmetic>(
    a: &A,
    values: Seq<Contrast>,
    distance: Reading,
) -> bool {
    exists|list: &Vec<Contrast>|
        list@ == values && #[trigger] call_ensures(A::separation, (a, list), distance)
}

/// Two hours are this far apart; they cannot be compared where no quantity is in both.
pub open spec fn hours_apart<A: Arithmetic>(
    a: &A,
    left: HourlyProfilePoint,
    right: HourlyProfilePoint,
    out: Option<Reading>,
) -> bool {
    match out {
        Some(distance) => contrasts(left, right).len() > 0 && separation_is(
            a,
            contrasts(left, right),
            distance,
        ),
        None => contrasts(left, right).len() == 0,
    }
}

/// How far apart two hours are; none where no quantity is in both.
pub fn hourly_distance<A: Arithmetic>(
    a: &A,
    left: &HourlyProfilePoint,
    right: &HourlyProfilePoint,
) -> (r: Option<Reading>)
    ensures
        hours_apart(a, *left, *right, r),
{
    let list = compare_hours(left, right);
    if list.len() == 0 {
        None
    } else {
        let borrowed = &list;
        let distance = a.separation(borrowed);
        assert(separation_is(a, contrasts(*left, *right), distance)) by {
            assert(borrowed@ == contrasts(*left, *right));
        }
        Some(distance)
    }
}

/// The fewest hours that must be compared: two of a part of a day, six of a whole day.
pub open spec fn fewest_hours(as_of_hour: Option<u8>) -> int {
    match as_of_hour {
        Some(_) => 2,
        None => 6,
    }
}

/// The fewest hours that must be compared: two of a part of a day, six of a whole day.
pub fn minimum_analog_hours(as_of_hour: Option<u8>) -> (r: usize)
    ensures
        r == fewest_hours(as_of_hour),
{
    match as_of_hour {
        Some(_) => 2,
        None => 6,
    }
}

/// The number of hours that count: up to the hour with it, or all.
pub open spec fn hour_limit(as_of_hour: Option<u8>) -> nat {
    match as_of_hour {
        Some(hour) => if hour < 24 {
            (hour + 1) as nat
        } else {
            24
        },
        None => 24,
    }
}

/// The values of an hour that both profiles have, where it can be compared.
pub open spec fn hour_pair(
    left: Seq<HourlyProfilePoint>,
    right: Seq<HourlyProfilePoint>,
    hour: int,
) -> Option<Seq<Contrast>> {
    if hour < left.len() && hour < right.len() && contrasts(left[hour], right[hour]).len() > 0 {
        Some(contrasts(left[hour], right[hour]))
    } else {
        None
    }
}

/// The hours that can be compared, of those that count.
pub open spec fn matched_hours(
    left: Seq<HourlyProfilePoint>,
    right: Seq<HourlyProfilePoint>,
    as_of_hour: Option<u8>,
) -> Seq<Seq<Contrast>> {
    kept(Seq::new(hour_limit(as_of_hour), |hour: int| hour_pair(left, right, hour)))
}

/// The hours are these distances apart.
pub open spec fn separations_are<A: Arithmetic>(
    a: &A,
    matched: Seq<Seq<Contrast>>,
    distances: Seq<Reading>,
) -> bool {
    distances.len() == matched.len() && forall|k: int|
        0 <= k < matched.len() ==> separation_is(a, matched[k], #[trigger] distances[k])
}

/// The mean of the distances of the hours.
pub open spec fn mean_separation_is<A: Arithmetic>(
    a: &A,
    matched: Seq<Seq<Contrast>>,
    distance: Reading,
) -> bool {
    exists|distances: Seq<Reading>| #[trigger]
        separations_are(a, matched, distances) && mean_is(a, distances, distance)
}

/// Two profiles are this far apart over this many hours; they cannot be compared where too few
/// hours match.
pub open spec fn profiles_apart<A: Arithmetic>(
    a: &A,
    left: Seq<HourlyProfilePoint>,
    right: Seq<HourlyProfilePoint>,
    as_of_hour: Option<u8>,
    out: Option<(Reading, usize)>,
) -> bool {
    let matched = matched_hours(left, right, as_of_hour);
    match out {
        Some((distance, count)) => matched.len() >= fewest_hours(as_of_hour) && count
            == matched.len() && mean_separation_is(a, matched, distance),
        None => matched.len() < fewest_hours(as_of_hour),
    }
}

/// How far apart two profiles are, and over how many hours; none where too few hours match.
pub fn profile_distance<A: Arithmetic>(
    a: &A,
    left: &DayProfile,
    right: &DayProfile,
    as_of_hour: Option<u8>,
) -> (r: Option<(Reading, usize)>)
    ensures
        profiles_apart(a, left.hours@, right.hours@, as_of_hour, r),
{
    let limit: usize = match as_of_hour {
        Some(hour) => if hour < 24 {
            hour as usize + 1
        } else {
            24
        },
        None => 24,
    };
    let ghost all = Seq::new(
        hour_limit(as_of_hour),
        |hour: int| hour_pair(left.hours@, right.hours@, hour),
    );
    let ghost matched = matched_hours(left.hours@, right.hours@, as_of_hour);
    let mut distances: Vec<Reading> = Vec::new();
    let mut hour: usize = 0;
    assert(all.take(0) =~= seq![]);
    while hour < limit
        invariant
            hour <= limit <= 24,
            limit == hour_limit(as_of_hour),
            all == Seq::new(
                hour_limit(as_of_hour),
                |hour: int| hour_pair(left.hours@, right.hours@, hour),
            ),
            separations_are(a, kept(all.take(hour as int)), distances@),
        decreases limit - hour,
    {
        proof {
            lemma_kept_push(all.take(hour as int), all[hour as int]);
            assert(all.take(hour as int).push(all[hour as int]) =~= all.take(hour + 1));
        }
        if hour < left.hours.len() && hour < right.hours.len() {
            if let Some(distance) = hourly_distance(a, &left.hours[hour], &right.hours[hour]) {
                distances.push(distance);
            }
        }
        hour += 1;
    }
    assert(all.take(hour as int) =~= all);
    if distances.len() < minimum_analog_hours(as_of_hour) {
        None
    } else {
        let borrowed = &distances;
        let distance = a.mean(borrowed);
        assert(mean_is(a, distances@, distance)) by {
            assert(borrowed@ == distances@);
        }
        assert(mean_separation_is(a, matched, distance));
        Some((distance, distances.len()))
    }
}

/// A list of sources with the hourly one in it.
pub open spec fn is_hourly(slugs: Seq<Seq<char>>) -> bool {
    slugs.contains(slug_of(DataSource::Ghcnh))
}

/// Whether the hourly source is in a list of sources.
pub fn has_hourly(slugs: &Vec<String>) -> (r: bool)
    ensures
        r == is_hourly(texts(slugs@)),
{
    let mut i: usize = 0;
    while i < slugs.len()
        invariant
            i <= slugs@.len(),
            forall|k: int|
                0 <= k < i ==> #[trigger] texts(slugs@)[k] != slug_of(DataSource::Ghcnh),
        decreases slugs@.len() - i,
    {
        assert(texts(slugs@)[i as int] == slugs@[i as int]@);
        if same_text(&slugs[i], "ghcnh") {
            assert(texts(slugs@)[i as int] == slug_of(DataSource::Ghcnh));
            return true;
        }
        i += 1;
    }
    false
}

/// Zero where both days have observations of the hourly source or neither has, and one otherwise.
pub open spec fn cadence_gap(target: Seq<Seq<char>>, candidate: Seq<Seq<char>>) -> int {
    if is_hourly(target) == is_hourly(candidate) {
        0
    } else {
        1
    }
}

/// The high of a date: that of the last summary of the date.
pub open spec fn high_on(daily: Seq<DailySummary>, date: Date) -> Option<Reading>
    decreases daily.len(),
{
    if daily.len() == 0 {
        None
    } else if daily.last().local_date == date {
        daily.last().high_temp_c
    } else {
        high_on(daily.drop_last(), date)
    }
}

/// The high of a date: that of the last summary of the date.
pub fn observed_high(daily: &Vec<DailySummary>, date: Date) -> (r: Option<Reading>)
    ensures
        r == high_on(daily@, date),
{
    let mut n: usize = daily.len();
    assert(daily@.take(n as int) =~= daily@);
    while n > 0
        invariant
            n <= daily@.len(),
            high_on(daily@, date) == high_on(daily@.take(n as int), date),
        decreases n,
    {
        assert(daily@.take(n as int).drop_last() =~= daily@.take(n - 1));
        assert(daily@.take(n as int).last() == daily@[n - 1]);
        if daily[n - 1].local_date.same(date) {
            return daily[n - 1].high_temp_c;
        }
        n -= 1;
    }
    None
}

/// What is said of a day with observations of the hourly source.
pub open spec fn mix_note(slugs: Seq<Seq<char>>) -> Option<Seq<char>> {
    if is_hourly(slugs) {
        Some("mixed-cadence candidate includes ghcnh hourly observations"@)
    } else {
        None
    }
}

/// A profile as an analog.
pub open spec fn analog_of(
    station: Seq<char>,
    target_date: Date,
    daily: Seq<DailySummary>,
    profile: DayProfile,
    found: (Reading, usize),
) -> AnalogModel {
    AnalogModel {
        station,
        target_date,
        analog_date: profile.local_date,
        distance: found.0,
        observed_high_c: high_on(daily, profile.local_date),
        compared_hours: found.1,
        candidate_source_summary: joined(texts(profile.source_slugs@), ","@),
        source_mix_note: mix_note(texts(profile.source_slugs@)),
    }
}

/// The positions of the profiles that can be compared.
pub open spec fn candidates(distances: Seq<Option<(Reading, usize)>>) -> Seq<usize> {
    kept(
        Seq::new(
            distances.len(),
            |i: int|
                if distances[i] is Some {
                    Some(i as usize)
                } else {
                    None
                },
        ),
    )
}

/// The key of an analog: first those of the same cadence, and among these the closest.
pub open spec fn rank_key(
    target: DayProfile,
    profile: DayProfile,
    distance: Option<(Reading, usize)>,
) -> (i64, i64) {
    (
        cadence_gap(texts(target.source_slugs@), texts(profile.source_slugs@)) as i64,
        (distance->0).0.total_rank() as i64,
    )
}

pub open spec fn rank_keys(
    target: DayProfile,
    profiles: Seq<DayProfile>,
    distances: Seq<Option<(Reading, usize)>>,
) -> Seq<(i64, i64)> {
    let chosen = candidates(distances);
    Seq::new(
        chosen.len(),
        |k: int| rank_key(target, profiles[chosen[k] as int], distances[chosen[k] as int]),
    )
}

/// The first `top_n` analogs in this order of the candidates.
pub open spec fn analogs_in_order(
    station: Seq<char>,
    target_date: Date,
    daily: Seq<DailySummary>,
    profiles: Seq<DayProfile>,
    distances: Seq<Option<(Reading, usize)>>,
    order: Seq<usize>,
    top_n: nat,
) -> Seq<AnalogModel> {
    let chosen = candidates(distances);
    Seq::new(
        if order.len() < top_n {
            order.len()
        } else {
            top_n
        },
        |k: int|
            {
                let at = chosen[order[k] as int] as int;
                analog_of(station, target_date, daily, profiles[at], distances[at]->0)
            },
    )
}

/// The best analogs, given how far apart the profiles are.
pub open spec fn ranks(
    station: Seq<char>,
    target_date: Date,
    daily: Seq<DailySummary>,
    profiles: Seq<DayProfile>,
    target: DayProfile,
    distances: Seq<Option<(Reading, usize)>>,
    top_n: nat,
    analogs: Seq<AnalogModel>,
) -> bool {
    exists|order: Seq<usize>| #[trigger]
        is_stable_order(rank_keys(target, profiles, distances), order) && analogs
            == analogs_in_order(station, target_date, daily, profiles, distances, order, top_n)
}

pub open spec fn analog_models(analogs: Seq<AnalogResult>) -> Seq<AnalogModel> {
    analogs.map_values(|analog: AnalogResult| analog@)
}

fn find_candidates(distances: &Vec<Option<(Reading, usize)>>) -> (r: Vec<usize>)
    ensures
        r@ == candidates(distances@),
        forall|k: int|
            0 <= k < r@.len() ==> #[trigger] r@[k] < distances@.len() && distances@[r@[k] as int] is Some,
{
    let ghost all = Seq::new(
        distances@.len(),
        |i: int|
            if distances@[i] is Some {
                Some(i as usize)
            } else {
                None
            },
    );
    let mut chosen: Vec<usize> = Vec::new();
    let mut i: usize = 0;
    assert(all.take(0) =~= seq![]);
    while i < distances.len()
        invariant
            i <= distances@.len(),
            all == Seq::new(
                distances@.len(),
                |i: int|
                    if distances@[i] is Some {
                        Some(i as usize)
                    } else {
                        None
                    },
            ),
            chosen@ == kept(all.take(i as int)),
            forall|k: int|
                0 <= k < chosen@.len() ==> #[trigger] chosen@[k] < distances@.len()
                    && distances@[chosen@[k] as int] is Some,
        decreases distances@.len() - i,
    {
        proof {
            lemma_kept_push(all.take(i as int), all[i as int]);
            assert(all.take(i as int).push(all[i as int]) =~= all.take(i + 1));
        }
        if distances[i].is_some() {
            chosen.push(i);
        }
        i += 1;
    }
    assert(all.take(i as int) =~= all);
    chosen
}

/// The best analogs, given how far apart the profiles are: those of the same cadence first, then
/// the closest, at most `top_n` of them.
pub fn rank_analogs(
    station_id: &StationId,
    target_date: Date,
    daily: &Vec<DailySummary>,
    profiles: &Vec<DayProfile>,
    target_profile: &DayProfile,
    distances: &Vec<Option<(Reading, usize)>>,
    top_n: usize,
) -> (r: Vec<AnalogResult>)
    requires
        distances@.len() == profiles@.len(),
    ensures
        ranks(
            station_id@,
            target_date,
            daily@,
            profiles@,
            *target_profile,
            distances@,
            top_n as nat,
            analog_models(r@),
        ),
{
    let chosen = find_candidates(distances);
    let target_hourly = has_hourly(&target_profile.source_slugs);
    let ghost wanted_keys = rank_keys(*target_profile, profiles@, distances@);
    let mut keys: Vec<(i64, i64)> = Vec::new();
    let mut i: usize = 0;
    while i < chosen.len()
        invariant
            i <= chosen@.len(),
            distances@.len() == profiles@.len(),
            chosen@ == candidates(distances@),
            forall|k: int|
                0 <= k < chosen@.len() ==> #[trigger] chosen@[k] < distances@.len()
                    && distances@[chosen@[k] as int] is Some,
            target_hourly == is_hourly(texts(target_profile.source_slugs@)),
            wanted_keys == rank_keys(*target_profile, profiles@, distances@),
            keys@ == wanted_keys.take(i as int),
        decreases chosen@.len() - i,
    {
        assert(chosen@[i as int] < distances@.len());
        let at: usize = chosen[i];
        let gap: i64 = if has_hourly(&profiles[at].source_slugs) == target_hourly {
            0
        } else {
            1
        };
        match distances[at] {
            Some((distance, _)) => {
                keys.push((gap, distance.total_key()));
            },
            None => {
                assert(false);
            },
        }
        i += 1;
        assert(keys@ =~= wanted_keys.take(i as int));
    }
    assert(keys@ =~= wanted_keys);
    let order = sort_order(&keys);
    let ghost wanted = analogs_in_order(
        station_id@,
        target_date,
        daily@,
        profiles@,
        distances@,
        order@,
        top_n as nat,
    );
    let mut analogs: Vec<AnalogResult> = Vec::new();
    let mut k: usize = 0;
    assert(analog_models(analogs@) =~= wanted.take(0));
    while k < order.len() && k < top_n
        invariant
            k <= order@.len(),
            k <= top_n,
            distances@.len() == profiles@.len(),
            chosen@ == candidates(distances@),
            forall|c: int|
                0 <= c < chosen@.len() ==> #[trigger] chosen@[c] < distances@.len()
                    && distances@[chosen@[c] as int] is Some,
            forall|c: int| 0 <= c < order@.len() ==> #[trigger] order@[c] < chosen@.len(),
            wanted == analogs_in_order(
                station_id@,
                target_date,
                daily@,
                profiles@,
                distances@,
                order@,
                top_n as nat,
            ),
            analogs@.len() == k,
            analog_models(analogs@) == wanted.take(k as int),
        decreases order@.len() - k,
    {
        assert(order@[k as int] < chosen@.len());
        assert(chosen@[order@[k as int] as int] < distances@.len());
        let at: usize = chosen[order[k]];
        let profile = &profiles[at];
        match distances[at] {
            Some((distance, compared_hours)) => {
                let note = if has_hourly(&profile.source_slugs) {
                    Some("mixed-cadence candidate includes ghcnh hourly observations".to_string())
                } else {
                    None
                };
                let analog = AnalogResult {
                    station_id: station_id.clone(),
                    target_date,
                    analog_date: profile.local_date,
                    distance,
                    observed_high_c: observed_high(daily, profile.local_date),
                    compared_hours,
                    candidate_source_summary: join(&profile.source_slugs, ","),
                    source_mix_note: note,
                };
                let ghost before = analogs@;
                analogs.push(analog);
                proof {
                    assert(analog@ == wanted[k as int]);
                    assert(analog_models(analogs@) =~= analog_models(before).push(analog@));
                    assert(wanted.take(k + 1) =~= wanted.take(k as int).push(wanted[k as int]));
                }
            },
            None => {
                assert(false);
            },
        }
        k += 1;
    }
    assert(wanted.take(k as int) =~= wanted);
    analogs
}

/// How far the profiles are from the target; that of the target date is not compared.
pub open spec fn distances_are<A: Arithmetic>(
    a: &A,
    target_date: Date,
    profiles: Seq<DayProfile>,
    target: DayProfile,
    as_of_hour: Option<u8>,
    distances: Seq<Option<(Reading, usize)>>,
) -> bool {
    distances.len() == profiles.len() && forall|i: int|
        0 <= i < profiles.len() ==> {
            let distance = #[trigger] distances[i];
            if profiles[i].local_date == target_date {
                distance is None
            } else {
                profiles_apart(a, target.hours@, profiles[i].hours@, as_of_hour, distance)
            }
        }
}

/// How far the profiles are from the target; that of the target date is not compared.
pub fn measure_profiles<A: Arithmetic>(
    a: &A,
    target_date: Date,
    profiles: &Vec<DayProfile>,
    target_profile: &DayProfile,
    as_of_hour: Option<u8>,
) -> (r: Vec<Option<(Reading, usize)>>)
    ensures
        distances_are(a, target_date, profiles@, *target_profile, as_of_hour, r@),
{
    let mut distances: Vec<Option<(Reading, usize)>> = Vec::new();
    let mut i: usize = 0;
    while i < profiles.len()
        invariant
            i <= profiles@.len(),
            distances@.len() == i,
            forall|k: int|
                0 <= k < i ==> {
                    let distance = #[trigger] distances@[k];
                    if profiles@[k].local_date == target_date {
                        distance is None
                    } else {
                        profiles_apart(
                            a,
                            target_profile.hours@,
                            profiles@[k].hours@,
                            as_of_hour,
                            distance,
                        )
                    }
                },
        decreases profiles@.len() - i,
    {
        if profiles[i].local_date.same(target_date) {
            distances.push(None);
        } else {
            distances.push(profile_distance(a, target_profile, &profiles[i], as_of_hour));
        }
        i += 1;
    }
    distances
}

/// These are the best analogs of the target.
pub open spec fn are_top_analogs<A: Arithmetic>(
    a: &A,
    station: Seq<char>,
    target_date: Date,
    daily: Seq<DailySummary>,
    profiles: Seq<DayProfile>,
    target: DayProfile,
    as_of_hour: Option<u8>,
    top_n: nat,
    analogs: Seq<AnalogModel>,
) -> bool {
    exists|distances: Seq<Option<(Reading, usize)>>| #[trigger]
        distances_are(a, target_date, profiles, target, as_of_hour, distances) && ranks(
            station,
            target_date,
            daily,
            profiles,
            target,
            distances,
            top_n,
            analogs,
        )
}

/// The best analogs of a target profile among the profiles of other days: those of the same
/// cadence first, then the closest, at most `top_n` of them.
pub fn top_analogs<A: Arithmetic>(
    a: &A,
    station_id: &StationId,
    target_date: Date,
    daily: &Vec<DailySummary>,
    profiles: &Vec<DayProfile>,
    target_profile: &DayProfile,
    as_of_hour: Option<u8>,
    top_n: usize,
) -> (r: Vec<AnalogResult>)
    ensures
        are_top_analogs(
            a,
            station_id@,
            target_date,
            daily@,
            profiles@,
            *target_profile,
            as_of_hour,
            top_n as nat,
            analog_models(r@),
        ),
{
    let distances = measure_profiles(a, target_date, profiles, target_profile, as_of_hour);
    rank_analogs(station_id, target_date, daily, profiles, target_profile, &distances, top_n)
}

proof fn lemma_kept_positions(all: Seq<Option<usize>>, distances: Seq<Option<(Reading, usize)>>)
    requires
        all.len() <= distances.len() <= usize::MAX,
        forall|i: int|
            0 <= i < all.len() ==> #[trigger] all[i] == (if distances[i] is Some {
                Some(i as usize)
            } else {
                None
            }),
    ensures
        forall|k: int|
            0 <= k < kept(all).len() ==> #[trigger] kept(all)[k] < distances.len()
                && distances[kept(all)[k] as int] is Some,
    decreases all.len(),
{
    if all.len() > 0 {
        let rest = all.drop_last();
        assert forall|i: int| 0 <= i < rest.len() implies #[trigger] rest[i] == (
        if distances[i] is Some {
            Some(i as usize)
        } else {
            None
        }) by {
            assert(rest[i] == all[i]);
        }
        lemma_kept_positions(rest, distances);
        lemma_kept_push(rest, all.last());
        assert(rest.push(all.last()) =~= all);
        assert(all[all.len() - 1] == all.last());
    }
}

/// The candidates are positions of profiles that can be compared.
pub proof fn lemma_candidates(distances: Seq<Option<(Reading, usize)>>)
    requires
        distances.len() <= usize::MAX,
    ensures
        forall|k: int|
            0 <= k < candidates(distances).len() ==> #[trigger] candidates(distances)[k]
                < distances.len() && distances[candidates(distances)[k] as int] is Some,
{
    let all = Seq::new(
        distances.len(),
        |i: int|
            if distances[i] is Some {
                Some(i as usize)
            } else {
                None
            },
    );
    lemma_kept_positions(all, distances);
}

/// What an analog is ranked by: first whether it is of another cadence than the target, then how
/// far it is.
pub open spec fn analog_rank(target: DayProfile, analog: AnalogModel) -> (i64, i64) {
    (
        if (analog.source_mix_note is Some) == is_hourly(texts(target.source_slugs@)) {
            0
        } else {
            1
        },
        analog.distance.total_rank() as i64,
    )
}

/// The days of the same cadence as the target come before the others, and among the days of one
/// cadence the closer come before the farther.
pub proof fn law_same_cadence_analogs_come_first(
    station: Seq<char>,
    target_date: Date,
    daily: Seq<DailySummary>,
    profiles: Seq<DayProfile>,
    target: DayProfile,
    distances: Seq<Option<(Reading, usize)>>,
    top_n: nat,
    analogs: Seq<AnalogModel>,
    k: int,
    l: int,
)
    requires
        distances.len() == profiles.len() <= usize::MAX,
        ranks(station, target_date, daily, profiles, target, distances, top_n, analogs),
        0 <= k < l < analogs.len(),
    ensures
        analog_rank(target, analogs[k]).at_most(&analog_rank(target, analogs[l])),
{
    let keys = rank_keys(target, profiles, distances);
    let order = choose|order: Seq<usize>| #[trigger]
        is_stable_order(keys, order) && analogs == analogs_in_order(
            station,
            target_date,
            daily,
            profiles,
            distances,
            order,
            top_n,
        );
    assert(is_stable_order(keys, order));
    assert(precedes(keys, order[k] as int, order[l] as int));
    let left = candidates(distances)[order[k] as int] as int;
    let right = candidates(distances)[order[l] as int] as int;
    assert(keys[order[k] as int] == rank_key(target, profiles[left], distances[left]));
    assert(keys[order[l] as int] == rank_key(target, profiles[right], distances[right]));
}

/// No better analog is left out: a day that can be compared is listed, or the list is full of days
/// that rank no worse.
pub proof fn law_no_better_analog_is_left_out(
    station: Seq<char>,
    target_date: Date,
    daily: Seq<DailySummary>,
    profiles: Seq<DayProfile>,
    target: DayProfile,
    distances: Seq<Option<(Reading, usize)>>,
    top_n: nat,
    analogs: Seq<AnalogModel>,
    i: int,
)
    requires
        distances.len() == profiles.len() <= usize::MAX,
        ranks(station, target_date, daily, profiles, target, distances, top_n, analogs),
        0 <= i < profiles.len(),
        distances[i] is Some,
    ensures
        ({
            let analog = analog_of(station, target_date, daily, profiles[i], distances[i]->0);
            ||| analogs.contains(analog)
            ||| analogs.len() == top_n && forall|k: int|
                0 <= k < analogs.len() ==> analog_rank(target, #[trigger] analogs[k]).at_most(
                    &analog_rank(target, analog),
                )
        }),
{
    let keys = rank_keys(target, profiles, distances);
    let order = choose|order: Seq<usize>| #[trigger]
        is_stable_order(keys, order) && analogs == analogs_in_order(
            station,
            target_date,
            daily,
            profiles,
            distances,
            order,
            top_n,
        );
    assert(is_stable_order(keys, order));
    let analog = analog_of(station, target_date, daily, profiles[i], distances[i]->0);
    let chosen = candidates(distances);
    lemma_candidates_hold(distances, i);
    let c = choose|c: int| 0 <= c < chosen.len() && chosen[c] == i as usize;
    lemma_candidates_fit(distances);
    assert(order.contains(c as usize));
    let at = choose|at: int| 0 <= at < order.len() && order[at] == c as usize;
    if at < analogs.len() {
        assert(analogs[at] == analog);
    } else {
        assert forall|k: int| 0 <= k < analogs.len() implies analog_rank(
            target,
            #[trigger] analogs[k],
        ).at_most(&analog_rank(target, analog)) by {
            assert(precedes(keys, order[k] as int, order[at] as int));
            let left = chosen[order[k] as int] as int;
            assert(keys[order[k] as int] == rank_key(target, profiles[left], distances[left]));
            assert(keys[order[at] as int] == rank_key(target, profiles[i], distances[i]));
        }
    }
}

proof fn lemma_kept_holds(all: Seq<Option<usize>>, i: int)
    requires
        0 <= i < all.len(),
        all[i] is Some,
    ensures
        kept(all).contains(all[i]->0),
    decreases all.len(),
{
    let rest = all.drop_last();
    lemma_kept_push(rest, all.last());
    assert(rest.push(all.last()) =~= all);
    if i < rest.len() {
        lemma_kept_holds(rest, i);
        let k = choose|k: int| 0 <= k < kept(rest).len() && kept(rest)[k] == rest[i]->0;
        assert(kept(all)[k] == all[i]->0);
    } else {
        assert(kept(all)[kept(all).len() - 1] == all[i]->0);
    }
}

proof fn lemma_kept_fits(all: Seq<Option<usize>>)
    ensures
        kept(all).len() <= all.len(),
    decreases all.len(),
{
    if all.len() > 0 {
        let rest = all.drop_last();
        lemma_kept_push(rest, all.last());
        assert(rest.push(all.last()) =~= all);
        lemma_kept_fits(rest);
    }
}

/// A profile that can be compared is a candidate.
pub proof fn lemma_candidates_hold(distances: Seq<Option<(Reading, usize)>>, i: int)
    requires
        0 <= i < distances.len(),
        distances[i] is Some,
    ensures
        candidates(distances).contains(i as usize),
{
    lemma_kept_holds(
        Seq::new(
            distances.len(),
            |i: int|
                if distances[i] is Some {
                    Some(i as usize)
                } else {
                    None
                },
        ),
        i,
    );
}

pub proof fn lemma_candidates_fit(distances: Seq<Option<(Reading, usize)>>)
    ensures
        candidates(distances).len() <= distances.len(),
{
    lemma_kept_fits(
        Seq::new(
            distances.len(),
            |i: int|
                if distances[i] is Some {
                    Some(i as usize)
                } else {
                    None
                },
        ),
    );
}

/// The target day itself is never among its analogs, and every analog has been compared over at
/// least the fewest hours.
pub proof fn law_analogs_are_other_days_with_enough_hours<A: Arithmetic>(
    a: &A,
    station: Seq<char>,
    target_date: Date,
    daily: Seq<DailySummary>,
    profiles: Seq<DayProfile>,
    target: DayProfile,
    as_of_hour: Option<u8>,
    top_n: nat,
    analogs: Seq<AnalogModel>,
    k: int,
)
    requires
        profiles.len() <= usize::MAX,
        are_top_analogs(
            a,
            station,
            target_date,
            daily,
            profiles,
            target,
            as_of_hour,
            top_n,
            analogs,
        ),
        0 <= k < analogs.len(),
    ensures
        analogs.len() <= top_n,
        analogs[k].analog_date != target_date,
        analogs[k].compared_hours >= fewest_hours(as_of_hour),
{
    let distances = choose|distances: Seq<Option<(Reading, usize)>>| #[trigger]
        distances_are(a, target_date, profiles, target, as_of_hour, distances) && ranks(
            station,
            target_date,
            daily,
            profiles,
            target,
            distances,
            top_n,
            analogs,
        );
    let keys = rank_keys(target, profiles, distances);
    let order = choose|order: Seq<usize>| #[trigger]
        is_stable_order(keys, order) && analogs == analogs_in_order(
            station,
            target_date,
            daily,
            profiles,
            distances,
            order,
            top_n,
        );
    assert(is_stable_order(keys, order));
    lemma_candidates(distances);
    assert(order[k] < keys.len());
    let at = candidates(distances)[order[k] as int] as int;
    assert(distances[at] is Some);
    let found = distances[at]->0;
    assert(found == (found.0, found.1));
}

/// There are as many analogs as days that can be compared, and at most `top_n`.
pub proof fn law_all_analogs_are_listed(
    station: Seq<char>,
    target_date: Date,
    daily: Seq<DailySummary>,
    profiles: Seq<DayProfile>,
    target: DayProfile,
    distances: Seq<Option<(Reading, usize)>>,
    top_n: nat,
    analogs: Seq<AnalogModel>,
)
    requires
        ranks(station, target_date, daily, profiles, target, distances, top_n, analogs),
    ensures
        analogs.len() == (if candidates(distances).len() < top_n {
            candidates(distances).len()
        } else {
            top_n
        }),
        forall|k: int|
            0 <= k < analogs.len() ==> (#[trigger] analogs[k]).station == station
                && analogs[k].target_date == target_date,
{
    let keys = rank_keys(target, profiles, distances);
    let order = choose|order: Seq<usize>| #[trigger]
        is_stable_order(keys, order) && analogs == analogs_in_order(
            station,
            target_date,
            daily,
            profiles,
            distances,
            order,
            top_n,
        );
    assert(is_stable_order(keys, order));
}

/// With the same distances, fewer analogs are the first of the more.
pub proof fn law_fewer_analogs_are_the_first(
    station: Seq<char>,
    target_date: Date,
    daily: Seq<DailySummary>,
    profiles: Seq<DayProfile>,
    target: DayProfile,
    distances: Seq<Option<(Reading, usize)>>,
    few: nat,
    fewer: Seq<AnalogModel>,
    many: nat,
    more: Seq<AnalogModel>,
)
    requires
        few <= many,
        ranks(station, target_date, daily, profiles, target, distances, few, fewer),
        ranks(station, target_date, daily, profiles, target, distances, many, more),
    ensures
        fewer.len() <= more.len(),
        fewer == more.take(fewer.len() as int),
{
    let keys = rank_keys(target, profiles, distances);
    let left = choose|order: Seq<usize>| #[trigger]
        is_stable_order(keys, order) && fewer == analogs_in_order(
            station,
            target_date,
            daily,
            profiles,
            distances,
            order,
            few,
        );
    let right = choose|order: Seq<usize>| #[trigger]
        is_stable_order(keys, order) && more == analogs_in_order(
            station,
            target_date,
            daily,
            profiles,
            distances,
            order,
            many,
        );
    lemma_one_stable_order(keys, left, right);
    assert(fewer =~= more.take(fewer.len() as int));
}

/// The first of the best analogs are the best for a smaller `top_n`.
pub proof fn law_first_analogs_are_the_best<A: Arithmetic>(
    a: &A,
    station: Seq<char>,
    target_date: Date,
    daily: Seq<DailySummary>,
    profiles: Seq<DayProfile>,
    target: DayProfile,
    as_of_hour: Option<u8>,
    many: nat,
    more: Seq<AnalogModel>,
    few: nat,
)
    requires
        few <= many,
        are_top_analogs(
            a,
            station,
            target_date,
            daily,
            profiles,
            target,
            as_of_hour,
            many,
            more,
        ),
    ensures
        are_top_analogs(
            a,
            station,
            target_date,
            daily,
            profiles,
            target,
            as_of_hour,
            few,
            if few < more.len() {
                more.take(few as int)
            } else {
                more
            },
        ),
{
    let distances = choose|distances: Seq<Option<(Reading, usize)>>| #[trigger]
        distances_are(a, target_date, profiles, target, as_of_hour, distances) && ranks(
            station,
            target_date,
            daily,
            profiles,
            target,
            distances,
            many,
            more,
        );
    let keys = rank_keys(target, profiles, distances);
    let order = choose|order: Seq<usize>| #[trigger]
        is_stable_order(keys, order) && more == analogs_in_order(
            station,
            target_date,
            daily,
            profiles,
            distances,
            order,
            many,
        );
    let fewer = if few < more.len() {
        more.take(few as int)
    } else {
        more
    };
    assert(is_stable_order(keys, order));
    assert(fewer =~= analogs_in_order(
        station,
        target_date,
        daily,
        profiles,
        distances,
        order,
        few,
    ));
    assert(ranks(station, target_date, daily, profiles, target, distances, few, fewer));
}

/// Comparing two hours the other way round compares the same values, so that they are as far apart.
pub proof fn law_hours_are_as_far_both_ways<A: Arithmetic>(
    a: &A,
    left: HourlyProfilePoint,
    right: HourlyProfilePoint,
    out: Option<Reading>,
)
    ensures
        contrasts(left, right) == contrasts(right, left),
        hours_apart(a, left, right, out) <==> hours_apart(a, right, left, out),
{
}

/// A quantity that only one of two hours has is of no influence.
pub proof fn law_lone_quantities_do_not_count(
    left: HourlyProfilePoint,
    right: HourlyProfilePoint,
    temperature_c: Option<Reading>,
    dewpoint_c: Option<Reading>,
    relative_humidity_pct: Option<Reading>,
    wind_u_kt: Option<Reading>,
    wind_v_kt: Option<Reading>,
    cloud_cover_fraction: Option<Reading>,
    precipitation_mm: Option<Reading>,
)
    requires
        right.temperature_c is Some ==> temperature_c == left.temperature_c,
        right.dewpoint_c is Some ==> dewpoint_c == left.dewpoint_c,
        right.relative_humidity_pct is Some ==> relative_humidity_pct
            == left.relative_humidity_pct,
        right.wind_u_kt is Some ==> wind_u_kt == left.wind_u_kt,
        right.wind_v_kt is Some ==> wind_v_kt == left.wind_v_kt,
        right.cloud_cover_fraction is Some ==> cloud_cover_fraction == left.cloud_cover_fraction,
        right.precipitation_mm is Some ==> precipitation_mm == left.precipitation_mm,
    ensures
        contrasts(
            HourlyProfilePoint {
                temperature_c,
                dewpoint_c,
                relative_humidity_pct,
                wind_u_kt,
                wind_v_kt,
                cloud_cover_fraction,
                precipitation_mm,
                ..left
            },
            right,
        ) == contrasts(left, right),
{
}

/// Two hours can be compared exactly where one of the seven quantities is in both.
pub proof fn law_hours_with_a_common_quantity_compare(
    left: HourlyProfilePoint,
    right: HourlyProfilePoint,
)
    ensures
        contrasts(left, right).len() > 0 <==> {
            ||| left.temperature_c is Some && right.temperature_c is Some
            ||| left.dewpoint_c is Some && right.dewpoint_c is Some
            ||| left.relative_humidity_pct is Some && right.relative_humidity_pct is Some
            ||| left.wind_u_kt is Some && right.wind_u_kt is Some
            ||| left.wind_v_kt is Some && right.wind_v_kt is Some
            ||| left.cloud_cover_fraction is Some && right.cloud_cover_fraction is Some
            ||| left.precipitation_mm is Some && right.precipitation_mm is Some
        },
{
}

/// Where the quantities that are in both hours are equal, each is compared with itself.
pub proof fn law_equal_hours_contrast_nothing(left: HourlyProfilePoint, right: HourlyProfilePoint)
    requires
        agree(left.temperature_c, right.temperature_c),
        agree(left.dewpoint_c, right.dewpoint_c),
        agree(left.relative_humidity_pct, right.relative_humidity_pct),
        agree(left.wind_u_kt, right.wind_u_kt),
        agree(left.wind_v_kt, right.wind_v_kt),
        agree(left.cloud_cover_fraction, right.cloud_cover_fraction),
        agree(left.precipitation_mm, right.precipitation_mm),
    ensures
        forall|k: int|
            0 <= k < contrasts(left, right).len() ==> (#[trigger] contrasts(left, right)[k]).lesser
                == contrasts(left, right)[k].greater,
{
}

/// The values are equal, where both are there.
pub open spec fn agree(left: Option<Reading>, right: Option<Reading>) -> bool {
    left is Some && right is Some ==> left == right
}

/// Where the arithmetic makes one distance of the same values, two hours are the same distance
/// apart whichever is compared with the other.
pub proof fn law_hourly_distance_is_symmetric<A: Arithmetic>(
    a: &A,
    left: HourlyProfilePoint,
    right: HourlyProfilePoint,
    there: Option<Reading>,
    back: Option<Reading>,
)
    requires
        measures_alike(a),
        hours_apart(a, left, right, there),
        hours_apart(a, right, left, back),
    ensures
        there == back,
{
    law_hours_are_as_far_both_ways(a, left, right, back);
    if let (Some(x), Some(y)) = (there, back) {
        lemma_one_separation(a, contrasts(left, right), x, y);
    }
}

proof fn lemma_one_separation<A: Arithmetic>(
    a: &A,
    values: Seq<Contrast>,
    x: Reading,
    y: Reading,
)
    requires
        measures_alike(a),
        separation_is(a, values, x),
        separation_is(a, values, y),
    ensures
        x == y,
{
    let one = choose|list: &Vec<Contrast>|
        list@ == values && #[trigger] call_ensures(A::separation, (a, list), x);
    let other = choose|list: &Vec<Contrast>|
        list@ == values && #[trigger] call_ensures(A::separation, (a, list), y);
    assert(one@ == other@);
}

/// Where the arithmetic makes one result of the same values, two profiles are one distance apart.
pub proof fn law_profiles_have_one_distance<A: Arithmetic>(
    a: &A,
    left: Seq<HourlyProfilePoint>,
    right: Seq<HourlyProfilePoint>,
    as_of_hour: Option<u8>,
    one: Option<(Reading, usize)>,
    other: Option<(Reading, usize)>,
)
    requires
        measures_alike(a),
        profiles_apart(a, left, right, as_of_hour, one),
        profiles_apart(a, left, right, as_of_hour, other),
    ensures
        one == other,
{
    if let (Some((x, n)), Some((y, m))) = (one, other) {
        let matched = matched_hours(left, right, as_of_hour);
        let these = choose|distances: Seq<Reading>| #[trigger]
            separations_are(a, matched, distances) && mean_is(a, distances, x);
        let those = choose|distances: Seq<Reading>| #[trigger]
            separations_are(a, matched, distances) && mean_is(a, distances, y);
        assert forall|k: int| 0 <= k < matched.len() implies these[k] == those[k] by {
            lemma_one_separation(a, matched[k], these[k], those[k]);
        }
        assert(these =~= those);
        let first = choose|list: &Vec<Reading>|
            list@ == these && #[trigger] call_ensures(A::mean, (a, list), x);
        let second = choose|list: &Vec<Reading>|
            list@ == those && #[trigger] call_ensures(A::mean, (a, list), y);
        assert(first@ == second@);
    }
}

/// Where the arithmetic makes one result of the same values, a search for fewer analogs finds the
/// first of those that a search for more finds.
pub proof fn law_fewer_analogs_are_a_prefix<A: Arithmetic>(
    a: &A,
    station: Seq<char>,
    target_date: Date,
    daily: Seq<DailySummary>,
    profiles: Seq<DayProfile>,
    target: DayProfile,
    as_of_hour: Option<u8>,
    few: nat,
    fewer: Seq<AnalogModel>,
    many: nat,
    more: Seq<AnalogModel>,
)
    requires
        measures_alike(a),
        few <= many,
        are_top_analogs(
            a,
            station,
            target_date,
            daily,
            profiles,
            target,
            as_of_hour,
            few,
            fewer,
        ),
        are_top_analogs(
            a,
            station,
            target_date,
            daily,
            profiles,
            target,
            as_of_hour,
            many,
            more,
        ),
    ensures
        fewer.len() <= more.len(),
        fewer == more.take(fewer.len() as int),
{
    let these = choose|distances: Seq<Option<(Reading, usize)>>| #[trigger]
        distances_are(a, target_date, profiles, target, as_of_hour, distances) && ranks(
            station,
            target_date,
            daily,
            profiles,
            target,
            distances,
            few,
            fewer,
        );
    let those = choose|distances: Seq<Option<(Reading, usize)>>| #[trigger]
        distances_are(a, target_date, profiles, target, as_of_hour, distances) && ranks(
            station,
            target_date,
            daily,
            profiles,
            target,
            distances,
            many,
            more,
        );
    assert forall|i: int| 0 <= i < profiles.len() implies these[i] == those[i] by {
        let one = these[i];
        let other = those[i];
        if profiles[i].local_date != target_date {
            law_profiles_have_one_distance(
                a,
                target.hours@,
                profiles[i].hours@,
                as_of_hour,
                one,
                other,
            );
        }
    }
    assert(these =~= those);
    law_fewer_analogs_are_the_first(
        station,
        target_date,
        daily,
        profiles,
        target,
        these,
        few,
        fewer,
        many,
        more,
    );
}

} // verus!
