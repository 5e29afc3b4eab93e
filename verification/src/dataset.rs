//! Data sets: their years, how observations are merged into them, and what is said of a day.
use vstd::prelude::*;
use crate::analogs::{has_hourly, is_hourly, minimum_analog_hours};
use crate::calendar::{instant_text, minutes_between, toward_zero, Date, UtcTime};
use crate::domain::{
    kept, lemma_kept_push, DailySummary, DayProfile, Failure, ObservationRecord, StationId,
};
use crate::engine::{
    dedupe_observations, is_dedupe, is_represented, law_kept_observations_rise,
    law_moments_are_kept_once, lemma_rising_lists_agree, of_one_station, preferred, profiles_are,
    same_moment, DayProfileBuilder, DerivedDatasetBuilder,
};
use crate::numeral::{decimal, digits, int_text, signed_decimal};
use crate::order::{
    group, in_group, in_some_group, is_grouping, is_stable_order, lemma_order_is_distinct, pick,
    pick_groups, picked, sort_order, ties,
};
use crate::reading::Arithmetic;
use crate::text::{same_text, texts, to_chars};

verus! {

/// The items grouped by year, the years rising, each with its items in their order.
pub open spec fn grouped_by_year<T>(
    items: Seq<T>,
    years: Seq<i64>,
    grouped: Seq<(i32, Vec<T>)>,
) -> bool {
    exists|groups: Seq<Vec<usize>>|
        {
            &&& #[trigger] is_grouping(years, groups)
            &&& grouped.len() == groups.len()
            &&& forall|g: int|
                0 <= g < groups.len() ==> {
                    &&& (#[trigger] grouped[g]).0 == years[groups[g]@[0] as int]
                    &&& grouped[g].1@ == picked(items, groups[g]@)
                }
        }
}

/// The years of the groups rise.
pub proof fn law_years_rise<T>(
    items: Seq<T>,
    years: Seq<i64>,
    grouped: Seq<(i32, Vec<T>)>,
    g: int,
    h: int,
)
    requires
        grouped_by_year(items, years, grouped),
        0 <= g < h < grouped.len(),
    ensures
        grouped[g].0 < grouped[h].0,
{
    let groups = choose|groups: Seq<Vec<usize>>|
        {
            &&& #[trigger] is_grouping(years, groups)
            &&& grouped.len() == groups.len()
            &&& forall|g: int|
                0 <= g < groups.len() ==> {
                    &&& (#[trigger] grouped[g]).0 == years[groups[g]@[0] as int]
                    &&& grouped[g].1@ == picked(items, groups[g]@)
                }
        };
    assert(groups[g]@.len() > 0 && groups[h]@.len() > 0);
    assert(grouped[g].0 == years[groups[g]@[0] as int]);
    assert(grouped[h].0 == years[groups[h]@[0] as int]);
}

/// Every item of a year is one of the items, and of that year.
pub proof fn law_items_are_of_their_year<T>(
    items: Seq<T>,
    years: Seq<i64>,
    grouped: Seq<(i32, Vec<T>)>,
    g: int,
    k: int,
)
    requires
        years.len() == items.len(),
        grouped_by_year(items, years, grouped),
        0 <= g < grouped.len(),
        0 <= k < grouped[g].1@.len(),
    ensures
        exists|i: int|
            0 <= i < items.len() && #[trigger] items[i] == grouped[g].1@[k] && years[i]
                == grouped[g].0,
{
    let groups = choose|groups: Seq<Vec<usize>>|
        {
            &&& #[trigger] is_grouping(years, groups)
            &&& grouped.len() == groups.len()
            &&& forall|g: int|
                0 <= g < groups.len() ==> {
                    &&& (#[trigger] grouped[g]).0 == years[groups[g]@[0] as int]
                    &&& grouped[g].1@ == picked(items, groups[g]@)
                }
        };
    assert(grouped[g].1@ == picked(items, groups[g]@));
    let i = groups[g]@[k] as int;
    assert(0 <= groups[g]@[k] < years.len());
    assert(ties(years[i], years[groups[g]@[0] as int]));
    assert(items[i] == grouped[g].1@[k]);
}

/// Every item stands under its year.
pub proof fn law_items_are_all_grouped<T>(
    items: Seq<T>,
    years: Seq<i64>,
    grouped: Seq<(i32, Vec<T>)>,
    i: int,
)
    requires
        years.len() == items.len() <= usize::MAX,
        grouped_by_year(items, years, grouped),
        0 <= i < items.len(),
    ensures
        exists|g: int|
            0 <= g < grouped.len() && (#[trigger] grouped[g]).0 == years[i]
                && grouped[g].1@.contains(items[i]),
{
    let groups = choose|groups: Seq<Vec<usize>>|
        {
            &&& #[trigger] is_grouping(years, groups)
            &&& grouped.len() == groups.len()
            &&& forall|g: int|
                0 <= g < groups.len() ==> {
                    &&& (#[trigger] grouped[g]).0 == years[groups[g]@[0] as int]
                    &&& grouped[g].1@ == picked(items, groups[g]@)
                }
        };
    assert(in_some_group(groups, i));
    let g = choose|g: int| #[trigger] in_group(groups, g, i);
    let k = choose|k: int| 0 <= k < groups[g]@.len() && groups[g]@[k] == i as usize;
    assert(ties(years[groups[g]@[k] as int], years[groups[g]@[0] as int]));
    assert(grouped[g].0 == years[i]);
    assert(grouped[g].1@ == picked(items, groups[g]@));
    assert(grouped[g].1@[k] == items[i]);
}

/// Groups items by their years.
fn group_by_year<T>(items: Vec<T>, years: Vec<i64>) -> (r: Vec<(i32, Vec<T>)>)
    requires
        years@.len() == items@.len(),
        forall|i: int| 0 <= i < years@.len() ==> i32::MIN <= #[trigger] years@[i] <= i32::MAX,
    ensures
        grouped_by_year(items@, years@, r@),
{
    let groups = group(&years);
    let parts = pick_groups(items, &groups, &years);
    let ghost all = parts@;
    let mut heads: Vec<i32> = Vec::new();
    let mut g: usize = 0;
    while g < groups.len()
        invariant
            g <= groups@.len(),
            is_grouping(years@, groups@),
            forall|i: int| 0 <= i < years@.len() ==> i32::MIN <= #[trigger] years@[i] <= i32::MAX,
            heads@.len() == g,
            forall|h: int| 0 <= h < g ==> #[trigger] heads@[h] == years@[groups@[h]@[0] as int],
        decreases groups@.len() - g,
    {
        assert(groups@[g as int]@.len() > 0);
        assert(0 <= groups@[g as int]@[0] < years@.len());
        let year: i64 = years[groups[g][0]];
        assert(i32::MIN <= years@[groups@[g as int]@[0] as int] <= i32::MAX);
        heads.push(year as i32);
        g += 1;
    }
    let mut backward: Vec<(i32, Vec<T>)> = Vec::new();
    let mut rest = parts;
    let n: usize = rest.len();
    let mut i: usize = 0;
    while i < n
        invariant
            i <= n,
            n == all.len() == heads@.len(),
            rest@ == all.take(n - i),
            backward@.len() == i,
            forall|k: int|
                0 <= k < i ==> (#[trigger] backward@[k]).0 == heads@[n - 1 - k] && backward@[k].1
                    == all[n - 1 - k],
        decreases n - i,
    {
        match rest.pop() {
            Some(part) => {
                backward.push((heads[n - 1 - i], part));
            },
            None => {
                assert(false);
            },
        }
        i += 1;
        assert(rest@ =~= all.take(n - i));
    }
    let mut grouped: Vec<(i32, Vec<T>)> = Vec::new();
    let ghost turned = backward@;
    let mut j: usize = 0;
    while j < n
        invariant
            j <= n,
            n == turned.len(),
            backward@ == turned.take(n - j),
            grouped@.len() == j,
            forall|k: int| 0 <= k < j ==> #[trigger] grouped@[k] == turned[n - 1 - k],
        decreases n - j,
    {
        match backward.pop() {
            Some(part) => {
                grouped.push(part);
            },
            None => {
                assert(false);
            },
        }
        j += 1;
        assert(backward@ =~= turned.take(n - j));
    }
    proof {
        assert forall|h: int| 0 <= h < groups@.len() implies {
            &&& (#[trigger] grouped@[h]).0 == years@[groups@[h]@[0] as int]
            &&& grouped@[h].1@ == picked(items@, groups@[h]@)
        } by {
            assert(grouped@[h] == turned[n - 1 - h]);
            assert(turned[n - 1 - h].0 == heads@[h]);
            assert(turned[n - 1 - h].1 == all[h]);
        }
    }
    grouped
}

pub open spec fn observation_years(observations: Seq<ObservationRecord>) -> Seq<i64> {
    Seq::new(observations.len(), |i: int| observations[i].local_date.y() as i64)
}

pub open spec fn summary_years(summaries: Seq<DailySummary>) -> Seq<i64> {
    Seq::new(summaries.len(), |i: int| summaries[i].local_date.y() as i64)
}

pub open spec fn profile_years(profiles: Seq<DayProfile>) -> Seq<i64> {
    Seq::new(profiles.len(), |i: int| profiles[i].local_date.y() as i64)
}

/// The observations by the years of their local dates.
pub fn group_observations_by_year(observations: Vec<ObservationRecord>) -> (r: Vec<
    (i32, Vec<ObservationRecord>),
>)
    ensures
        grouped_by_year(observations@, observation_years(observations@), r@),
{
    let mut years: Vec<i64> = Vec::new();
    let mut i: usize = 0;
    while i < observations.len()
        invariant
            i <= observations@.len(),
            years@.len() == i,
            forall|k: int|
                0 <= k < i ==> #[trigger] years@[k] == observations@[k].local_date.y() as i64
                    && i32::MIN <= years@[k] <= i32::MAX,
        decreases observations@.len() - i,
    {
        years.push(observations[i].local_date.year() as i64);
        i += 1;
    }
    assert(years@ =~= observation_years(observations@));
    group_by_year(observations, years)
}

/// The daily summaries by the years of their dates.
pub fn group_daily_by_year(summaries: Vec<DailySummary>) -> (r: Vec<(i32, Vec<DailySummary>)>)
    ensures
        grouped_by_year(summaries@, summary_years(summaries@), r@),
{
    let mut years: Vec<i64> = Vec::new();
    let mut i: usize = 0;
    while i < summaries.len()
        invariant
            i <= summaries@.len(),
            years@.len() == i,
            forall|k: int|
                0 <= k < i ==> #[trigger] years@[k] == summaries@[k].local_date.y() as i64
                    && i32::MIN <= years@[k] <= i32::MAX,
        decreases summaries@.len() - i,
    {
        years.push(summaries[i].local_date.year() as i64);
        i += 1;
    }
    assert(years@ =~= summary_years(summaries@));
    group_by_year(summaries, years)
}

/// The profiles by the years of their dates.
pub fn group_profiles_by_year(profiles: Vec<DayProfile>) -> (r: Vec<(i32, Vec<DayProfile>)>)
    ensures
        grouped_by_year(profiles@, profile_years(profiles@), r@),
{
    let mut years: Vec<i64> = Vec::new();
    let mut i: usize = 0;
    while i < profiles.len()
        invariant
            i <= profiles@.len(),
            years@.len() == i,
            forall|k: int|
                0 <= k < i ==> #[trigger] years@[k] == profiles@[k].local_date.y() as i64
                    && i32::MIN <= years@[k] <= i32::MAX,
        decreases profiles@.len() - i,
    {
        years.push(profiles[i].local_date.year() as i64);
        i += 1;
    }
    assert(years@ =~= profile_years(profiles@));
    group_by_year(profiles, years)
}

/// The items of a year: none where the year is not there.
pub open spec fn items_of<T>(grouped: Seq<(i32, Vec<T>)>, year: i32) -> Seq<T>
    decreases grouped.len(),
{
    if grouped.len() == 0 {
        seq![]
    } else if grouped.last().0 == year {
        grouped.last().1@
    } else {
        items_of(grouped.drop_last(), year)
    }
}

/// The years to write: the one that is asked for, though it has no items, or all that have some.
pub fn collect_years<T>(grouped: Vec<(i32, Vec<T>)>, year: Option<i32>) -> (r: Result<
    Vec<(i32, Vec<T>)>,
    Failure,
>)
    ensures
        match (year, r) {
            (Some(wanted), Ok(years)) => years@.len() == 1 && years@[0].0 == wanted
                && years@[0].1@ == items_of(grouped@, wanted),
            (Some(_), Err(_)) => false,
            (None, Ok(years)) => grouped@.len() > 0 && years@ == grouped@,
            (None, Err(failure)) => grouped@.len() == 0 && failure.message@
                == "no derived data was produced"@,
        },
{
    match year {
        Some(wanted) => {
            let ghost all = grouped@;
            let mut rest = grouped;
            assert(all.take(all.len() as int) =~= all);
            let mut values: Vec<T> = Vec::new();
            let mut found = false;
            while rest.len() > 0 && !found
                invariant
                    rest@.len() <= all.len(),
                    rest@ == all.take(rest@.len() as int),
                    !found ==> values@.len() == 0 && items_of(all, wanted) == items_of(
                        rest@,
                        wanted,
                    ),
                    found ==> values@ == items_of(all, wanted),
                decreases rest@.len(),
            {
                let ghost before = rest@;
                match rest.pop() {
                    Some((at, items)) => {
                        assert(rest@ =~= before.drop_last());
                        assert(rest@ =~= all.take(rest@.len() as int));
                        if at == wanted {
                            values = items;
                            found = true;
                        }
                    },
                    None => {},
                }
            }
            assert(values@ =~= items_of(all, wanted));
            let mut years: Vec<(i32, Vec<T>)> = Vec::new();
            years.push((wanted, values));
            Ok(years)
        },
        None => {
            if grouped.len() == 0 {
                Err(Failure::new("no derived data was produced"))
            } else {
                Ok(grouped)
            }
        },
    }
}

/// The observations of a data set with more of them merged into it, and how many it grew by.
pub fn merge_observations(
    existing: Vec<ObservationRecord>,
    observations: Vec<ObservationRecord>,
) -> (r: (Vec<ObservationRecord>, usize))
    ensures
        exists|chosen: Seq<usize>| #[trigger]
            is_dedupe(existing@ + observations@, chosen) && r.0@ == picked(
                existing@ + observations@,
                chosen,
            ),
        r.1 == if r.0@.len() > existing@.len() {
            r.0@.len() - existing@.len()
        } else {
            0
        },
{
    let before: usize = existing.len();
    let mut all = existing;
    let mut more = observations;
    all.append(&mut more);
    assert(all@ =~= existing@ + observations@);
    let merged = dedupe_observations(all);
    let after: usize = merged.len();
    let added: usize = if after > before {
        after - before
    } else {
        0
    };
    (merged, added)
}

/// Merging the same observations into a data set a second time changes nothing: exactly the
/// observations that were there are kept.
pub proof fn law_merging_again_changes_nothing(
    existing: Seq<ObservationRecord>,
    observations: Seq<ObservationRecord>,
    chosen: Seq<usize>,
    again: Seq<usize>,
)
    requires
        is_dedupe(existing + observations, chosen),
        is_dedupe(picked(existing + observations, chosen) + observations, again),
    ensures
        forall|k: int| 0 <= k < again.len() ==> #[trigger] again[k] < chosen.len(),
        forall|i: int| 0 <= i < chosen.len() ==> #[trigger] is_listed(again, i),
{
    let all = existing + observations;
    let merged = picked(all, chosen);
    let both = merged + observations;
    assert forall|k: int| 0 <= k < again.len() implies #[trigger] again[k] < chosen.len() by {
        let c = again[k] as int;
        if c >= merged.len() {
            let j = c - merged.len();
            let at = existing.len() + j;
            assert(both[c] == observations[j]);
            assert(all[at] == observations[j]);
            assert(is_represented(all, chosen, at));
            let i = choose|i: int|
                {
                    &&& 0 <= i < chosen.len()
                    &&& same_moment(all[#[trigger] chosen[i] as int], all[at])
                    &&& preferred(all, chosen[i] as int, at)
                };
            assert(merged[i] == all[chosen[i] as int]);
            assert(both[i] == merged[i]);
            assert(is_represented(both, again, i));
            let l = choose|l: int|
                {
                    &&& 0 <= l < again.len()
                    &&& same_moment(both[#[trigger] again[l] as int], both[i])
                    &&& preferred(both, again[l] as int, i)
                };
            assert(same_moment(picked(both, again)[k], picked(both, again)[l]));
            law_moments_are_kept_once(both, again, k, l);
            assert(false);
        }
    }
    assert forall|i: int| 0 <= i < chosen.len() implies #[trigger] is_listed(again, i) by {
        assert(both[i] == merged[i]);
        assert(is_represented(both, again, i));
        let l = choose|l: int|
            {
                &&& 0 <= l < again.len()
                &&& same_moment(both[#[trigger] again[l] as int], both[i])
                &&& preferred(both, again[l] as int, i)
            };
        let c = again[l] as int;
        assert(again[l] < chosen.len());
        assert(both[c] == merged[c]);
        law_moments_are_kept_once(all, chosen, c, i);
        assert(again[l] == i);
    }
}

/// The position is one of those in the list.
pub open spec fn is_listed(positions: Seq<usize>, i: int) -> bool {
    exists|k: int| 0 <= k < positions.len() && #[trigger] positions[k] == i
}

/// Merging the same observations into the data set of one station a second time leaves the list as
/// it was, so that nothing is added.
pub proof fn law_merging_again_leaves_the_list(
    existing: Seq<ObservationRecord>,
    observations: Seq<ObservationRecord>,
    chosen: Seq<usize>,
    again: Seq<usize>,
)
    requires
        of_one_station(existing + observations),
        is_dedupe(existing + observations, chosen),
        is_dedupe(picked(existing + observations, chosen) + observations, again),
    ensures
        picked(picked(existing + observations, chosen) + observations, again) == picked(
            existing + observations,
            chosen,
        ),
{
    let all = existing + observations;
    let merged = picked(all, chosen);
    let both = merged + observations;
    let second = picked(both, again);
    law_merging_again_changes_nothing(existing, observations, chosen, again);
    assert forall|i: int| 0 <= i < both.len() implies all.contains(#[trigger] both[i]) by {
        if i < merged.len() {
            assert(both[i] == all[chosen[i] as int]);
        } else {
            assert(both[i] == all[existing.len() + (i - merged.len())]);
        }
    }
    assert forall|i: int, j: int| 0 <= i < both.len() && 0 <= j < both.len() implies (
    #[trigger] both[i]).station_id@ == (#[trigger] both[j]).station_id@ by {
        assert(all.contains(both[i]) && all.contains(both[j]));
        let a = choose|a: int| 0 <= a < all.len() && all[a] == both[i];
        let b = choose|b: int| 0 <= b < all.len() && all[b] == both[j];
        assert(all[a].station_id@ == all[b].station_id@);
    }
    law_kept_observations_rise(all, chosen);
    law_kept_observations_rise(both, again);
    assert forall|x: ObservationRecord| merged.contains(x) implies second.contains(x) by {
        let i = choose|i: int| 0 <= i < merged.len() && merged[i] == x;
        assert(is_listed(again, i));
        let k = choose|k: int| 0 <= k < again.len() && #[trigger] again[k] == i;
        assert(both[i] == merged[i]);
        assert(second[k] == x);
    }
    assert forall|x: ObservationRecord| second.contains(x) implies merged.contains(x) by {
        let k = choose|k: int| 0 <= k < second.len() && second[k] == x;
        assert(again[k] < chosen.len());
        assert(both[again[k] as int] == merged[again[k] as int]);
    }
    lemma_rising_lists_agree(merged, second);
}

/// The observations of a local date, in their order.
pub open spec fn on_date(observations: Seq<ObservationRecord>, date: Date) -> Seq<ObservationRecord> {
    kept(
        Seq::new(
            observations.len(),
            |i: int|
                if observations[i].local_date == date {
                    Some(observations[i])
                } else {
                    None
                },
        ),
    )
}

/// The observations of a local date.
pub fn observations_for_date(observations: Vec<ObservationRecord>, target_date: Date) -> (r: Vec<
    ObservationRecord,
>)
    ensures
        r@ == on_date(observations@, target_date),
{
    let ghost all = Seq::new(
        observations@.len(),
        |i: int|
            if observations@[i].local_date == target_date {
                Some(observations@[i])
            } else {
                None
            },
    );
    let mut chosen: Vec<usize> = Vec::new();
    let mut i: usize = 0;
    assert(all.take(0) =~= seq![]);
    assert(picked(observations@, chosen@) =~= seq![]);
    while i < observations.len()
        invariant
            i <= observations@.len(),
            all == Seq::new(
                observations@.len(),
                |i: int|
                    if observations@[i].local_date == target_date {
                        Some(observations@[i])
                    } else {
                        None
                    },
            ),
            forall|k: int| 0 <= k < chosen@.len() ==> #[trigger] chosen@[k] < i,
            forall|k: int, l: int|
                0 <= k < l < chosen@.len() ==> #[trigger] chosen@[k] < #[trigger] chosen@[l],
            picked(observations@, chosen@) == kept(all.take(i as int)),
        decreases observations@.len() - i,
    {
        proof {
            lemma_kept_push(all.take(i as int), all[i as int]);
            assert(all.take(i as int).push(all[i as int]) =~= all.take(i + 1));
        }
        if observations[i].local_date.same(target_date) {
            let ghost before = chosen@;
            chosen.push(i);
            assert(picked(observations@, chosen@) =~= picked(observations@, before).push(
                observations@[i as int],
            ));
        }
        i += 1;
    }
    assert(all.take(i as int) =~= all);
    pick(observations, &chosen)
}

/// The latest instant of the observations.
pub open spec fn is_latest(observations: Seq<ObservationRecord>, latest: Option<UtcTime>) -> bool {
    match latest {
        Some(time) => {
            &&& exists|i: int|
                0 <= i < observations.len() && (#[trigger] observations[i]).observed_at_utc == time
            &&& forall|i: int|
                0 <= i < observations.len() ==> (
                #[trigger] observations[i]).observed_at_utc.not_after(time)
        },
        None => observations.len() == 0,
    }
}

/// The latest instant of the observations.
pub fn latest_instant(observations: &Vec<ObservationRecord>) -> (r: Option<UtcTime>)
    ensures
        is_latest(observations@, r),
{
    if observations.len() == 0 {
        return None;
    }
    let mut latest = observations[0].observed_at_utc;
    let mut i: usize = 1;
    while i < observations.len()
        invariant
            1 <= i <= observations@.len(),
            exists|k: int| 0 <= k < i && (#[trigger] observations@[k]).observed_at_utc == latest,
            forall|k: int|
                0 <= k < i ==> (#[trigger] observations@[k]).observed_at_utc.not_after(latest),
        decreases observations@.len() - i,
    {
        if latest.is_not_after(observations[i].observed_at_utc) {
            latest = observations[i].observed_at_utc;
            assert(observations@[i as int].observed_at_utc == latest);
        }
        i += 1;
    }
    Some(latest)
}

/// What is said of the age of the latest observation: it is stale after ninety minutes.
pub open spec fn age_note(latest: Option<UtcTime>, now: UtcTime) -> Seq<char> {
    match latest {
        None => "no same-day NWS observation has been normalized yet"@,
        Some(time) => {
            let minutes = minutes_between(time.s(), time.n(), now.s(), now.n());
            let shown = instant_text(time.s(), time.n());
            if minutes > 90 {
                "stale current-day data: latest NWS observation is "@ + int_text(minutes)
                    + " minutes old ("@ + shown + ")"@
            } else {
                "latest NWS observation age: "@ + int_text(minutes) + " minutes ("@ + shown + ")"@
            }
        },
    }
}

/// The minutes between two instants outside leap seconds are the whole minutes of the time between
/// them.
pub open spec fn counts_whole_minutes(from: UtcTime, to: UtcTime) -> bool {
    from.n() < 1_000_000_000 && to.n() < 1_000_000_000 ==> minutes_between(
        from.s(),
        from.n(),
        to.s(),
        to.n(),
    ) == toward_zero((to.s() - from.s()) * 1_000_000_000 + to.n() - from.n(), 60_000_000_000)
}

/// What is said of the age of the latest observation.
pub fn describe_age(latest: Option<UtcTime>, now: UtcTime) -> (r: String)
    ensures
        r@ == age_note(latest, now),
        latest matches Some(time) ==> counts_whole_minutes(time, now),
{
    match latest {
        None => "no same-day NWS observation has been normalized yet".to_string(),
        Some(time) => {
            let minutes: i64 = now.minutes_since(time);
            let mut note: String = if minutes > 90 {
                "stale current-day data: latest NWS observation is ".to_string()
            } else {
                "latest NWS observation age: ".to_string()
            };
            note.append(&signed_decimal(minutes));
            if minutes > 90 {
                note.append(" minutes old (");
            } else {
                note.append(" minutes (");
            }
            note.append(&time.to_display());
            note.append(")");
            note
        },
    }
}

/// What is said of the age of the observations of today; nothing is said of other days.
pub open spec fn freshness_is(
    target_date: Date,
    today: Date,
    observations: Seq<ObservationRecord>,
    now: UtcTime,
    note: Option<Seq<char>>,
) -> bool {
    match note {
        None => target_date != today,
        Some(text) => target_date == today && exists|latest: Option<UtcTime>| #[trigger]
            is_latest(on_date(observations, target_date), latest) && text == age_note(latest, now)
                && (latest matches Some(time) ==> counts_whole_minutes(time, now)),
    }
}

/// What is said of the age of the observations of today, which are all observations of the service
/// of the year; nothing is said of other days.
pub fn current_day_freshness_note(
    target_date: Date,
    today: Date,
    observations: Vec<ObservationRecord>,
    now: UtcTime,
) -> (r: Option<String>)
    ensures
        freshness_is(
            target_date,
            today,
            observations@,
            now,
            match r {
                Some(note) => Some(note@),
                None => None,
            },
        ),
{
    if !target_date.same(today) {
        return None;
    }
    let chosen = observations_for_date(observations, target_date);
    let latest = latest_instant(&chosen);
    let note = describe_age(latest, now);
    assert(is_latest(on_date(observations@, target_date), latest));
    Some(note)
}

/// The state of a day: sparse with fewer than six observed hours, mixed with observations of the
/// hourly source, normal otherwise.
pub open spec fn day_state(observed_hours: nat, slugs: Seq<Seq<char>>) -> Seq<char> {
    if observed_hours < 6 {
        "sparse-current-day"@
    } else if is_hourly(slugs) {
        "mixed-cadence"@
    } else {
        "normal"@
    }
}

/// The state of a day.
pub fn quality_state_for_day(observed_hours: usize, source_slugs: &Vec<String>) -> (r: String)
    ensures
        r@ == day_state(observed_hours as nat, texts(source_slugs@)),
{
    if observed_hours < minimum_analog_hours(None) {
        "sparse-current-day".to_string()
    } else if has_hourly(source_slugs) {
        "mixed-cadence".to_string()
    } else {
        "normal".to_string()
    }
}

/// What is said of a day with observations of the service alone, or with few observed hours.
pub open spec fn day_note(observed_hours: nat, slugs: Seq<Seq<char>>) -> Option<Seq<char>> {
    if slugs.len() == 1 && slugs[0] == "nws-api"@ {
        Some("low-history / partial-day target currently relies only on NWS API observations"@)
    } else if observed_hours < 6 {
        Some("partial-day target has only "@ + digits(observed_hours) + " observed hours"@)
    } else {
        None
    }
}

/// What is said of a day with observations of the service alone, or with few observed hours.
pub fn quality_note_for_day(observed_hours: usize, source_slugs: &Vec<String>) -> (r: Option<String>)
    ensures
        (match r {
            Some(note) => Some(note@),
            None => None,
        }) == day_note(observed_hours as nat, texts(source_slugs@)),
{
    assert(texts(source_slugs@).len() == source_slugs@.len());
    if source_slugs.len() == 1 && same_text(&source_slugs[0], "nws-api") {
        assert(texts(source_slugs@)[0] == source_slugs@[0]@);
        return Some(
            "low-history / partial-day target currently relies only on NWS API observations".to_string(),
        );
    }
    assert(source_slugs@.len() == 1 ==> texts(source_slugs@)[0] == source_slugs@[0]@);
    if observed_hours < minimum_analog_hours(None) {
        let mut note: String = "partial-day target has only ".to_string();
        note.append(&decimal(observed_hours as u128));
        note.append(" observed hours");
        Some(note)
    } else {
        None
    }
}

/// The first profile of a date.
pub open spec fn is_first_profile(profiles: Seq<DayProfile>, date: Date, found: Option<usize>) -> bool {
    match found {
        Some(i) => i < profiles.len() && profiles[i as int].local_date == date && forall|k: int|
            0 <= k < i ==> (#[trigger] profiles[k]).local_date != date,
        None => forall|k: int| 0 <= k < profiles.len() ==> (#[trigger] profiles[k]).local_date != date,
    }
}

/// The position of the first profile of a date.
pub fn profile_on(profiles: &Vec<DayProfile>, date: Date) -> (r: Option<usize>)
    ensures
        is_first_profile(profiles@, date, r),
{
    let mut i: usize = 0;
    while i < profiles.len()
        invariant
            i <= profiles@.len(),
            forall|k: int| 0 <= k < i ==> (#[trigger] profiles@[k]).local_date != date,
        decreases profiles@.len() - i,
    {
        if profiles[i].local_date.same(date) {
            return Some(i);
        }
        i += 1;
    }
    None
}

/// The first summary of a date.
pub open spec fn is_first_summary(daily: Seq<DailySummary>, date: Date, found: Option<usize>) -> bool {
    match found {
        Some(i) => i < daily.len() && daily[i as int].local_date == date && forall|k: int|
            0 <= k < i ==> (#[trigger] daily[k]).local_date != date,
        None => forall|k: int| 0 <= k < daily.len() ==> (#[trigger] daily[k]).local_date != date,
    }
}

/// The position of the first summary of a date.
pub fn summary_on(daily: &Vec<DailySummary>, date: Date) -> (r: Option<usize>)
    ensures
        is_first_summary(daily@, date, r),
{
    let mut i: usize = 0;
    while i < daily.len()
        invariant
            i <= daily@.len(),
            forall|k: int| 0 <= k < i ==> (#[trigger] daily@[k]).local_date != date,
        decreases daily@.len() - i,
    {
        if daily[i].local_date.same(date) {
            return Some(i);
        }
        i += 1;
    }
    None
}

/// Where the profile of the target day comes from.
#[derive(Debug, Clone)]
pub enum TargetProfile {
    /// It is the stored profile at this position.
    Stored(usize),
    /// It was built from the observations of today.
    Built(DayProfile),
    Missing,
}

/// The profile of the target day: the first stored one, or for today the last of those built from
/// the current observations of the day.
pub open spec fn target_profile_is<A: Arithmetic>(
    a: &A,
    target_date: Date,
    today: Date,
    profiles: Seq<DayProfile>,
    current: Option<Seq<ObservationRecord>>,
    found: TargetProfile,
) -> bool {
    match found {
        TargetProfile::Stored(i) => is_first_profile(profiles, target_date, Some(i)),
        TargetProfile::Built(profile) => {
            &&& is_first_profile(profiles, target_date, None)
            &&& target_date == today
            &&& current matches Some(observations) && is_last_built(
                a,
                on_date(observations, target_date),
                Some(profile),
            )
        },
        TargetProfile::Missing => {
            &&& is_first_profile(profiles, target_date, None)
            &&& target_date == today && current is Some ==> is_last_built(
                a,
                on_date(current->0, target_date),
                None,
            )
        },
    }
}

/// The last of the profiles that are built from the observations.
pub open spec fn is_last_built<A: Arithmetic>(
    a: &A,
    observations: Seq<ObservationRecord>,
    last: Option<DayProfile>,
) -> bool {
    exists|built: Seq<DayProfile>| #[trigger]
        profiles_are(a, observations, built) && last == (if built.len() == 0 {
            None
        } else {
            Some(built.last())
        })
}

/// The profile of the target day, `current` being the current observations of the year where they
/// are kept.
pub fn resolve_target_profile<A: Arithmetic>(
    a: &A,
    target_date: Date,
    today: Date,
    profiles: &Vec<DayProfile>,
    current: Option<Vec<ObservationRecord>>,
) -> (r: TargetProfile)
    ensures
        target_profile_is(
            a,
            target_date,
            today,
            profiles@,
            match current {
                Some(observations) => Some(observations@),
                None => None,
            },
            r,
        ),
{
    if let Some(i) = profile_on(profiles, target_date) {
        return TargetProfile::Stored(i);
    }
    if target_date.same(today) {
        if let Some(observations) = current {
            let chosen = observations_for_date(observations, target_date);
            let builder = DayProfileBuilder;
            if let Ok(list) = builder.build(a, &chosen) {
                let mut list = list;
                let last = list.pop();
                assert(is_last_built(a, chosen@, last));
                return match last {
                    Some(profile) => TargetProfile::Built(profile),
                    None => TargetProfile::Missing,
                };
            }
        }
    }
    TargetProfile::Missing
}

pub open spec fn summary_dates(daily: Seq<DailySummary>) -> Seq<Date> {
    Seq::new(daily.len(), |i: int| daily[i].local_date)
}

pub open spec fn profile_dates(profiles: Seq<DayProfile>) -> Seq<Date> {
    Seq::new(profiles.len(), |i: int| profiles[i].local_date)
}

/// The summaries by date, those of a date in their order.
pub fn sort_daily(daily: Vec<DailySummary>) -> (r: Vec<DailySummary>)
    ensures
        exists|order: Seq<usize>| #[trigger]
            is_stable_order(summary_dates(daily@), order) && r@ == picked(daily@, order),
{
    let mut dates: Vec<Date> = Vec::new();
    let mut i: usize = 0;
    while i < daily.len()
        invariant
            i <= daily@.len(),
            dates@ == summary_dates(daily@).take(i as int),
        decreases daily@.len() - i,
    {
        dates.push(daily[i].local_date);
        i += 1;
        assert(dates@ =~= summary_dates(daily@).take(i as int));
    }
    assert(dates@ =~= summary_dates(daily@));
    let order = sort_order(&dates);
    proof {
        lemma_order_is_distinct(dates@, order@);
    }
    pick(daily, &order)
}

/// The profiles by date, those of a date in their order.
pub fn sort_profiles(profiles: Vec<DayProfile>) -> (r: Vec<DayProfile>)
    ensures
        exists|order: Seq<usize>| #[trigger]
            is_stable_order(profile_dates(profiles@), order) && r@ == picked(profiles@, order),
{
    let mut dates: Vec<Date> = Vec::new();
    let mut i: usize = 0;
    while i < profiles.len()
        invariant
            i <= profiles@.len(),
            dates@ == profile_dates(profiles@).take(i as int),
        decreases profiles@.len() - i,
    {
        dates.push(profiles[i].local_date);
        i += 1;
        assert(dates@ =~= profile_dates(profiles@).take(i as int));
    }
    assert(dates@ =~= profile_dates(profiles@));
    let order = sort_order(&dates);
    proof {
        lemma_order_is_distinct(dates@, order@);
    }
    pick(profiles, &order)
}

/// The observations of a station out of all its data files, one for each moment.
pub fn station_observations(
    observations: Vec<ObservationRecord>,
    station_id: &StationId,
) -> (r: Result<Vec<ObservationRecord>, Failure>)
    ensures
        match r {
            Ok(all) => observations@.len() > 0 && exists|chosen: Seq<usize>| #[trigger]
                is_dedupe(observations@, chosen) && all@ == picked(observations@, chosen),
            Err(failure) => observations@.len() == 0 && failure.message@
                == "no normalized observations found for station "@ + station_id@,
        },
{
    if observations.len() == 0 {
        let code = to_chars(station_id.as_str());
        return Err(Failure::about("no normalized observations found for station ", &code));
    }
    Ok(dedupe_observations(observations))
}

/// The daily summaries of a station out of all its data files, by date.
pub fn station_daily(daily: Vec<DailySummary>, station_id: &StationId) -> (r: Result<
    Vec<DailySummary>,
    Failure,
>)
    ensures
        match r {
            Ok(all) => daily@.len() > 0 && exists|order: Seq<usize>| #[trigger]
                is_stable_order(summary_dates(daily@), order) && all@ == picked(daily@, order),
            Err(failure) => daily@.len() == 0 && failure.message@
                == "no daily summaries found for station "@ + station_id@,
        },
{
    if daily.len() == 0 {
        let code = to_chars(station_id.as_str());
        return Err(Failure::about("no daily summaries found for station ", &code));
    }
    Ok(sort_daily(daily))
}

/// The day profiles of a station out of all its data files, by date.
pub fn station_profiles(profiles: Vec<DayProfile>, station_id: &StationId) -> (r: Result<
    Vec<DayProfile>,
    Failure,
>)
    ensures
        match r {
            Ok(all) => profiles@.len() > 0 && exists|order: Seq<usize>| #[trigger]
                is_stable_order(profile_dates(profiles@), order) && all@ == picked(
                    profiles@,
                    order,
                ),
            Err(failure) => profiles@.len() == 0 && failure.message@
                == "no day profiles found for station "@ + station_id@,
        },
{
    if profiles.len() == 0 {
        let code = to_chars(station_id.as_str());
        return Err(Failure::about("no day profiles found for station ", &code));
    }
    Ok(sort_profiles(profiles))
}

} // verus!
