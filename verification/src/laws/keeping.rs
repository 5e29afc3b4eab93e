//! Data sets: what is kept of several observations of one moment, and how they are parted by date
//! and year.
use vstd::prelude::*;
use crate::calendar::{Date, UtcTime};
use crate::dataset::{
    age_note, collect_years, counts_whole_minutes, current_day_freshness_note, describe_age,
    group_daily_by_year, group_observations_by_year, group_profiles_by_year, grouped_by_year,
    is_latest, items_of, law_items_are_all_grouped, law_years_rise, merge_observations,
    observation_years, observations_for_date, on_date, profile_dates, profile_on, profile_years,
    quality_note_for_day, quality_state_for_day, resolve_target_profile, sort_daily, sort_profiles,
    summary_dates, summary_on, summary_years, TargetProfile,
};
use crate::domain::{DailySummary, DayProfile, Failure, ObservationRecord};
use crate::engine::{dedupe_observations, is_dedupe, is_represented, preferred, same_moment};
use crate::laws::lists::{lemma_filter_holds, lemma_kept_filter, lemma_picked_filter};
use crate::order::{
    in_group, in_some_group, is_grouping, is_stable_order, lemma_group_holds_ties, picked, ties,
};
use crate::reading::Arithmetic;
use crate::source::DataSource;
use crate::text::{starts_with, texts};

verus! {

/// One of the kept observations is of the moment of this one, of the same source or of one that
/// comes before it: the official archive, then the one-minute archive, the service and the hourly
/// archive.
pub open spec fn is_kept_for(kept: Seq<ObservationRecord>, o: ObservationRecord) -> bool {
    exists|k: int|
        {
            &&& 0 <= k < kept.len()
            &&& (#[trigger] kept[k]).station_id@ == o.station_id@
            &&& kept[k].observed_at_utc == o.observed_at_utc
            &&& o.source == DataSource::NceiAsosFiveMinute ==> kept[k].source
                == DataSource::NceiAsosFiveMinute
            &&& o.source == DataSource::IemAsosOneMinute ==> kept[k].source
                == DataSource::NceiAsosFiveMinute || kept[k].source == DataSource::IemAsosOneMinute
            &&& o.source == DataSource::NwsApi ==> kept[k].source != DataSource::Ghcnh
        }
}

/// The observation is in the list, the first of its moment and source.
pub open spec fn is_first_of_its_moment(all: Seq<ObservationRecord>, o: ObservationRecord) -> bool {
    exists|c: int|
        {
            &&& 0 <= c < all.len()
            &&& #[trigger] all[c] == o
            &&& forall|i: int|
                0 <= i < c && (#[trigger] all[i]).station_id@ == o.station_id@
                    && all[i].observed_at_utc == o.observed_at_utc ==> all[i].source != o.source
        }
}

/// The first observation is of another moment than the second, and not of a later instant.
pub open spec fn comes_before(one: ObservationRecord, other: ObservationRecord) -> bool {
    let (x, y) = (one.observed_at_utc, other.observed_at_utc);
    &&& !(one.station_id@ == other.station_id@ && x == y)
    &&& x.s() < y.s() || x.s() == y.s() && x.n() <= y.n()
}

/// What is kept of observations: each moment of a station once, by instant, and of several of one
/// source the first.
pub open spec fn keeps_each_moment_once(
    all: Seq<ObservationRecord>,
    kept: Seq<ObservationRecord>,
) -> bool {
    &&& forall|i: int| 0 <= i < all.len() ==> is_kept_for(kept, #[trigger] all[i])
    &&& forall|k: int| 0 <= k < kept.len() ==> is_first_of_its_moment(all, #[trigger] kept[k])
    &&& forall|k: int, l: int|
        0 <= k < l < kept.len() ==> comes_before(#[trigger] kept[k], #[trigger] kept[l])
}

proof fn lemma_is_kept_for(all: Seq<ObservationRecord>, chosen: Seq<usize>, i: int)
    requires
        is_dedupe(all, chosen),
        0 <= i < all.len(),
    ensures
        is_kept_for(picked(all, chosen), all[i]),
{
    let kept = picked(all, chosen);
    assert(is_represented(all, chosen, i));
    let k = choose|k: int|
        {
            &&& 0 <= k < chosen.len()
            &&& same_moment(all[#[trigger] chosen[k] as int], all[i])
            &&& preferred(all, chosen[k] as int, i)
        };
    assert(kept[k] == all[chosen[k] as int]);
}

proof fn lemma_is_first_of_its_moment(all: Seq<ObservationRecord>, chosen: Seq<usize>, k: int)
    requires
        is_dedupe(all, chosen),
        0 <= k < chosen.len(),
    ensures
        is_first_of_its_moment(all, all[chosen[k] as int]),
{
    let c = chosen[k] as int;
    let o = all[c];
    assert(chosen[k] < all.len());
    assert forall|i: int|
        0 <= i < c && (#[trigger] all[i]).station_id@ == o.station_id@ && all[i].observed_at_utc
            == o.observed_at_utc implies all[i].source != o.source by {
        assert(is_represented(all, chosen, i));
        let l = choose|l: int|
            {
                &&& 0 <= l < chosen.len()
                &&& same_moment(all[#[trigger] chosen[l] as int], all[i])
                &&& preferred(all, chosen[l] as int, i)
            };
        if l < k {
            assert(!same_moment(all[chosen[l] as int], all[chosen[k] as int]));
        } else if k < l {
            assert(!same_moment(all[chosen[k] as int], all[chosen[l] as int]));
        }
        assert(l == k);
    }
}

pub proof fn lemma_keeps_each_moment_once(all: Seq<ObservationRecord>, chosen: Seq<usize>)
    requires
        is_dedupe(all, chosen),
    ensures
        keeps_each_moment_once(all, picked(all, chosen)),
{
    let kept = picked(all, chosen);
    assert forall|i: int| 0 <= i < all.len() implies is_kept_for(kept, #[trigger] all[i]) by {
        lemma_is_kept_for(all, chosen, i);
    }
    assert forall|k: int| 0 <= k < kept.len()
        implies is_first_of_its_moment(all, #[trigger] kept[k]) by {
        lemma_is_first_of_its_moment(all, chosen, k);
    }
    assert forall|k: int, l: int| 0 <= k < l < kept.len() implies comes_before(
        #[trigger] kept[k],
        #[trigger] kept[l],
    ) by {
        assert(!same_moment(all[chosen[k] as int], all[chosen[l] as int]));
    }
}

/// Of several observations of one moment one is kept, of the source that comes first, and nothing
/// is kept that was not observed.
pub proof fn law_one_observation_is_kept_of_each_moment(
    all: Vec<ObservationRecord>,
    kept: Vec<ObservationRecord>,
)
    requires
        call_ensures(dedupe_observations, (all,), kept),
    ensures
        keeps_each_moment_once(all@, kept@),
{
    let chosen = choose|chosen: Seq<usize>| #[trigger]
        is_dedupe(all@, chosen) && kept@ == picked(all@, chosen);
    lemma_keeps_each_moment_once(all@, chosen);
}

/// Merged observations are those of both lists, each moment once, those that were there before
/// those that are new of the same source; the number that is told is by how many the data set grew.
pub proof fn law_merged_observations_are_those_of_both(
    existing: Vec<ObservationRecord>,
    more: Vec<ObservationRecord>,
    merged: (Vec<ObservationRecord>, usize),
)
    requires
        call_ensures(merge_observations, (existing, more), merged),
    ensures
        keeps_each_moment_once(existing@ + more@, merged.0@),
        merged.0@.len() >= existing@.len() ==> merged.1 == merged.0@.len() - existing@.len(),
        merged.0@.len() < existing@.len() ==> merged.1 == 0,
{
    let all = existing@ + more@;
    let chosen = choose|chosen: Seq<usize>| #[trigger]
        is_dedupe(existing@ + more@, chosen) && merged.0@ == picked(existing@ + more@, chosen);
    lemma_keeps_each_moment_once(existing@ + more@, chosen);
}

/// The observations of a date are those with that local date, in their order.
pub proof fn law_observations_of_a_date_have_that_date(
    observations: Vec<ObservationRecord>,
    date: Date,
    out: Vec<ObservationRecord>,
)
    requires
        call_ensures(observations_for_date, (observations, date), out),
    ensures
        out@ == observations@.filter(|o: ObservationRecord| o.local_date == date),
{
    lemma_on_date(observations@, date);
}

proof fn lemma_on_date(observations: Seq<ObservationRecord>, date: Date)
    ensures
        on_date(observations, date) == observations.filter(
            |o: ObservationRecord| o.local_date == date,
        ),
{
    lemma_kept_filter(
        observations,
        Seq::new(
            observations.len(),
            |i: int|
                if observations[i].local_date == date {
                    Some(observations[i])
                } else {
                    None
                },
        ),
        |o: ObservationRecord| o.local_date == date,
    );
}

/// The latest observation of the day is told to be stale exactly where it is more than ninety whole
/// minutes old.
pub proof fn law_observations_are_stale_after_ninety_minutes(
    latest: Option<UtcTime>,
    now: UtcTime,
    note: String,
)
    requires
        call_ensures(describe_age, (latest, now), note),
        latest is Some ==> latest->0.n() < 1_000_000_000,
        now.n() < 1_000_000_000,
    ensures
        latest is None ==> note@ == "no same-day NWS observation has been normalized yet"@,
        latest is Some ==> {
            let age = (now.s() - latest->0.s()) * 1_000_000_000 + now.n() - latest->0.n();
            let shown = crate::calendar::instant_text(latest->0.s(), latest->0.n());
            &&& age >= 91 * 60_000_000_000 ==> note@
                == "stale current-day data: latest NWS observation is "@ + crate::numeral::int_text(
                age / 60_000_000_000,
            ) + " minutes old ("@ + shown + ")"@
            &&& 0 <= age < 91 * 60_000_000_000 ==> note@ == "latest NWS observation age: "@
                + crate::numeral::int_text(age / 60_000_000_000) + " minutes ("@ + shown + ")"@
            &&& age < 0 ==> starts_with(note@, "latest NWS observation age: "@)
        },
{
    if let Some(time) = latest {
        let b = "latest NWS observation age: "@;
        let age = (now.s() - time.s()) * 1_000_000_000 + now.n() - time.n();
        assert(age < 91 * 60_000_000_000
            ==> crate::calendar::toward_zero(age, 60_000_000_000) <= 90);
        assert(age >= 91 * 60_000_000_000
            ==> crate::calendar::toward_zero(age, 60_000_000_000) > 90);
        if age < 91 * 60_000_000_000 {
            assert(note@.take(b.len() as int) =~= b);
        }
    }
}

/// Something is said of the age of the observations exactly where today is asked for, and it is
/// said of the latest observation of today.
pub proof fn law_freshness_is_told_of_today(
    date: Date,
    today: Date,
    observations: Vec<ObservationRecord>,
    now: UtcTime,
    note: Option<String>,
)
    requires
        call_ensures(current_day_freshness_note, (date, today, observations, now), note),
    ensures
        note is Some <==> date == today,
        note is Some ==> exists|latest: Option<UtcTime>|
            {
                &&& note->0@ == #[trigger] age_note(latest, now)
                &&& latest is None ==> forall|i: int|
                    0 <= i < observations@.len()
                        ==> (#[trigger] observations@[i]).local_date != date
                &&& latest is Some ==> exists|i: int|
                    0 <= i < observations@.len() && (#[trigger] observations@[i]).local_date == date
                        && observations@[i].observed_at_utc == latest->0
                &&& latest is Some ==> forall|i: int|
                    0 <= i < observations@.len() && (#[trigger] observations@[i]).local_date == date
                        ==> observations@[i].observed_at_utc.not_after(latest->0)
            },
{
    if let Some(text) = note {
        let all = observations@;
        let p = |o: ObservationRecord| o.local_date == date;
        let chosen = on_date(all, date);
        lemma_on_date(all, date);
        lemma_filter_holds(all, p);
        let latest = choose|latest: Option<UtcTime>| #[trigger]
            is_latest(on_date(all, date), latest) && text@ == age_note(latest, now) && (
            latest matches Some(time) ==> counts_whole_minutes(time, now));
        assert(note->0@ == age_note(latest, now));
        match latest {
            None => {
                assert forall|i: int| 0 <= i < all.len()
                    implies (#[trigger] all[i]).local_date != date by {
                    if p(all[i]) {
                        let k = choose|k: int| 0 <= k < chosen.len() && chosen[k] == all[i];
                    }
                }
            },
            Some(time) => {
                let k = choose|k: int|
                    0 <= k < chosen.len() && (#[trigger] chosen[k]).observed_at_utc == time;
                assert(all.contains(chosen[k]) && p(chosen[k]));
                let i = choose|i: int| 0 <= i < all.len() && all[i] == chosen[k];
                assert(all[i].local_date == date);
                assert forall|i: int|
                    0 <= i < all.len() && (#[trigger] all[i]).local_date == date
                        implies all[i].observed_at_utc.not_after(
                    time,
                ) by {
                    assert(p(all[i]));
                    let k = choose|k: int| 0 <= k < chosen.len() && chosen[k] == all[i];
                    assert(chosen[k].observed_at_utc.not_after(time));
                }
            },
        }
    }
}

/// A day with under six observed hours is sparse. Of the others those that name the hourly source
/// are mixed, and the rest normal.
pub proof fn law_day_states_are_told_apart(hours: usize, slugs: &Vec<String>, state: String)
    requires
        call_ensures(quality_state_for_day, (hours, slugs), state),
    ensures
        hours < 6 ==> state@ == "sparse-current-day"@,
        hours >= 6 && (exists|i: int| 0 <= i < slugs@.len() && (#[trigger] slugs@[i])@ == "ghcnh"@)
            ==> state@ == "mixed-cadence"@,
        hours >= 6 && (forall|i: int| 0 <= i < slugs@.len() ==> (#[trigger] slugs@[i])@ != "ghcnh"@)
            ==> state@ == "normal"@,
{
    let all = texts(slugs@);
    assert forall|i: int| 0 <= i < slugs@.len() implies #[trigger] all[i] == slugs@[i]@ by {}
    if exists|i: int| 0 <= i < slugs@.len() && (#[trigger] slugs@[i])@ == "ghcnh"@ {
        let i = choose|i: int| 0 <= i < slugs@.len() && (#[trigger] slugs@[i])@ == "ghcnh"@;
        assert(all[i] == "ghcnh"@);
    }
    if forall|i: int| 0 <= i < slugs@.len() ==> (#[trigger] slugs@[i])@ != "ghcnh"@ {
        assert(!all.contains("ghcnh"@)) by {
            if all.contains("ghcnh"@) {
                let i = choose|i: int| 0 <= i < all.len() && all[i] == "ghcnh"@;
                assert(slugs@[i]@ != "ghcnh"@);
            }
        }
    }
}

/// A note is made of a day of which the service alone tells, or that has under six observed hours,
/// and of no other.
pub proof fn law_days_with_little_data_have_a_note(hours: usize, slugs: &Vec<String>,
    note: Option<String>)
    requires
        call_ensures(quality_note_for_day, (hours, slugs), note),
    ensures
        note is Some <==> hours < 6 || slugs@.len() == 1 && slugs@[0]@ == "nws-api"@,
        slugs@.len() == 1 && slugs@[0]@ == "nws-api"@ ==> note->0@
            == "low-history / partial-day target currently relies only on NWS API observations"@,
        note is Some && !(slugs@.len() == 1 && slugs@[0]@ == "nws-api"@) ==> note->0@
            == "partial-day target has only "@ + crate::numeral::digits(hours as nat)
            + " observed hours"@,
{
    let all = texts(slugs@);
    assert(all.len() == slugs@.len());
    if slugs@.len() == 1 {
        assert(all[0] == slugs@[0]@);
    }
}

/// The profile of a date that is found is the first of that date, and one is found where there is
/// one.
pub proof fn law_the_first_profile_of_a_date_is_found(
    profiles: &Vec<DayProfile>,
    date: Date,
    found: Option<usize>,
)
    requires
        call_ensures(profile_on, (profiles, date), found),
    ensures
        found is Some <==> exists|i: int|
            0 <= i < profiles@.len() && (#[trigger] profiles@[i]).local_date == date,
        found is Some
            ==> found->0 < profiles@.len() && profiles@[found->0 as int].local_date == date,
        found is Some ==> forall|i: int|
            0 <= i < found->0 ==> (#[trigger] profiles@[i]).local_date != date,
{
}

/// The summary of a date that is found is the first of that date, and one is found where there is
/// one.
pub proof fn law_the_first_summary_of_a_date_is_found(
    daily: &Vec<DailySummary>,
    date: Date,
    found: Option<usize>,
)
    requires
        call_ensures(summary_on, (daily, date), found),
    ensures
        found is Some <==> exists|i: int|
            0 <= i < daily@.len() && (#[trigger] daily@[i]).local_date == date,
        found is Some ==> found->0 < daily@.len() && daily@[found->0 as int].local_date == date,
        found is Some ==> forall|i: int|
            0 <= i < found->0 ==> (#[trigger] daily@[i]).local_date != date,
{
}

/// The profile of the target day is a stored one of that date where there is one. Otherwise it is
/// built only for today and only where there are current observations, and then it is of
/// observations of that date.
pub proof fn law_stored_profiles_come_before_built_ones<A: Arithmetic>(
    a: &A,
    date: Date,
    today: Date,
    profiles: &Vec<DayProfile>,
    current: Option<Vec<ObservationRecord>>,
    found: TargetProfile,
)
    requires
        call_ensures(resolve_target_profile::<A>, (a, date, today, profiles, current), found),
    ensures
        found is Stored <==> exists|i: int|
            0 <= i < profiles@.len() && (#[trigger] profiles@[i]).local_date == date,
        found is Stored ==> found->Stored_0 < profiles@.len()
            && profiles@[found->Stored_0 as int].local_date == date,
        found is Built ==> found->Built_0.local_date == date,
        found is Built ==> date == today && current is Some && exists|i: int|
            0 <= i < current->0@.len() && (#[trigger] current->0@[i]).local_date == date,
        found is Missing && date == today && current is Some ==> forall|i: int|
            0 <= i < current->0@.len() ==> (#[trigger] current->0@[i]).local_date != date,
{
    if let TargetProfile::Stored(i) = found {
        assert(profiles@[i as int].local_date == date);
    }
    if current is Some {
        let all = current->0@;
        let p = |o: ObservationRecord| o.local_date == date;
        let chosen = on_date(all, date);
        lemma_on_date(all, date);
        lemma_filter_holds(all, p);
        if let TargetProfile::Built(profile) = found {
            let built = choose|built: Seq<DayProfile>| #[trigger]
                crate::engine::profiles_are(a, chosen, built)
                    && Some(profile) == (if built.len() == 0 {
                    None
                } else {
                    Some(built.last())
                });
            lemma_no_profiles_of_nothing(a, chosen, built);
            lemma_profiles_of_one_date(a, chosen, built, date);
            assert(all.contains(chosen[0]) && p(chosen[0]));
            let i = choose|i: int| 0 <= i < all.len() && all[i] == chosen[0];
            assert(all[i].local_date == date);
        }
        if found is Missing && date == today {
            let built = choose|built: Seq<DayProfile>| #[trigger]
                crate::engine::profiles_are(a, chosen, built)
                    && None::<DayProfile> == (if built.len()
                    == 0 {
                    None
                } else {
                    Some(built.last())
                });
            lemma_no_profiles_of_nothing(a, chosen, built);
            assert forall|i: int| 0 <= i < all.len()
                implies (#[trigger] all[i]).local_date != date by {
                if p(all[i]) {
                    let k = choose|k: int| 0 <= k < chosen.len() && chosen[k] == all[i];
                }
            }
        }
    }
}

proof fn lemma_profiles_of_one_date<A: Arithmetic>(
    a: &A,
    observations: Seq<ObservationRecord>,
    profiles: Seq<DayProfile>,
    date: Date,
)
    requires
        crate::engine::profiles_are(a, observations, profiles),
        forall|i: int| 0 <= i < observations.len()
            ==> (#[trigger] observations[i]).local_date == date,
    ensures
        forall|g: int| 0 <= g < profiles.len() ==> (#[trigger] profiles[g]).local_date == date,
{
    let groups = choose|groups: Seq<Vec<usize>>| #[trigger]
        crate::engine::groups_days(groups, observations) && profiles.len() == groups.len()
            && forall|g: int|
            0 <= g < groups.len() ==> crate::engine::profiles_day(
                a,
                observations,
                (#[trigger] groups[g])@,
                profiles[g]@,
            );
    let keys = choose|keys: Seq<(Vec<char>, Date)>| #[trigger]
        crate::engine::day_keys(keys, observations) && is_grouping(keys, groups);
    assert forall|g: int| 0 <= g < profiles.len()
        implies (#[trigger] profiles[g]).local_date == date by {
        assert(groups[g]@.len() > 0);
        assert(0 <= groups[g]@[0] < keys.len());
        assert(crate::engine::profiles_day(a, observations, groups[g]@, profiles[g]@));
        assert(observations[groups[g]@[0] as int].local_date == date);
        assert(profiles[g]@.date == profiles[g].local_date);
    }
}

proof fn lemma_no_profiles_of_nothing<A: Arithmetic>(
    a: &A,
    observations: Seq<ObservationRecord>,
    profiles: Seq<DayProfile>,
)
    requires
        crate::engine::profiles_are(a, observations, profiles),
    ensures
        profiles.len() == 0 <==> observations.len() == 0,
{
    let groups = choose|groups: Seq<Vec<usize>>| #[trigger]
        crate::engine::groups_days(groups, observations) && profiles.len() == groups.len()
            && forall|g: int|
            0 <= g < groups.len() ==> crate::engine::profiles_day(
                a,
                observations,
                (#[trigger] groups[g])@,
                profiles[g]@,
            );
    let keys = choose|keys: Seq<(Vec<char>, Date)>| #[trigger]
        crate::engine::day_keys(keys, observations) && is_grouping(keys, groups);
    if observations.len() > 0 {
        assert(in_some_group(groups, 0));
        let g = choose|g: int| #[trigger] in_group(groups, g, 0);
        assert(in_group(groups, g, 0));
    }
    if groups.len() > 0 {
        assert(groups[0]@.len() > 0);
        assert(0 <= groups[0]@[0] < keys.len());
    }
}

/// Sorted summaries are the same summaries, each as often, from the first date to the last.
pub proof fn law_sorted_summaries_rise(items: Vec<DailySummary>, out: Vec<DailySummary>)
    requires
        call_ensures(sort_daily, (items,), out),
    ensures
        out@.len() == items@.len(),
        forall|i: int| 0 <= i < items@.len() ==> out@.contains(#[trigger] items@[i]),
        forall|k: int| 0 <= k < out@.len() ==> items@.contains(#[trigger] out@[k]),
        forall|k: int, l: int|
            0 <= k < l < out@.len() ==> (#[trigger] out@[k]).local_date.not_after(
                (#[trigger] out@[l]).local_date,
            ),
{
    let dates = summary_dates(items@);
    let order = choose|order: Seq<usize>| #[trigger]
        is_stable_order(summary_dates(items@), order) && out@ == picked(items@, order);
    assert(is_stable_order(dates, order));
    assert(items.len() == items@.len());
    assert forall|i: int| 0 <= i < items@.len() implies out@.contains(#[trigger] items@[i]) by {
        assert(order.contains(i as usize));
        let k = choose|k: int| 0 <= k < order.len() && order[k] == i as usize;
        assert(out@[k] == items@[i]);
    }
    assert forall|k: int| 0 <= k < out@.len() implies items@.contains(#[trigger] out@[k]) by {
        assert(order[k] < dates.len());
        assert(items@[order[k] as int] == out@[k]);
    }
    assert forall|k: int, l: int| 0 <= k < l < out@.len() implies (
    #[trigger] out@[k]).local_date.not_after((#[trigger] out@[l]).local_date) by {
        assert(crate::order::precedes(dates, order[k] as int, order[l] as int));
        assert(dates[order[k] as int] == out@[k].local_date);
        assert(dates[order[l] as int] == out@[l].local_date);
    }
}

/// Sorted profiles are the same profiles, each as often, from the first date to the last.
pub proof fn law_sorted_profiles_rise(items: Vec<DayProfile>, out: Vec<DayProfile>)
    requires
        call_ensures(sort_profiles, (items,), out),
    ensures
        out@.len() == items@.len(),
        forall|i: int| 0 <= i < items@.len() ==> out@.contains(#[trigger] items@[i]),
        forall|k: int| 0 <= k < out@.len() ==> items@.contains(#[trigger] out@[k]),
        forall|k: int, l: int|
            0 <= k < l < out@.len() ==> (#[trigger] out@[k]).local_date.not_after(
                (#[trigger] out@[l]).local_date,
            ),
{
    let dates = profile_dates(items@);
    let order = choose|order: Seq<usize>| #[trigger]
        is_stable_order(profile_dates(items@), order) && out@ == picked(items@, order);
    assert(is_stable_order(dates, order));
    assert(items.len() == items@.len());
    assert forall|i: int| 0 <= i < items@.len() implies out@.contains(#[trigger] items@[i]) by {
        assert(order.contains(i as usize));
        let k = choose|k: int| 0 <= k < order.len() && order[k] == i as usize;
        assert(out@[k] == items@[i]);
    }
    assert forall|k: int| 0 <= k < out@.len() implies items@.contains(#[trigger] out@[k]) by {
        assert(order[k] < dates.len());
        assert(items@[order[k] as int] == out@[k]);
    }
    assert forall|k: int, l: int| 0 <= k < l < out@.len() implies (
    #[trigger] out@[k]).local_date.not_after((#[trigger] out@[l]).local_date) by {
        assert(crate::order::precedes(dates, order[k] as int, order[l] as int));
        assert(dates[order[k] as int] == out@[k].local_date);
        assert(dates[order[l] as int] == out@[l].local_date);
    }
}

/// The observations of a year are those with a date in that year, in their order; the years rise,
/// and each that occurs is there.
pub proof fn law_observations_are_parted_by_year(
    items: Vec<ObservationRecord>,
    grouped: Vec<(i32, Vec<ObservationRecord>)>,
    g: int,
)
    requires
        call_ensures(group_observations_by_year, (items,), grouped),
        0 <= g < grouped@.len(),
        forall|i: int|
            0 <= i < items@.len() ==> i32::MIN <= (#[trigger] items@[i]).local_date.y() <= i32::MAX,
    ensures
        grouped@[g].1@ == items@.filter(|o: ObservationRecord| o.local_date.y() == grouped@[g].0),
        grouped@[g].1@.len() > 0,
        g + 1 < grouped@.len() ==> grouped@[g].0 < grouped@[g + 1].0,
        forall|i: int|
            0 <= i < items@.len() ==> exists|h: int|
                0 <= h < grouped@.len() && (#[trigger] grouped@[h]).0
                    == (#[trigger] items@[i]).local_date.y(),
{
    let years = observation_years(items@);
    assert(items.len() == items@.len());
    lemma_year_group(items@, years, grouped@, g, |o: ObservationRecord| o.local_date.y()
        == grouped@[g].0);
    if g + 1 < grouped@.len() {
        law_years_rise(items@, years, grouped@, g, g + 1);
    }
    assert forall|i: int| 0 <= i < items@.len() implies exists|h: int|
        0 <= h < grouped@.len() && (#[trigger] grouped@[h]).0 == (
        #[trigger] items@[i]).local_date.y() by {
        law_items_are_all_grouped(items@, years, grouped@, i);
        let h = choose|h: int|
            0 <= h < grouped@.len() && (#[trigger] grouped@[h]).0 == years[i]
                && grouped@[h].1@.contains(items@[i]);
        assert(grouped@[h].0 == items@[i].local_date.y());
    }
}

/// The summaries of a year are those with a date in that year, in their order; the years rise, and
/// each that occurs is there.
pub proof fn law_summaries_are_parted_by_year(
    items: Vec<DailySummary>,
    grouped: Vec<(i32, Vec<DailySummary>)>,
    g: int,
)
    requires
        call_ensures(group_daily_by_year, (items,), grouped),
        0 <= g < grouped@.len(),
        forall|i: int|
            0 <= i < items@.len() ==> i32::MIN <= (#[trigger] items@[i]).local_date.y() <= i32::MAX,
    ensures
        grouped@[g].1@ == items@.filter(|o: DailySummary| o.local_date.y() == grouped@[g].0),
        grouped@[g].1@.len() > 0,
        g + 1 < grouped@.len() ==> grouped@[g].0 < grouped@[g + 1].0,
        forall|i: int|
            0 <= i < items@.len() ==> exists|h: int|
                0 <= h < grouped@.len() && (#[trigger] grouped@[h]).0
                    == (#[trigger] items@[i]).local_date.y(),
{
    let years = summary_years(items@);
    assert(items.len() == items@.len());
    lemma_year_group(items@, years, grouped@, g, |o: DailySummary| o.local_date.y()
        == grouped@[g].0);
    if g + 1 < grouped@.len() {
        law_years_rise(items@, years, grouped@, g, g + 1);
    }
    assert forall|i: int| 0 <= i < items@.len() implies exists|h: int|
        0 <= h < grouped@.len() && (#[trigger] grouped@[h]).0 == (
        #[trigger] items@[i]).local_date.y() by {
        law_items_are_all_grouped(items@, years, grouped@, i);
        let h = choose|h: int|
            0 <= h < grouped@.len() && (#[trigger] grouped@[h]).0 == years[i]
                && grouped@[h].1@.contains(items@[i]);
        assert(grouped@[h].0 == items@[i].local_date.y());
    }
}

/// The profiles of a year are those with a date in that year, in their order; the years rise, and
/// each that occurs is there.
pub proof fn law_profiles_are_parted_by_year(
    items: Vec<DayProfile>,
    grouped: Vec<(i32, Vec<DayProfile>)>,
    g: int,
)
    requires
        call_ensures(group_profiles_by_year, (items,), grouped),
        0 <= g < grouped@.len(),
        forall|i: int|
            0 <= i < items@.len() ==> i32::MIN <= (#[trigger] items@[i]).local_date.y() <= i32::MAX,
    ensures
        grouped@[g].1@ == items@.filter(|o: DayProfile| o.local_date.y() == grouped@[g].0),
        grouped@[g].1@.len() > 0,
        g + 1 < grouped@.len() ==> grouped@[g].0 < grouped@[g + 1].0,
        forall|i: int|
            0 <= i < items@.len() ==> exists|h: int|
                0 <= h < grouped@.len() && (#[trigger] grouped@[h]).0
                    == (#[trigger] items@[i]).local_date.y(),
{
    let years = profile_years(items@);
    assert(items.len() == items@.len());
    lemma_year_group(items@, years, grouped@, g, |o: DayProfile| o.local_date.y() == grouped@[g].0);
    if g + 1 < grouped@.len() {
        law_years_rise(items@, years, grouped@, g, g + 1);
    }
    assert forall|i: int| 0 <= i < items@.len() implies exists|h: int|
        0 <= h < grouped@.len() && (#[trigger] grouped@[h]).0 == (
        #[trigger] items@[i]).local_date.y() by {
        law_items_are_all_grouped(items@, years, grouped@, i);
        let h = choose|h: int|
            0 <= h < grouped@.len() && (#[trigger] grouped@[h]).0 == years[i]
                && grouped@[h].1@.contains(items@[i]);
        assert(grouped@[h].0 == items@[i].local_date.y());
    }
}

proof fn lemma_year_group<T>(
    items: Seq<T>,
    years: Seq<i64>,
    grouped: Seq<(i32, Vec<T>)>,
    g: int,
    p: spec_fn(T) -> bool,
)
    requires
        years.len() == items.len() <= usize::MAX,
        grouped_by_year(items, years, grouped),
        0 <= g < grouped.len(),
        forall|i: int|
            0 <= i < items.len() ==> (p(#[trigger] items[i]) <==> years[i] == grouped[g].0),
    ensures
        grouped[g].1@ == items.filter(p),
        grouped[g].1@.len() > 0,
{
    let groups = choose|groups: Seq<Vec<usize>>|
        {
            &&& #[trigger] is_grouping(years, groups)
            &&& grouped.len() == groups.len()
            &&& forall|g: int|
                0 <= g < groups.len() ==> {
                    &&& (#[trigger] grouped[g]).0 == years[groups[g]@[0] as int]
                    &&& grouped[g].1@ == picked(items, groups[g]@)
                }
        };
    let members = groups[g]@;
    assert(grouped[g].0 == years[members[0] as int]);
    assert(members.len() > 0);
    assert forall|k: int| 0 <= k < members.len() implies #[trigger] members[k] < items.len() by {
        assert(0 <= groups[g]@[k] < years.len());
    }
    assert forall|i: int| 0 <= i < items.len()
        implies (p(#[trigger] items[i]) <==> members.contains(
        i as usize,
    )) by {
        if members.contains(i as usize) {
            let k = choose|k: int| 0 <= k < members.len() && members[k] == i as usize;
            assert(ties(years[groups[g]@[k] as int], years[groups[g]@[0] as int]));
        }
        if p(items[i]) {
            assert(ties(years[i], years[members[0] as int]));
            lemma_group_holds_ties(years, groups, g, i);
        }
    }
    lemma_picked_filter(items, members, p);
}

/// The year that is asked for is written with its items, and with none where there are none; where
/// none is asked for all years are written, and it fails where there are none.
pub proof fn law_the_year_asked_for_is_written<T>(
    grouped: Vec<(i32, Vec<T>)>,
    year: Option<i32>,
    out: Result<Vec<(i32, Vec<T>)>, Failure>,
)
    requires
        call_ensures(collect_years::<T>, (grouped, year), out),
        forall|g: int, h: int|
            0 <= g < h < grouped@.len() ==> (#[trigger] grouped@[g]).0 < (#[trigger] grouped@[h]).0,
    ensures
        out is Err <==> year is None && grouped@.len() == 0,
        year is None && out is Ok ==> out->Ok_0@ == grouped@,
        year is Some ==> out->Ok_0@.len() == 1 && out->Ok_0@[0].0 == year->0,
        year is Some ==> forall|g: int|
            0 <= g < grouped@.len() && (#[trigger] grouped@[g]).0 == year->0 ==> out->Ok_0@[0].1@
                == grouped@[g].1@,
        year is Some && (forall|g: int|
            0 <= g < grouped@.len() ==> (#[trigger] grouped@[g]).0 != year->0)
            ==> out->Ok_0@[0].1@.len() == 0,
{
    if let Some(wanted) = year {
        lemma_items_of(grouped@, wanted);
    }
}

proof fn lemma_items_of<T>(grouped: Seq<(i32, Vec<T>)>, year: i32)
    requires
        forall|g: int, h: int|
            0 <= g < h < grouped.len() ==> (#[trigger] grouped[g]).0 < (#[trigger] grouped[h]).0,
    ensures
        forall|g: int|
            0 <= g < grouped.len() && (#[trigger] grouped[g]).0 == year ==> items_of(grouped, year)
                == grouped[g].1@,
        (forall|g: int| 0 <= g < grouped.len() ==> (#[trigger] grouped[g]).0 != year) ==> items_of(
            grouped,
            year,
        ).len() == 0,
    decreases grouped.len(),
{
    if grouped.len() > 0 {
        let front = grouped.drop_last();
        let n = grouped.len() - 1;
        assert forall|g: int, h: int| 0 <= g < h < front.len() implies (#[trigger] front[g]).0 < (
        #[trigger] front[h]).0 by {
            assert(grouped[g].0 < grouped[h].0);
        }
        lemma_items_of(front, year);
        assert(grouped[n] == grouped.last());
        assert forall|g: int| 0 <= g < grouped.len() && (#[trigger] grouped[g]).0 == year
            implies items_of(
            grouped,
            year,
        ) == grouped[g].1@ by {
            if g < n {
                assert(grouped[g].0 < grouped[n].0);
                assert(front[g] == grouped[g]);
            }
        }
        if forall|g: int| 0 <= g < grouped.len() ==> (#[trigger] grouped[g]).0 != year {
            assert(grouped[n].0 != year);
            assert forall|g: int| 0 <= g < front.len() implies (#[trigger] front[g]).0 != year by {
                assert(grouped[g].0 != year);
            }
        }
    }
}

} // verus!
