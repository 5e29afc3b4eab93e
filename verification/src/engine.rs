//! What is built from observations: one observation for each moment, daily summaries and hourly
//! profiles.
use vstd::prelude::*;
use crate::calendar::{Date, UtcTime};
use crate::domain::{
    kept, lemma_kept_push, DailySummary, DailySummaryModel, DayProfile, DayProfileModel, Failure,
    HourlyProfilePoint, ObservationRecord,
};
use crate::order::{
    group, in_group, in_some_group, is_grouping, lemma_dictionary_reflexive, lemma_dictionary_ties,
    lemma_groups_are_disjoint, pick, picked, ties, Key,
};
use crate::reading::{greatest, greatest_of, least, least_of, Arithmetic, Reading};
use crate::source::{slug_of, DataSource};
use crate::text::{texts, to_chars};

verus! {

/// Turns raw data into observations.
pub trait Normalizer {
    fn normalize(&self) -> Result<Vec<ObservationRecord>, Failure>;
}

/// Builds a data set from observations.
pub trait DerivedDatasetBuilder<T> {
    fn build<A: Arithmetic>(&self, a: &A, observations: &Vec<ObservationRecord>) -> Result<
        Vec<T>,
        Failure,
    >;
}

/// The rank of a source where several observed the same moment; the lowest is preferred.
pub open spec fn priority_of(source: DataSource) -> int {
    match source {
        DataSource::NceiAsosFiveMinute => 0,
        DataSource::IemAsosOneMinute => 1,
        DataSource::NwsApi => 2,
        DataSource::Ghcnh => 3,
    }
}

/// The rank of a source where several observed the same moment; the lowest is preferred.
pub fn source_priority(source: DataSource) -> (r: u8)
    ensures
        r == priority_of(source),
{
    match source {
        DataSource::NceiAsosFiveMinute => 0,
        DataSource::IemAsosOneMinute => 1,
        DataSource::NwsApi => 2,
        DataSource::Ghcnh => 3,
    }
}

/// The two observations are of the same station and instant.
pub open spec fn same_moment(a: ObservationRecord, b: ObservationRecord) -> bool {
    a.station_id@ == b.station_id@ && a.observed_at_utc == b.observed_at_utc
}

/// The observation at `i` is preferred to the one at `j`: its source ranks lower, or the ranks are
/// equal and it does not come later.
pub open spec fn preferred(observations: Seq<ObservationRecord>, i: int, j: int) -> bool {
    let left = priority_of(observations[i].source);
    let right = priority_of(observations[j].source);
    left < right || left == right && i <= j
}

/// `chosen` lists, by instant, the preferred observation of each moment.
pub open spec fn is_dedupe(observations: Seq<ObservationRecord>, chosen: Seq<usize>) -> bool {
    &&& forall|k: int| 0 <= k < chosen.len() ==> #[trigger] chosen[k] < observations.len()
    &&& forall|k: int, l: int|
        0 <= k < l < chosen.len() ==> {
            &&& !same_moment(
                observations[#[trigger] chosen[k] as int],
                observations[#[trigger] chosen[l] as int],
            )
            &&& observations[chosen[k] as int].observed_at_utc.not_after(
                observations[chosen[l] as int].observed_at_utc,
            )
        }
    &&& forall|i: int| 0 <= i < observations.len() ==> #[trigger] is_represented(observations, chosen, i)
}

/// One of the chosen is of the moment of the observation at `i`, and preferred to it.
pub open spec fn is_represented(
    observations: Seq<ObservationRecord>,
    chosen: Seq<usize>,
    i: int,
) -> bool {
    exists|k: int|
        {
            &&& 0 <= k < chosen.len()
            &&& same_moment(observations[#[trigger] chosen[k] as int], observations[i])
            &&& preferred(observations, chosen[k] as int, i)
        }
}

/// Two of the kept observations are never of the same moment.
pub proof fn law_moments_are_kept_once(
    observations: Seq<ObservationRecord>,
    chosen: Seq<usize>,
    k: int,
    l: int,
)
    requires
        is_dedupe(observations, chosen),
        0 <= k < picked(observations, chosen).len(),
        0 <= l < picked(observations, chosen).len(),
        same_moment(picked(observations, chosen)[k], picked(observations, chosen)[l]),
    ensures
        k == l,
{
    if k < l {
        assert(!same_moment(observations[chosen[k] as int], observations[chosen[l] as int]));
    } else if l < k {
        assert(!same_moment(observations[chosen[l] as int], observations[chosen[k] as int]));
    }
}

/// The kept observation of a moment is from the preferred source: no observation of the moment is
/// from a source that ranks before, and none from the same source comes earlier.
pub proof fn law_preferred_source_is_kept(
    observations: Seq<ObservationRecord>,
    chosen: Seq<usize>,
    k: int,
    i: int,
)
    requires
        is_dedupe(observations, chosen),
        0 <= k < chosen.len(),
        0 <= i < observations.len(),
        same_moment(observations[chosen[k] as int], observations[i]),
    ensures
        preferred(observations, chosen[k] as int, i),
{
    assert(is_represented(observations, chosen, i));
    let l = choose|l: int|
        {
            &&& 0 <= l < chosen.len()
            &&& same_moment(observations[#[trigger] chosen[l] as int], observations[i])
            &&& preferred(observations, chosen[l] as int, i)
        };
    law_moments_are_kept_once(observations, chosen, k, l);
}

/// Where no two observations are of the same moment, all of them are kept: keeping one of each
/// moment a second time loses nothing.
pub proof fn law_distinct_moments_are_all_kept(
    observations: Seq<ObservationRecord>,
    chosen: Seq<usize>,
    i: int,
)
    requires
        is_dedupe(observations, chosen),
        forall|k: int, l: int|
            0 <= k < l < observations.len() ==> !same_moment(
                #[trigger] observations[k],
                #[trigger] observations[l],
            ),
        0 <= i < observations.len(),
    ensures
        chosen.contains(i as usize),
{
    assert(is_represented(observations, chosen, i));
    let k = choose|k: int|
        {
            &&& 0 <= k < chosen.len()
            &&& same_moment(observations[#[trigger] chosen[k] as int], observations[i])
            &&& preferred(observations, chosen[k] as int, i)
        };
    let j = chosen[k] as int;
    if j < i {
        assert(!same_moment(observations[j], observations[i]));
    } else if i < j {
        assert(!same_moment(observations[i], observations[j]));
    }
}

/// The observations are all of one station.
pub open spec fn of_one_station(observations: Seq<ObservationRecord>) -> bool {
    forall|i: int, j: int|
        0 <= i < observations.len() && 0 <= j < observations.len() ==> (
        #[trigger] observations[i]).station_id@ == (#[trigger] observations[j]).station_id@
}

/// Each observation is of a later instant than the one before.
pub open spec fn rises(observations: Seq<ObservationRecord>) -> bool {
    forall|k: int, l: int|
        0 <= k < l < observations.len() ==> !(#[trigger] observations[l]).observed_at_utc.not_after(
            (#[trigger] observations[k]).observed_at_utc,
        )
}

/// The kept observations of one station rise in time.
pub proof fn law_kept_observations_rise(observations: Seq<ObservationRecord>, chosen: Seq<usize>)
    requires
        is_dedupe(observations, chosen),
        of_one_station(observations),
    ensures
        rises(picked(observations, chosen)),
{
    let kept = picked(observations, chosen);
    assert forall|k: int, l: int| 0 <= k < l < kept.len() implies !(
    #[trigger] kept[l]).observed_at_utc.not_after((#[trigger] kept[k]).observed_at_utc) by {
        let left = observations[chosen[k] as int];
        let right = observations[chosen[l] as int];
        assert(!same_moment(left, right));
        if right.observed_at_utc.not_after(left.observed_at_utc) {
            crate::calendar::lemma_same_instant(left.observed_at_utc, right.observed_at_utc);
        }
    }
}

/// Keeping one observation of each moment a second time gives the same list, for one station.
pub proof fn law_keeping_again_changes_nothing(
    observations: Seq<ObservationRecord>,
    chosen: Seq<usize>,
    again: Seq<usize>,
)
    requires
        observations.len() <= usize::MAX,
        is_dedupe(observations, chosen),
        of_one_station(observations),
        is_dedupe(picked(observations, chosen), again),
    ensures
        picked(picked(observations, chosen), again) == picked(observations, chosen),
{
    let first = picked(observations, chosen);
    let second = picked(first, again);
    law_kept_observations_rise(observations, chosen);
    assert forall|i: int, j: int| 0 <= i < first.len() && 0 <= j < first.len() implies (
    #[trigger] first[i]).station_id@ == (#[trigger] first[j]).station_id@ by {
        assert(observations[chosen[i] as int].station_id@
            == observations[chosen[j] as int].station_id@);
    }
    law_kept_observations_rise(first, again);
    assert forall|x: ObservationRecord| first.contains(x) implies second.contains(x) by {
        let i = choose|i: int| 0 <= i < first.len() && first[i] == x;
        assert(is_represented(first, again, i));
        let k = choose|k: int|
            {
                &&& 0 <= k < again.len()
                &&& same_moment(first[#[trigger] again[k] as int], first[i])
                &&& preferred(first, again[k] as int, i)
            };
        law_moments_are_kept_once(observations, chosen, again[k] as int, i);
        assert(second[k] == x);
    }
    assert forall|x: ObservationRecord| second.contains(x) implies first.contains(x) by {
        let k = choose|k: int| 0 <= k < second.len() && second[k] == x;
        assert(first[again[k] as int] == x);
    }
    lemma_rising_lists_agree(first, second);
}

/// Two lists that rise and hold the same observations are equal.
pub proof fn lemma_rising_lists_agree(left: Seq<ObservationRecord>, right: Seq<ObservationRecord>)
    requires
        rises(left),
        rises(right),
        forall|x: ObservationRecord| left.contains(x) ==> right.contains(x),
        forall|x: ObservationRecord| right.contains(x) ==> left.contains(x),
    ensures
        left == right,
    decreases left.len(),
{
    if left.len() == 0 {
        if right.len() > 0 {
            assert(right.contains(right[0]));
        }
        assert(left =~= right);
    } else {
        assert(left.contains(left.last()));
        assert(right.len() > 0);
        assert(right.contains(right.last()));
        let a = choose|a: int| 0 <= a < right.len() && right[a] == left.last();
        let b = choose|b: int| 0 <= b < left.len() && left[b] == right.last();
        if a < right.len() - 1 {
            assert(!right[right.len() - 1].observed_at_utc.not_after(right[a].observed_at_utc));
            if b < left.len() - 1 {
                assert(!left[left.len() - 1].observed_at_utc.not_after(left[b].observed_at_utc));
            }
            assert(false);
        }
        let fore = left.drop_last();
        let back = right.drop_last();
        assert forall|k: int, l: int| 0 <= k < l < fore.len() implies !(
        #[trigger] fore[l]).observed_at_utc.not_after((#[trigger] fore[k]).observed_at_utc) by {
            assert(fore[k] == left[k] && fore[l] == left[l]);
        }
        assert forall|k: int, l: int| 0 <= k < l < back.len() implies !(
        #[trigger] back[l]).observed_at_utc.not_after((#[trigger] back[k]).observed_at_utc) by {
            assert(back[k] == right[k] && back[l] == right[l]);
        }
        assert forall|x: ObservationRecord| fore.contains(x) implies back.contains(x) by {
            let i = choose|i: int| 0 <= i < fore.len() && fore[i] == x;
            assert(left[i] == x);
            assert(left.contains(x));
            let j = choose|j: int| 0 <= j < right.len() && right[j] == x;
            assert(!left[left.len() - 1].observed_at_utc.not_after(left[i].observed_at_utc));
            assert(j < right.len() - 1);
            assert(back[j] == x);
        }
        assert forall|x: ObservationRecord| back.contains(x) implies fore.contains(x) by {
            let i = choose|i: int| 0 <= i < back.len() && back[i] == x;
            assert(right[i] == x);
            assert(right.contains(x));
            let j = choose|j: int| 0 <= j < left.len() && left[j] == x;
            assert(!right[right.len() - 1].observed_at_utc.not_after(right[i].observed_at_utc));
            assert(j < left.len() - 1);
            assert(fore[j] == x);
        }
        lemma_rising_lists_agree(fore, back);
        assert(left =~= fore.push(left.last()));
        assert(right =~= back.push(right.last()));
    }
}

/// What is kept of one list is kept of another with the same observations.
proof fn lemma_kept_of_both(
    one: Seq<ObservationRecord>,
    chosen: Seq<usize>,
    other: Seq<ObservationRecord>,
    others: Seq<usize>,
    x: ObservationRecord,
)
    requires
        one.to_multiset() == other.to_multiset(),
        is_dedupe(one, chosen),
        is_dedupe(other, others),
        are_told_apart(one),
        picked(one, chosen).contains(x),
    ensures
        picked(other, others).contains(x),
{
    broadcast use vstd::seq_lib::group_to_multiset_ensures;

    let k = choose|k: int| 0 <= k < picked(one, chosen).len() && picked(one, chosen)[k] == x;
    assert(one[chosen[k] as int] == x);
    assert(one.contains(x));
    assert(one.to_multiset().count(x) > 0);
    assert(other.contains(x));
    let i = choose|i: int| 0 <= i < other.len() && other[i] == x;
    assert(is_represented(other, others, i));
    let l = choose|l: int|
        {
            &&& 0 <= l < others.len()
            &&& same_moment(other[#[trigger] others[l] as int], other[i])
            &&& preferred(other, others[l] as int, i)
        };
    let y = other[others[l] as int];
    assert(other.contains(y));
    assert(other.to_multiset().count(y) > 0);
    assert(one.contains(y));
    let j = choose|j: int| 0 <= j < one.len() && one[j] == y;
    law_preferred_source_is_kept(one, chosen, k, j);
    assert(y.source == x.source);
    let c = chosen[k] as int;
    if c < j {
        assert(!same_moment(one[c], one[j]));
    } else if j < c {
        assert(!same_moment(one[j], one[c]));
    }
    assert(picked(other, others)[l] == x);
}

/// No two observations of one source are of the same moment.
pub open spec fn are_told_apart(observations: Seq<ObservationRecord>) -> bool {
    forall|i: int, j: int|
        0 <= i < j < observations.len() && observations[i].source == observations[j].source
            ==> !same_moment(#[trigger] observations[i], #[trigger] observations[j])
}

/// Where no two observations of one source are of the same moment, it does not matter in which
/// order they come: for one station the same list is kept.
pub proof fn law_order_of_observations_does_not_matter(
    one: Seq<ObservationRecord>,
    chosen: Seq<usize>,
    other: Seq<ObservationRecord>,
    others: Seq<usize>,
)
    requires
        one.to_multiset() == other.to_multiset(),
        of_one_station(one),
        are_told_apart(one),
        is_dedupe(one, chosen),
        is_dedupe(other, others),
    ensures
        picked(one, chosen) == picked(other, others),
{
    assert forall|i: int, j: int| 0 <= i < other.len() && 0 <= j < other.len() implies (
    #[trigger] other[i]).station_id@ == (#[trigger] other[j]).station_id@ by {
        lemma_shared_member(one, other, i);
        lemma_shared_member(one, other, j);
        let a = choose|a: int| 0 <= a < one.len() && one[a] == other[i];
        let b = choose|b: int| 0 <= b < one.len() && one[b] == other[j];
        assert(one[a].station_id@ == one[b].station_id@);
    }
    assert(are_told_apart(other)) by {
        lemma_told_apart_in_any_order(one, other);
    }
    law_kept_observations_rise(one, chosen);
    law_kept_observations_rise(other, others);
    assert forall|x: ObservationRecord| picked(one, chosen).contains(x) implies picked(
        other,
        others,
    ).contains(x) by {
        lemma_kept_of_both(one, chosen, other, others, x);
    }
    assert forall|x: ObservationRecord| picked(other, others).contains(x) implies picked(
        one,
        chosen,
    ).contains(x) by {
        lemma_kept_of_both(other, others, one, chosen, x);
    }
    lemma_rising_lists_agree(picked(one, chosen), picked(other, others));
}

/// An observation of a list is in every list with the same observations.
proof fn lemma_shared_member(one: Seq<ObservationRecord>, other: Seq<ObservationRecord>, i: int)
    requires
        one.to_multiset() == other.to_multiset(),
        0 <= i < other.len(),
    ensures
        one.contains(other[i]),
{
    broadcast use vstd::seq_lib::group_to_multiset_ensures;

    assert(other.contains(other[i]));
    assert(other.to_multiset().count(other[i]) > 0);
}

proof fn lemma_told_apart_in_any_order(one: Seq<ObservationRecord>, other: Seq<ObservationRecord>)
    requires
        one.to_multiset() == other.to_multiset(),
        are_told_apart(one),
    ensures
        are_told_apart(other),
{
    assert forall|i: int, j: int|
        0 <= i < j < other.len() && other[i].source == other[j].source implies !same_moment(
        #[trigger] other[i],
        #[trigger] other[j],
    ) by {
        if same_moment(other[i], other[j]) {
            lemma_shared_member(one, other, i);
            lemma_shared_member(one, other, j);
            let a = choose|a: int| 0 <= a < one.len() && one[a] == other[i];
            let b = choose|b: int| 0 <= b < one.len() && one[b] == other[j];
            if a < b {
                assert(!same_moment(one[a], one[b]));
            } else if b < a {
                assert(!same_moment(one[b], one[a]));
            }
            lemma_once_in_both(one, other, i, j);
        }
    }
}

/// Where no two observations of one list are the same, none of another order of them are.
proof fn lemma_once_in_both(
    one: Seq<ObservationRecord>,
    other: Seq<ObservationRecord>,
    i: int,
    j: int,
)
    requires
        one.to_multiset() == other.to_multiset(),
        are_told_apart(one),
        0 <= i < j < other.len(),
    ensures
        other[i] != other[j],
{
    assert(one.no_duplicates()) by {
        assert forall|a: int, b: int|
            0 <= a < one.len() && 0 <= b < one.len() && a != b implies one[a] != one[b] by {
            if a < b && one[a] == one[b] {
                assert(!same_moment(one[a], one[b]));
            } else if b < a && one[a] == one[b] {
                assert(!same_moment(one[b], one[a]));
            }
        }
    }
    one.lemma_multiset_has_no_duplicates();
    other.lemma_multiset_has_no_duplicates_conv();
}

/// The keys are the instants and stations of the observations.
spec fn moment_keys(keys: Seq<(UtcTime, Vec<char>)>, observations: Seq<ObservationRecord>) -> bool {
    keys.len() == observations.len() && forall|i: int|
        0 <= i < observations.len() ==> (#[trigger] keys[i]).0 == observations[i].observed_at_utc
            && keys[i].1@ == observations[i].station_id@
}

proof fn lemma_moment_ties(
    keys: Seq<(UtcTime, Vec<char>)>,
    observations: Seq<ObservationRecord>,
    i: int,
    j: int,
)
    requires
        moment_keys(keys, observations),
        0 <= i < keys.len(),
        0 <= j < keys.len(),
    ensures
        ties(keys[i], keys[j]) <==> same_moment(observations[i], observations[j]),
{
    if ties(keys[i], keys[j]) {
        lemma_dictionary_ties(keys[i].1@, keys[j].1@);
        crate::calendar::lemma_same_instant(keys[i].0, keys[j].0);
    }
    if same_moment(observations[i], observations[j]) {
        lemma_dictionary_reflexive(keys[i].1@);
    }
}

/// The preferred observation of a group.
fn best_of(observations: &Vec<ObservationRecord>, members: &Vec<usize>) -> (r: usize)
    requires
        members@.len() > 0,
        forall|a: int| 0 <= a < members@.len() ==> #[trigger] members@[a] < observations@.len(),
        forall|a: int, b: int|
            0 <= a < b < members@.len() ==> #[trigger] members@[a] < #[trigger] members@[b],
    ensures
        members@.contains(r),
        r < observations@.len(),
        forall|a: int|
            0 <= a < members@.len() ==> preferred(
                observations@,
                r as int,
                #[trigger] members@[a] as int,
            ),
{
    assert(members@[0] < observations@.len());
    let mut best: usize = members[0];
    let mut i: usize = 1;
    while i < members.len()
        invariant
            1 <= i <= members@.len(),
            forall|a: int| 0 <= a < members@.len() ==> #[trigger] members@[a] < observations@.len(),
            forall|a: int, b: int|
                0 <= a < b < members@.len() ==> #[trigger] members@[a] < #[trigger] members@[b],
            best < observations@.len(),
            exists|a: int| 0 <= a < i && #[trigger] members@[a] == best,
            forall|a: int|
                0 <= a < i ==> preferred(observations@, best as int, #[trigger] members@[a] as int),
        decreases members@.len() - i,
    {
        assert(members@[i as int] < observations@.len());
        let next: usize = members[i];
        let ghost before = best;
        if source_priority(observations[next].source) < source_priority(observations[best].source) {
            best = next;
            assert(members@[i as int] == best);
        }
        proof {
            let a = choose|a: int| 0 <= a < i && #[trigger] members@[a] == before;
            assert(members@[a] < members@[i as int]);
        }
        i += 1;
    }
    best
}

/// One observation for each station and instant, by instant: the one of the source with the lowest
/// rank, the first of these where there are several.
pub fn dedupe_observations(observations: Vec<ObservationRecord>) -> (r: Vec<ObservationRecord>)
    ensures
        exists|chosen: Seq<usize>| #[trigger]
            is_dedupe(observations@, chosen) && r@ == picked(observations@, chosen),
{
    let mut keys: Vec<(UtcTime, Vec<char>)> = Vec::new();
    let mut i: usize = 0;
    while i < observations.len()
        invariant
            i <= observations@.len(),
            keys@.len() == i,
            forall|k: int|
                0 <= k < i ==> (#[trigger] keys@[k]).0 == observations@[k].observed_at_utc
                    && keys@[k].1@ == observations@[k].station_id@,
        decreases observations@.len() - i,
    {
        let key = (observations[i].observed_at_utc, to_chars(observations[i].station_id.as_str()));
        keys.push(key);
        i += 1;
    }
    let groups = group(&keys);
    assert(moment_keys(keys@, observations@));
    let mut chosen: Vec<usize> = Vec::new();
    let mut g: usize = 0;
    while g < groups.len()
        invariant
            g <= groups@.len(),
            moment_keys(keys@, observations@),
            is_grouping(keys@, groups@),
            chosen@.len() == g,
            forall|k: int|
                0 <= k < g ==> {
                    &&& groups@[k]@.contains(#[trigger] chosen@[k])
                    &&& forall|a: int|
                        0 <= a < groups@[k]@.len() ==> preferred(
                            observations@,
                            chosen@[k] as int,
                            #[trigger] groups@[k]@[a] as int,
                        )
                },
        decreases groups@.len() - g,
    {
        assert(groups@[g as int]@.len() > 0);
        assert forall|a: int| 0 <= a < groups@[g as int]@.len() implies #[trigger] groups@[g as int]@[a]
            < observations@.len() by {}
        assert forall|a: int, b: int|
            0 <= a < b < groups@[g as int]@.len() implies #[trigger] groups@[g as int]@[a]
            < #[trigger] groups@[g as int]@[b] by {}
        let best = best_of(&observations, &groups[g]);
        chosen.push(best);
        g += 1;
    }
    proof {
        lemma_chosen_dedupe(keys@, observations@, groups@, chosen@);
    }
    pick(observations, &chosen)
}

proof fn lemma_chosen_dedupe(
    keys: Seq<(UtcTime, Vec<char>)>,
    observations: Seq<ObservationRecord>,
    groups: Seq<Vec<usize>>,
    chosen: Seq<usize>,
)
    requires
        moment_keys(keys, observations),
        observations.len() <= usize::MAX,
        is_grouping(keys, groups),
        chosen.len() == groups.len(),
        forall|k: int|
            0 <= k < groups.len() ==> {
                &&& groups[k]@.contains(#[trigger] chosen[k])
                &&& forall|a: int|
                    0 <= a < groups[k]@.len() ==> preferred(
                        observations,
                        chosen[k] as int,
                        #[trigger] groups[k]@[a] as int,
                    )
            },
    ensures
        is_dedupe(observations, chosen),
        forall|k: int, l: int|
            0 <= k < l < chosen.len() ==> #[trigger] chosen[k] != #[trigger] chosen[l],
{
    assert forall|k: int| 0 <= k < chosen.len() implies #[trigger] chosen[k] < observations.len()
        && ties(keys[chosen[k] as int], keys[groups[k]@[0] as int]) by {
        assert(groups[k]@.contains(chosen[k]));
        let a = choose|a: int| 0 <= a < groups[k]@.len() && groups[k]@[a] == chosen[k];
        assert(0 <= groups[k]@[a] < keys.len());
    }
    assert forall|k: int, l: int| 0 <= k < l < chosen.len() implies {
        &&& !same_moment(
            observations[#[trigger] chosen[k] as int],
            observations[#[trigger] chosen[l] as int],
        )
        &&& observations[chosen[k] as int].observed_at_utc.not_after(
            observations[chosen[l] as int].observed_at_utc,
        )
    } by {
        let first = keys[groups[k]@[0] as int];
        let second = keys[groups[l]@[0] as int];
        let left = keys[chosen[k] as int];
        let right = keys[chosen[l] as int];
        assert(!second.at_most(&first));
        lemma_moment_ties(keys, observations, chosen[k] as int, chosen[l] as int);
        <(UtcTime, Vec<char>)>::total(&first, &second);
        <(UtcTime, Vec<char>)>::transitive(&left, &first, &second);
        <(UtcTime, Vec<char>)>::transitive(&left, &second, &right);
        if ties(left, right) {
            <(UtcTime, Vec<char>)>::transitive(&second, &right, &left);
            <(UtcTime, Vec<char>)>::transitive(&second, &left, &first);
        }
    }
    assert forall|i: int| 0 <= i < observations.len() implies #[trigger] is_represented(
        observations,
        chosen,
        i,
    ) by {
        assert(in_some_group(groups, i));
        let g = choose|g: int| #[trigger] in_group(groups, g, i);
        let a = choose|a: int| 0 <= a < groups[g]@.len() && groups[g]@[a] == i as usize;
        assert(0 <= groups[g]@[a] < keys.len());
        assert(ties(keys[groups[g]@[a] as int], keys[groups[g]@[0] as int]));
        let left = keys[chosen[g] as int];
        let head = keys[groups[g]@[0] as int];
        let right = keys[i];
        assert(ties(left, head));
        <(UtcTime, Vec<char>)>::transitive(&left, &head, &right);
        <(UtcTime, Vec<char>)>::transitive(&right, &head, &left);
        lemma_moment_ties(keys, observations, chosen[g] as int, i);
        assert(preferred(observations, chosen[g] as int, groups[g]@[a] as int));
        assert(same_moment(observations[chosen[g] as int], observations[i]));
    }
    assert forall|k: int, l: int| 0 <= k < l < chosen.len() implies #[trigger] chosen[k]
        != #[trigger] chosen[l] by {
        assert(!same_moment(observations[chosen[k] as int], observations[chosen[l] as int]));
    }
}

/// A value of an observation.
#[derive(Debug, Clone, Copy, PartialEq, Eq, Structural)]
pub enum Quantity {
    Temperature,
    Dewpoint,
    RelativeHumidity,
    WindSpeed,
    WindU,
    WindV,
    Precipitation,
    CloudCover,
}

pub open spec fn quantity_of(observation: ObservationRecord, quantity: Quantity) -> Option<Reading> {
    match quantity {
        Quantity::Temperature => observation.temperature_c,
        Quantity::Dewpoint => observation.dewpoint_c,
        Quantity::RelativeHumidity => observation.relative_humidity_pct,
        Quantity::WindSpeed => observation.wind_speed_kt,
        Quantity::WindU => observation.wind_u_kt,
        Quantity::WindV => observation.wind_v_kt,
        Quantity::Precipitation => observation.precipitation_mm,
        Quantity::CloudCover => observation.cloud_cover_fraction,
    }
}

fn quantity_in(observation: &ObservationRecord, quantity: Quantity) -> (r: Option<Reading>)
    ensures
        r == quantity_of(*observation, quantity),
{
    match quantity {
        Quantity::Temperature => observation.temperature_c,
        Quantity::Dewpoint => observation.dewpoint_c,
        Quantity::RelativeHumidity => observation.relative_humidity_pct,
        Quantity::WindSpeed => observation.wind_speed_kt,
        Quantity::WindU => observation.wind_u_kt,
        Quantity::WindV => observation.wind_v_kt,
        Quantity::Precipitation => observation.precipitation_mm,
        Quantity::CloudCover => observation.cloud_cover_fraction,
    }
}

/// The values of a quantity that the observations `members` have, in their order.
pub open spec fn values_of(
    observations: Seq<ObservationRecord>,
    members: Seq<usize>,
    quantity: Quantity,
) -> Seq<Reading> {
    kept(
        Seq::new(members.len(), |k: int| quantity_of(observations[members[k] as int], quantity)),
    )
}

/// The values of a quantity that the observations `members` have.
pub fn collect_values(
    observations: &Vec<ObservationRecord>,
    members: &Vec<usize>,
    quantity: Quantity,
) -> (r: Vec<Reading>)
    requires
        forall|a: int| 0 <= a < members@.len() ==> #[trigger] members@[a] < observations@.len(),
    ensures
        r@ == values_of(observations@, members@, quantity),
{
    let ghost all = Seq::new(
        members@.len(),
        |k: int| quantity_of(observations@[members@[k] as int], quantity),
    );
    let mut values: Vec<Reading> = Vec::new();
    let mut i: usize = 0;
    assert(all.take(0) =~= seq![]);
    while i < members.len()
        invariant
            i <= members@.len(),
            forall|a: int| 0 <= a < members@.len() ==> #[trigger] members@[a] < observations@.len(),
            all == Seq::new(
                members@.len(),
                |k: int| quantity_of(observations@[members@[k] as int], quantity),
            ),
            values@ == kept(all.take(i as int)),
        decreases members@.len() - i,
    {
        assert(members@[i as int] < observations@.len());
        let value = quantity_in(&observations[members[i]], quantity);
        proof {
            lemma_kept_push(all.take(i as int), value);
            assert(all.take(i as int).push(value) =~= all.take(i + 1));
        }
        if let Some(reading) = value {
            values.push(reading);
        }
        i += 1;
    }
    assert(all.take(i as int) =~= all);
    values
}

/// The arithmetic makes this the mean of the values.
pub open spec fn mean_is<A: Arithmetic>(a: &A, values: Seq<Reading>, mean: Reading) -> bool {
    exists|list: &Vec<Reading>| list@ == values && #[trigger] call_ensures(A::mean, (a, list), mean)
}

/// The arithmetic makes this the sum of the values.
pub open spec fn total_is<A: Arithmetic>(a: &A, values: Seq<Reading>, total: Reading) -> bool {
    exists|list: &Vec<Reading>| list@ == values && #[trigger] call_ensures(A::total, (a, list), total)
}

/// The mean of the values; none where there are none.
pub open spec fn averages<A: Arithmetic>(a: &A, values: Seq<Reading>, out: Option<Reading>) -> bool {
    match out {
        Some(mean) => values.len() > 0 && mean_is(a, values, mean),
        None => values.len() == 0,
    }
}

/// The sum of the values; none where there are none.
pub open spec fn totals<A: Arithmetic>(a: &A, values: Seq<Reading>, out: Option<Reading>) -> bool {
    match out {
        Some(total) => values.len() > 0 && total_is(a, values, total),
        None => values.len() == 0,
    }
}

/// The mean of the values; none where there are none.
pub fn mean<A: Arithmetic>(a: &A, values: &Vec<Reading>) -> (r: Option<Reading>)
    ensures
        averages(a, values@, r),
{
    if values.len() == 0 {
        None
    } else {
        let m = a.mean(values);
        assert(mean_is(a, values@, m));
        Some(m)
    }
}

/// The sum of the values; none where there are none.
pub fn sum<A: Arithmetic>(a: &A, values: &Vec<Reading>) -> (r: Option<Reading>)
    ensures
        totals(a, values@, r),
{
    if values.len() == 0 {
        None
    } else {
        let t = a.total(values);
        assert(total_is(a, values@, t));
        Some(t)
    }
}

/// One of the observations `members` came from the source.
pub open spec fn comes_from(
    observations: Seq<ObservationRecord>,
    members: Seq<usize>,
    source: DataSource,
) -> bool {
    exists|k: int|
        0 <= k < members.len() && observations[#[trigger] members[k] as int].source == source
}

/// The short name of a source, where the observations `members` came from it.
pub open spec fn slug_if(
    observations: Seq<ObservationRecord>,
    members: Seq<usize>,
    source: DataSource,
) -> Seq<Seq<char>> {
    if comes_from(observations, members, source) {
        seq![slug_of(source)]
    } else {
        seq![]
    }
}

/// The short names, in alphabetical order, of the sources that the observations `members` came
/// from.
pub open spec fn slugs_of(observations: Seq<ObservationRecord>, members: Seq<usize>) -> Seq<
    Seq<char>,
> {
    slug_if(observations, members, DataSource::Ghcnh) + slug_if(
        observations,
        members,
        DataSource::IemAsosOneMinute,
    ) + slug_if(observations, members, DataSource::NceiAsosFiveMinute) + slug_if(
        observations,
        members,
        DataSource::NwsApi,
    )
}

fn any_from(observations: &Vec<ObservationRecord>, members: &Vec<usize>, source: DataSource) -> (r:
    bool)
    requires
        forall|a: int| 0 <= a < members@.len() ==> #[trigger] members@[a] < observations@.len(),
    ensures
        r == comes_from(observations@, members@, source),
{
    let mut i: usize = 0;
    while i < members.len()
        invariant
            i <= members@.len(),
            forall|a: int| 0 <= a < members@.len() ==> #[trigger] members@[a] < observations@.len(),
            forall|k: int|
                0 <= k < i ==> observations@[#[trigger] members@[k] as int].source != source,
        decreases members@.len() - i,
    {
        assert(members@[i as int] < observations@.len());
        if observations[members[i]].source == source {
            return true;
        }
        i += 1;
    }
    false
}

fn push_slug_if(
    slugs: &mut Vec<String>,
    observations: &Vec<ObservationRecord>,
    members: &Vec<usize>,
    source: DataSource,
)
    requires
        forall|a: int| 0 <= a < members@.len() ==> #[trigger] members@[a] < observations@.len(),
    ensures
        texts(final(slugs)@) == texts(old(slugs)@) + slug_if(observations@, members@, source),
{
    let ghost before = slugs@;
    if any_from(observations, members, source) {
        let slug: String = source.slug().to_string();
        slugs.push(slug);
        assert(texts(slugs@) =~= texts(before) + seq![slug@]);
    } else {
        assert(texts(slugs@) =~= texts(before) + slug_if(observations@, members@, source));
    }
}

/// The short names of the sources that the observations `members` came from.
pub fn collect_slugs(observations: &Vec<ObservationRecord>, members: &Vec<usize>) -> (r: Vec<String>)
    requires
        forall|a: int| 0 <= a < members@.len() ==> #[trigger] members@[a] < observations@.len(),
    ensures
        texts(r@) == slugs_of(observations@, members@),
{
    let mut slugs: Vec<String> = Vec::new();
    assert(texts(slugs@) =~= seq![]);
    push_slug_if(&mut slugs, observations, members, DataSource::Ghcnh);
    push_slug_if(&mut slugs, observations, members, DataSource::IemAsosOneMinute);
    push_slug_if(&mut slugs, observations, members, DataSource::NceiAsosFiveMinute);
    push_slug_if(&mut slugs, observations, members, DataSource::NwsApi);
    assert(texts(slugs@) =~= slugs_of(observations@, members@));
    slugs
}

/// The keys are the stations and local dates of the observations.
pub open spec fn day_keys(keys: Seq<(Vec<char>, Date)>, observations: Seq<ObservationRecord>) -> bool {
    keys.len() == observations.len() && forall|i: int|
        0 <= i < observations.len() ==> (#[trigger] keys[i]).0@ == observations[i].station_id@
            && keys[i].1 == observations[i].local_date
}

/// The observations grouped by station and local date, in the order of these.
pub open spec fn groups_days(groups: Seq<Vec<usize>>, observations: Seq<ObservationRecord>) -> bool {
    exists|keys: Seq<(Vec<char>, Date)>| #[trigger] day_keys(keys, observations) && is_grouping(
        keys,
        groups,
    )
}

/// Groups the observations by station and local date.
pub fn group_days(observations: &Vec<ObservationRecord>) -> (r: Vec<Vec<usize>>)
    ensures
        groups_days(r@, observations@),
        forall|g: int| 0 <= g < r@.len() ==> (#[trigger] r@[g])@.len() > 0,
        forall|g: int, k: int|
            0 <= g < r@.len() && 0 <= k < r@[g]@.len() ==> #[trigger] r@[g]@[k]
                < observations@.len(),
{
    let mut keys: Vec<(Vec<char>, Date)> = Vec::new();
    let mut i: usize = 0;
    while i < observations.len()
        invariant
            i <= observations@.len(),
            keys@.len() == i,
            forall|k: int|
                0 <= k < i ==> (#[trigger] keys@[k]).0@ == observations@[k].station_id@
                    && keys@[k].1 == observations@[k].local_date,
        decreases observations@.len() - i,
    {
        let key = (to_chars(observations[i].station_id.as_str()), observations[i].local_date);
        keys.push(key);
        i += 1;
    }
    let groups = group(&keys);
    assert(day_keys(keys@, observations@));
    groups
}

/// The members of a group of observations are all of one station and local date.
pub proof fn law_groups_are_of_one_day(
    groups: Seq<Vec<usize>>,
    observations: Seq<ObservationRecord>,
    g: int,
    k: int,
    l: int,
)
    requires
        groups_days(groups, observations),
        0 <= g < groups.len(),
        0 <= k < groups[g]@.len(),
        0 <= l < groups[g]@.len(),
    ensures
        observations[groups[g]@[k] as int].station_id@ == observations[groups[g]@[l] as int].station_id@,
        observations[groups[g]@[k] as int].local_date == observations[groups[g]@[l] as int].local_date,
{
    let keys = choose|keys: Seq<(Vec<char>, Date)>| #[trigger]
        day_keys(keys, observations) && is_grouping(keys, groups);
    let head = keys[groups[g]@[0] as int];
    let left = keys[groups[g]@[k] as int];
    let right = keys[groups[g]@[l] as int];
    assert(ties(left, head));
    assert(ties(right, head));
    lemma_dictionary_ties(left.0@, head.0@);
    lemma_dictionary_ties(right.0@, head.0@);
    crate::calendar::lemma_same_date(left.1, head.1);
    crate::calendar::lemma_same_date(right.1, head.1);
}

/// Every observation counts for one day, and for no other.
pub proof fn law_observations_count_for_one_day(
    groups: Seq<Vec<usize>>,
    observations: Seq<ObservationRecord>,
    i: int,
)
    requires
        groups_days(groups, observations),
        0 <= i < observations.len(),
    ensures
        in_some_group(groups, i),
        forall|g: int, h: int| #[trigger]
            in_group(groups, g, i) && #[trigger] in_group(groups, h, i) ==> g == h,
{
    let keys = choose|keys: Seq<(Vec<char>, Date)>| #[trigger]
        day_keys(keys, observations) && is_grouping(keys, groups);
    assert(in_some_group(groups, i));
    assert forall|g: int, h: int| #[trigger]
        in_group(groups, g, i) && #[trigger] in_group(groups, h, i) implies g == h by {
        let a = choose|a: int| 0 <= a < groups[g]@.len() && groups[g]@[a] == i as usize;
        let b = choose|b: int| 0 <= b < groups[h]@.len() && groups[h]@[b] == i as usize;
        lemma_groups_are_disjoint(keys, groups, g, a, h, b);
    }
}

/// What a day was like, by the observations `members`.
pub open spec fn summarizes<A: Arithmetic>(
    a: &A,
    observations: Seq<ObservationRecord>,
    members: Seq<usize>,
    summary: DailySummaryModel,
) -> bool {
    let first = observations[members[0] as int];
    let temperatures = values_of(observations, members, Quantity::Temperature);
    let values = summary.values;
    &&& summary.station == first.station_id@
    &&& summary.date == first.local_date
    &&& summary.observation_count == members.len()
    &&& summary.source_slugs == slugs_of(observations, members)
    &&& values.high_temp_c == greatest(temperatures)
    &&& values.low_temp_c == least(temperatures)
    &&& averages(a, temperatures, values.mean_temp_c)
    &&& averages(a, values_of(observations, members, Quantity::Dewpoint), values.mean_dewpoint_c)
    &&& averages(
        a,
        values_of(observations, members, Quantity::RelativeHumidity),
        values.mean_relative_humidity_pct,
    )
    &&& values.max_wind_speed_kt == greatest(values_of(observations, members, Quantity::WindSpeed))
    &&& averages(a, values_of(observations, members, Quantity::WindU), values.mean_wind_u_kt)
    &&& averages(a, values_of(observations, members, Quantity::WindV), values.mean_wind_v_kt)
    &&& totals(
        a,
        values_of(observations, members, Quantity::Precipitation),
        values.total_precipitation_mm,
    )
    &&& averages(
        a,
        values_of(observations, members, Quantity::CloudCover),
        values.mean_cloud_cover_fraction,
    )
}

/// The summaries of the days of the observations.
pub open spec fn summaries_are<A: Arithmetic>(
    a: &A,
    observations: Seq<ObservationRecord>,
    summaries: Seq<DailySummary>,
) -> bool {
    exists|groups: Seq<Vec<usize>>| #[trigger]
        groups_days(groups, observations) && summaries.len() == groups.len() && forall|g: int|
            0 <= g < groups.len() ==> summarizes(
                a,
                observations,
                (#[trigger] groups[g])@,
                summaries[g]@,
            )
}

fn summarize<A: Arithmetic>(a: &A, observations: &Vec<ObservationRecord>, members: &Vec<usize>) -> (r:
    DailySummary)
    requires
        members@.len() > 0,
        forall|k: int| 0 <= k < members@.len() ==> #[trigger] members@[k] < observations@.len(),
    ensures
        summarizes(a, observations@, members@, r@),
{
    assert(members@[0] < observations@.len());
    let first = &observations[members[0]];
    let temperatures = collect_values(observations, members, Quantity::Temperature);
    let dewpoints = collect_values(observations, members, Quantity::Dewpoint);
    let humidities = collect_values(observations, members, Quantity::RelativeHumidity);
    let winds = collect_values(observations, members, Quantity::WindSpeed);
    let wind_u = collect_values(observations, members, Quantity::WindU);
    let wind_v = collect_values(observations, members, Quantity::WindV);
    let precipitation = collect_values(observations, members, Quantity::Precipitation);
    let clouds = collect_values(observations, members, Quantity::CloudCover);
    DailySummary {
        station_id: first.station_id.clone(),
        local_date: first.local_date,
        observation_count: members.len(),
        source_slugs: collect_slugs(observations, members),
        high_temp_c: greatest_of(&temperatures),
        low_temp_c: least_of(&temperatures),
        mean_temp_c: mean(a, &temperatures),
        mean_dewpoint_c: mean(a, &dewpoints),
        mean_relative_humidity_pct: mean(a, &humidities),
        max_wind_speed_kt: greatest_of(&winds),
        mean_wind_u_kt: mean(a, &wind_u),
        mean_wind_v_kt: mean(a, &wind_v),
        total_precipitation_mm: sum(a, &precipitation),
        mean_cloud_cover_fraction: mean(a, &clouds),
    }
}

/// Builds daily summaries.
#[derive(Debug, Clone, Copy)]
pub struct DailySummaryBuilder;

impl DerivedDatasetBuilder<DailySummary> for DailySummaryBuilder {
    /// The summaries of the days of the observations, by station and date.
    fn build<A: Arithmetic>(&self, a: &A, observations: &Vec<ObservationRecord>) -> (r: Result<
        Vec<DailySummary>,
        Failure,
    >)
        ensures
            r matches Ok(summaries) && summaries_are(a, observations@, summaries@),
    {
        let groups = group_days(observations);
        let mut summaries: Vec<DailySummary> = Vec::new();
        let mut g: usize = 0;
        while g < groups.len()
            invariant
                g <= groups@.len(),
                forall|h: int| 0 <= h < groups@.len() ==> (#[trigger] groups@[h])@.len() > 0,
                forall|h: int, k: int|
                    0 <= h < groups@.len() && 0 <= k < groups@[h]@.len()
                        ==> #[trigger] groups@[h]@[k] < observations@.len(),
                summaries@.len() == g,
                forall|h: int|
                    0 <= h < g ==> summarizes(
                        a,
                        observations@,
                        groups@[h]@,
                        (#[trigger] summaries@[h])@,
                    ),
            decreases groups@.len() - g,
        {
            assert(groups@[g as int]@.len() > 0);
            let summary = summarize(a, observations, &groups[g]);
            summaries.push(summary);
            g += 1;
        }
        assert forall|h: int| 0 <= h < groups@.len() implies summarizes(
            a,
            observations@,
            (#[trigger] groups@[h])@,
            summaries@[h]@,
        ) by {
            assert(summarizes(a, observations@, groups@[h]@, summaries@[h]@));
        }
        assert(summaries_are(a, observations@, summaries@));
        Ok(summaries)
    }
}

/// The hour that the clock showed at an observation.
pub open spec fn hour_of(observation: ObservationRecord) -> int {
    observation.observed_at_local.clock() % 86400 / 3600
}

/// Those of the observations `members` that fall into an hour.
pub open spec fn in_hour(
    observations: Seq<ObservationRecord>,
    members: Seq<usize>,
    hour: int,
) -> Seq<usize> {
    kept(
        Seq::new(
            members.len(),
            |k: int|
                if hour_of(observations[members[k] as int]) == hour {
                    Some(members[k])
                } else {
                    None
                },
        ),
    )
}

fn members_in_hour(observations: &Vec<ObservationRecord>, members: &Vec<usize>, hour: u8) -> (r: Vec<
    usize,
>)
    requires
        forall|k: int| 0 <= k < members@.len() ==> #[trigger] members@[k] < observations@.len(),
    ensures
        r@ == in_hour(observations@, members@, hour as int),
        forall|k: int| 0 <= k < r@.len() ==> #[trigger] r@[k] < observations@.len(),
{
    let ghost all = Seq::new(
        members@.len(),
        |k: int|
            if hour_of(observations@[members@[k] as int]) == hour as int {
                Some(members@[k])
            } else {
                None
            },
    );
    let mut chosen: Vec<usize> = Vec::new();
    let mut i: usize = 0;
    assert(all.take(0) =~= seq![]);
    while i < members.len()
        invariant
            i <= members@.len(),
            forall|k: int| 0 <= k < members@.len() ==> #[trigger] members@[k] < observations@.len(),
            forall|k: int| 0 <= k < chosen@.len() ==> #[trigger] chosen@[k] < observations@.len(),
            all == Seq::new(
                members@.len(),
                |k: int|
                    if hour_of(observations@[members@[k] as int]) == hour as int {
                        Some(members@[k])
                    } else {
                        None
                    },
            ),
            chosen@ == kept(all.take(i as int)),
        decreases members@.len() - i,
    {
        assert(members@[i as int] < observations@.len());
        let at: u32 = observations[members[i]].observed_at_local.hour();
        proof {
            lemma_kept_push(all.take(i as int), all[i as int]);
            assert(all.take(i as int).push(all[i as int]) =~= all.take(i + 1));
        }
        if at == hour as u32 {
            chosen.push(members[i]);
        }
        i += 1;
    }
    assert(all.take(i as int) =~= all);
    chosen
}

/// What an hour was like, by the observations `members` that fall into it.
pub open spec fn profiles_hour<A: Arithmetic>(
    a: &A,
    observations: Seq<ObservationRecord>,
    members: Seq<usize>,
    hour: int,
    point: HourlyProfilePoint,
) -> bool {
    let chosen = in_hour(observations, members, hour);
    &&& point.hour == hour
    &&& point.sample_count == chosen.len()
    &&& averages(a, values_of(observations, chosen, Quantity::Temperature), point.temperature_c)
    &&& averages(a, values_of(observations, chosen, Quantity::Dewpoint), point.dewpoint_c)
    &&& averages(
        a,
        values_of(observations, chosen, Quantity::RelativeHumidity),
        point.relative_humidity_pct,
    )
    &&& averages(a, values_of(observations, chosen, Quantity::WindU), point.wind_u_kt)
    &&& averages(a, values_of(observations, chosen, Quantity::WindV), point.wind_v_kt)
    &&& averages(
        a,
        values_of(observations, chosen, Quantity::CloudCover),
        point.cloud_cover_fraction,
    )
    &&& totals(
        a,
        values_of(observations, chosen, Quantity::Precipitation),
        point.precipitation_mm,
    )
}

fn profile_hour<A: Arithmetic>(
    a: &A,
    observations: &Vec<ObservationRecord>,
    members: &Vec<usize>,
    hour: u8,
) -> (r: HourlyProfilePoint)
    requires
        forall|k: int| 0 <= k < members@.len() ==> #[trigger] members@[k] < observations@.len(),
    ensures
        profiles_hour(a, observations@, members@, hour as int, r),
{
    let chosen = members_in_hour(observations, members, hour);
    let temperatures = collect_values(observations, &chosen, Quantity::Temperature);
    let dewpoints = collect_values(observations, &chosen, Quantity::Dewpoint);
    let humidities = collect_values(observations, &chosen, Quantity::RelativeHumidity);
    let wind_u = collect_values(observations, &chosen, Quantity::WindU);
    let wind_v = collect_values(observations, &chosen, Quantity::WindV);
    let clouds = collect_values(observations, &chosen, Quantity::CloudCover);
    let precipitation = collect_values(observations, &chosen, Quantity::Precipitation);
    HourlyProfilePoint {
        hour,
        sample_count: chosen.len(),
        temperature_c: mean(a, &temperatures),
        dewpoint_c: mean(a, &dewpoints),
        relative_humidity_pct: mean(a, &humidities),
        wind_u_kt: mean(a, &wind_u),
        wind_v_kt: mean(a, &wind_v),
        cloud_cover_fraction: mean(a, &clouds),
        precipitation_mm: sum(a, &precipitation),
    }
}

/// The number of hours with observations.
pub open spec fn observed_hours(hours: Seq<HourlyProfilePoint>) -> nat
    decreases hours.len(),
{
    if hours.len() == 0 {
        0
    } else {
        observed_hours(hours.drop_last()) + (if hours.last().sample_count > 0 {
            1nat
        } else {
            0nat
        })
    }
}

/// The hours of a day, by the observations `members`.
pub open spec fn profiles_day<A: Arithmetic>(
    a: &A,
    observations: Seq<ObservationRecord>,
    members: Seq<usize>,
    profile: DayProfileModel,
) -> bool {
    let first = observations[members[0] as int];
    &&& profile.station == first.station_id@
    &&& profile.date == first.local_date
    &&& profile.observed_hour_count == observed_hours(profile.hours)
    &&& profile.source_slugs == slugs_of(observations, members)
    &&& profile.hours.len() == 24
    &&& forall|hour: int|
        0 <= hour < 24 ==> profiles_hour(
            a,
            observations,
            members,
            hour,
            #[trigger] profile.hours[hour],
        )
}

/// The profiles of the days of the observations.
pub open spec fn profiles_are<A: Arithmetic>(
    a: &A,
    observations: Seq<ObservationRecord>,
    profiles: Seq<DayProfile>,
) -> bool {
    exists|groups: Seq<Vec<usize>>| #[trigger]
        groups_days(groups, observations) && profiles.len() == groups.len() && forall|g: int|
            0 <= g < groups.len() ==> profiles_day(
                a,
                observations,
                (#[trigger] groups[g])@,
                profiles[g]@,
            )
}

fn profile_day<A: Arithmetic>(a: &A, observations: &Vec<ObservationRecord>, members: &Vec<usize>) -> (r:
    DayProfile)
    requires
        members@.len() > 0,
        forall|k: int| 0 <= k < members@.len() ==> #[trigger] members@[k] < observations@.len(),
    ensures
        profiles_day(a, observations@, members@, r@),
{
    assert(members@[0] < observations@.len());
    let first = &observations[members[0]];
    let mut hours: Vec<HourlyProfilePoint> = Vec::new();
    let mut observed: usize = 0;
    let mut hour: u8 = 0;
    while hour < 24
        invariant
            hour <= 24,
            forall|k: int| 0 <= k < members@.len() ==> #[trigger] members@[k] < observations@.len(),
            hours@.len() == hour,
            observed == observed_hours(hours@),
            observed <= hour,
            forall|h: int|
                0 <= h < hour ==> profiles_hour(
                    a,
                    observations@,
                    members@,
                    h,
                    #[trigger] hours@[h],
                ),
        decreases 24 - hour,
    {
        let point = profile_hour(a, observations, members, hour);
        let ghost before = hours@;
        hours.push(point);
        assert(hours@.drop_last() =~= before);
        if point.sample_count > 0 {
            observed += 1;
        }
        hour += 1;
    }
    DayProfile {
        station_id: first.station_id.clone(),
        local_date: first.local_date,
        observed_hour_count: observed,
        source_slugs: collect_slugs(observations, members),
        hours,
    }
}

/// Builds hourly profiles.
#[derive(Debug, Clone, Copy)]
pub struct DayProfileBuilder;

impl DerivedDatasetBuilder<DayProfile> for DayProfileBuilder {
    /// The profiles of the days of the observations, by station and date.
    fn build<A: Arithmetic>(&self, a: &A, observations: &Vec<ObservationRecord>) -> (r: Result<
        Vec<DayProfile>,
        Failure,
    >)
        ensures
            r matches Ok(profiles) && profiles_are(a, observations@, profiles@),
    {
        let groups = group_days(observations);
        let mut profiles: Vec<DayProfile> = Vec::new();
        let mut g: usize = 0;
        while g < groups.len()
            invariant
                g <= groups@.len(),
                forall|h: int| 0 <= h < groups@.len() ==> (#[trigger] groups@[h])@.len() > 0,
                forall|h: int, k: int|
                    0 <= h < groups@.len() && 0 <= k < groups@[h]@.len()
                        ==> #[trigger] groups@[h]@[k] < observations@.len(),
                profiles@.len() == g,
                forall|h: int|
                    0 <= h < g ==> profiles_day(
                        a,
                        observations@,
                        groups@[h]@,
                        (#[trigger] profiles@[h])@,
                    ),
            decreases groups@.len() - g,
        {
            assert(groups@[g as int]@.len() > 0);
            let profile = profile_day(a, observations, &groups[g]);
            profiles.push(profile);
            g += 1;
        }
        assert forall|h: int| 0 <= h < groups@.len() implies profiles_day(
            a,
            observations@,
            (#[trigger] groups@[h])@,
            profiles@[h]@,
        ) by {
            assert(profiles_day(a, observations@, groups@[h]@, profiles@[h]@));
        }
        assert(profiles_are(a, observations@, profiles@));
        Ok(profiles)
    }
}

} // verus!
