//! Rows of profiles read back as these profiles, whatever order the rows come in.
use vstd::prelude::*;
use crate::calendar::{law_date_texts_follow_the_calendar, lemma_same_date};
use crate::domain::{
    station_code, DayProfile, DayProfileModel, HourlyProfilePoint, ObservationRecord,
};
use crate::engine::{groups_days, profiles_are, profiles_day, profiles_hour};
use crate::order::{
    dictionary, in_group, in_some_group, is_grouping, is_stable_order, lemma_dictionary_reflexive,
    lemma_dictionary_ties, lemma_group_holds_ties, lemma_groups_are_disjoint,
    lemma_order_is_distinct, lemma_rising_and_full, precedes, ties, Key,
};
use crate::reading::Arithmetic;
use crate::rows::{
    are_rows_of_all, can_be_kept, groups_rows, hours_before, hours_in, keys_spell,
    law_built_profiles_can_be_kept, lemma_hours_before_rise, lemma_keys_tie,
    lemma_position_of_hour, profile_before, profile_in_order, profile_is_read, profile_models,
    profile_reads, profiles_fail, profiles_read, DayProfileRow, RowError,
};

verus! {

/// The row tells the hour `h` of the profile `p`.
pub open spec fn tells_hour(
    row: DayProfileRow,
    profiles: Seq<DayProfileModel>,
    p: int,
    h: int,
) -> bool {
    &&& 0 <= p < profiles.len()
    &&& 0 <= h < profiles[p].hours.len()
    &&& row.tells(profiles[p], profiles[p].hours[h])
}

pub open spec fn tells_some_hour(row: DayProfileRow, profiles: Seq<DayProfileModel>) -> bool {
    exists|p: int, h: int| #[trigger] tells_hour(row, profiles, p, h)
}

pub open spec fn is_told(
    rows: Seq<DayProfileRow>,
    profiles: Seq<DayProfileModel>,
    p: int,
    h: int,
) -> bool {
    exists|i: int| 0 <= i < rows.len() && tells_hour(#[trigger] rows[i], profiles, p, h)
}

/// The rows hold the hours of the profiles, each hour in one row, in any order.
pub open spec fn are_rows_in_any_order(
    rows: Seq<DayProfileRow>,
    profiles: Seq<DayProfileModel>,
) -> bool {
    &&& forall|i: int| 0 <= i < rows.len() ==> tells_some_hour(#[trigger] rows[i], profiles)
    &&& forall|p: int, h: int|
        0 <= p < profiles.len() && 0 <= h < profiles[p].hours.len() ==> #[trigger] is_told(
            rows,
            profiles,
            p,
            h,
        )
    &&& forall|i: int, j: int, p: int, h: int|
        #![trigger tells_hour(rows[i], profiles, p, h), tells_hour(rows[j], profiles, p, h)]
        0 <= i < rows.len() && 0 <= j < rows.len() && tells_hour(rows[i], profiles, p, h)
            && tells_hour(rows[j], profiles, p, h) ==> i == j
}

/// Each hour is later than the one before.
pub open spec fn hours_climb(hours: Seq<HourlyProfilePoint>) -> bool {
    forall|i: int, j: int|
        0 <= i < j < hours.len() ==> (#[trigger] hours[i]).hour < (#[trigger] hours[j]).hour
}

/// Profiles as they are kept, each with hours that climb.
pub open spec fn can_be_shuffled(profiles: Seq<DayProfileModel>) -> bool {
    can_be_kept(profiles) && forall|p: int|
        0 <= p < profiles.len() ==> hours_climb((#[trigger] profiles[p]).hours)
}

/// What a row tells is one hour of one profile only.
proof fn lemma_one_hour(
    row: DayProfileRow,
    profiles: Seq<DayProfileModel>,
    p: int,
    h: int,
    q: int,
    k: int,
)
    requires
        can_be_shuffled(profiles),
        tells_hour(row, profiles, p, h),
        tells_hour(row, profiles, q, k),
    ensures
        p == q,
        h == k,
{
    assert(profiles[p].station == profiles[q].station && profiles[p].date == profiles[q].date);
    if p < q {
        assert(profiles[p].station != profiles[q].station || profiles[p].date != profiles[q].date);
    } else if q < p {
        assert(profiles[q].station != profiles[p].station || profiles[q].date != profiles[p].date);
    }
    let hours = profiles[p].hours;
    assert(hours_climb(hours));
    if h < k {
        assert(hours[h].hour < hours[k].hour);
    } else if k < h {
        assert(hours[k].hour < hours[h].hour);
    }
}

/// The rows of profiles, in any order, hold their hours.
proof fn lemma_shuffled_rows(
    written: Seq<DayProfileRow>,
    rows: Seq<DayProfileRow>,
    profiles: Seq<DayProfileModel>,
)
    requires
        are_rows_of_all(written, profiles),
        can_be_shuffled(profiles),
        rows.to_multiset() == written.to_multiset(),
    ensures
        are_rows_in_any_order(rows, profiles),
        rows.len() == written.len(),
{
    let n = profiles.len() as int;
    vstd::seq_lib::to_multiset_len(rows);
    vstd::seq_lib::to_multiset_len(written);
    assert forall|x: DayProfileRow| rows.contains(x) <==> written.contains(x) by {
        vstd::seq_lib::to_multiset_contains(rows, x);
        vstd::seq_lib::to_multiset_contains(written, x);
    }
    assert(written.no_duplicates()) by {
        assert forall|a: int, b: int|
            0 <= a < written.len() && 0 <= b < written.len() && a != b implies written[a]
            != written[b] by {
            let (p, h) = lemma_position_of_hour(profiles, n, a);
            let (q, k) = lemma_position_of_hour(profiles, n, b);
            assert(written[hours_before(profiles, p) + h].tells(
                profiles[p],
                profiles[p].hours[h],
            ));
            assert(written[hours_before(profiles, q) + k].tells(
                profiles[q],
                profiles[q].hours[k],
            ));
            if written[a] == written[b] {
                lemma_one_hour(written[a], profiles, p, h, q, k);
            }
        }
    }
    written.lemma_multiset_has_no_duplicates();
    rows.lemma_multiset_has_no_duplicates_conv();
    assert forall|i: int| 0 <= i < rows.len() implies tells_some_hour(
        #[trigger] rows[i],
        profiles,
    ) by {
        assert(rows.contains(rows[i]));
        let a = choose|a: int| 0 <= a < written.len() && written[a] == rows[i];
        let (p, h) = lemma_position_of_hour(profiles, n, a);
        assert(written[hours_before(profiles, p) + h].tells(profiles[p], profiles[p].hours[h]));
        assert(tells_hour(rows[i], profiles, p, h));
    }
    assert forall|p: int, h: int|
        0 <= p < profiles.len() && 0 <= h < profiles[p].hours.len() implies #[trigger] is_told(
        rows,
        profiles,
        p,
        h,
    ) by {
        let a = hours_before(profiles, p) + h;
        lemma_hour_fits(profiles, p, h);
        assert(written[a].tells(profiles[p], profiles[p].hours[h]));
        assert(written.contains(written[a]));
        let i = choose|i: int| 0 <= i < rows.len() && rows[i] == written[a];
        assert(tells_hour(rows[i], profiles, p, h));
    }
    assert forall|i: int, j: int, p: int, h: int|
        #![trigger tells_hour(rows[i], profiles, p, h), tells_hour(rows[j], profiles, p, h)]
        0 <= i < rows.len() && 0 <= j < rows.len() && tells_hour(rows[i], profiles, p, h)
            && tells_hour(rows[j], profiles, p, h) implies i == j by {
        assert(rows.contains(rows[i]) && rows.contains(rows[j]));
        let a = choose|a: int| 0 <= a < written.len() && written[a] == rows[i];
        let b = choose|b: int| 0 <= b < written.len() && written[b] == rows[j];
        let (q, k) = lemma_position_of_hour(profiles, n, a);
        let (r, l) = lemma_position_of_hour(profiles, n, b);
        assert(written[hours_before(profiles, q) + k].tells(profiles[q], profiles[q].hours[k]));
        assert(written[hours_before(profiles, r) + l].tells(profiles[r], profiles[r].hours[l]));
        lemma_one_hour(rows[i], profiles, p, h, q, k);
        lemma_one_hour(rows[j], profiles, p, h, r, l);
    }
}

/// The place of an hour lies among the rows.
proof fn lemma_hour_fits(profiles: Seq<DayProfileModel>, p: int, h: int)
    requires
        0 <= p < profiles.len(),
        0 <= h < profiles[p].hours.len(),
    ensures
        0 <= hours_before(profiles, p) + h < hours_before(profiles, profiles.len() as int),
        profiles[p].hours.len() <= hours_before(profiles, profiles.len() as int),
{
    lemma_hours_before_rise(profiles, 0, p);
    lemma_hours_before_rise(profiles, p + 1, profiles.len() as int);
}

/// The hour of the profile `p` that a row tells.
spec fn told_hour(row: DayProfileRow, profiles: Seq<DayProfileModel>, p: int) -> int {
    choose|h: int| #[trigger] tells_hour(row, profiles, p, h)
}

/// The rows of a group are those of one profile.
proof fn lemma_group_is_of_one_profile(
    rows: Seq<DayProfileRow>,
    profiles: Seq<DayProfileModel>,
    keys: Seq<(Vec<char>, Vec<char>)>,
    groups: Seq<Vec<usize>>,
    g: int,
) -> (p: int)
    requires
        are_rows_in_any_order(rows, profiles),
        rows.len() <= usize::MAX,
        can_be_shuffled(profiles),
        keys_spell(keys, rows),
        is_grouping(keys, groups),
        0 <= g < groups.len(),
    ensures
        0 <= p < profiles.len(),
        forall|a: int|
            0 <= a < groups[g]@.len() ==> tells_hour(
                rows[#[trigger] groups[g]@[a] as int],
                profiles,
                p,
                told_hour(rows[groups[g]@[a] as int], profiles, p),
            ),
        forall|h: int|
            0 <= h < profiles[p].hours.len() ==> #[trigger] is_told_in(
                rows,
                groups[g]@,
                profiles,
                p,
                h,
            ),
{
    let members = groups[g]@;
    assert(members.len() > 0);
    let first = members[0] as int;
    assert(0 <= groups[g]@[0] < keys.len());
    assert(tells_some_hour(rows[first], profiles));
    let (p, at) = choose|p: int, h: int| #[trigger] tells_hour(rows[first], profiles, p, h);
    assert forall|a: int| 0 <= a < groups[g]@.len() implies tells_hour(
        rows[#[trigger] groups[g]@[a] as int],
        profiles,
        p,
        told_hour(rows[groups[g]@[a] as int], profiles, p),
    ) by {
        let i = members[a] as int;
        assert(0 <= groups[g]@[a] < keys.len());
        assert(ties(keys[i], keys[first]));
        lemma_keys_tie(keys, rows, i, first);
        assert(tells_some_hour(rows[i], profiles));
        let (q, h) = choose|q: int, h: int| #[trigger] tells_hour(rows[i], profiles, q, h);
        assert(profiles[q].station == profiles[p].station && profiles[q].date
            == profiles[p].date);
        if p < q {
            assert(profiles[p].station != profiles[q].station || profiles[p].date
                != profiles[q].date);
        } else if q < p {
            assert(profiles[q].station != profiles[p].station || profiles[q].date
                != profiles[p].date);
        }
        assert(tells_hour(rows[i], profiles, p, h));
    }
    assert forall|h: int| 0 <= h < profiles[p].hours.len() implies #[trigger] is_told_in(
        rows,
        groups[g]@,
        profiles,
        p,
        h,
    ) by {
        assert(is_told(rows, profiles, p, h));
        let i = choose|i: int| 0 <= i < rows.len() && tells_hour(#[trigger] rows[i], profiles, p, h);
        lemma_keys_tie(keys, rows, i, first);
        lemma_group_holds_ties(keys, groups, g, i);
        let a = choose|a: int| 0 <= a < members.len() && members[a] == i as usize;
        assert(tells_hour(rows[members[a] as int], profiles, p, h));
    }
    p
}

/// One of the rows `members` tells the hour.
spec fn is_told_in(
    rows: Seq<DayProfileRow>,
    members: Seq<usize>,
    profiles: Seq<DayProfileModel>,
    p: int,
    h: int,
) -> bool {
    exists|a: int|
        0 <= a < members.len() && tells_hour(rows[#[trigger] members[a] as int], profiles, p, h)
}

/// The rows of a group, from the first hour to the last, are the hours of its profile.
proof fn lemma_group_reads(
    rows: Seq<DayProfileRow>,
    profiles: Seq<DayProfileModel>,
    keys: Seq<(Vec<char>, Vec<char>)>,
    groups: Seq<Vec<usize>>,
    g: int,
    read: Result<DayProfileModel, RowError>,
) -> (p: int)
    requires
        are_rows_in_any_order(rows, profiles),
        rows.len() <= usize::MAX,
        can_be_shuffled(profiles),
        forall|p: int|
            0 <= p < profiles.len() ==> (#[trigger] profiles[p]).hours.len() <= usize::MAX,
        keys_spell(keys, rows),
        is_grouping(keys, groups),
        0 <= g < groups.len(),
        profile_reads(rows, groups[g]@, read),
    ensures
        0 <= p < profiles.len(),
        tells_some_hour(rows[groups[g]@[0] as int], profiles),
        rows[groups[g]@[0] as int].station_id@ == profiles[p].station,
        rows[groups[g]@[0] as int].local_date@ == profiles[p].date.text(),
        read == Ok::<DayProfileModel, RowError>(profiles[p]),
{
    let p = lemma_group_is_of_one_profile(rows, profiles, keys, groups, g);
    let members = groups[g]@;
    let profile = profiles[p];
    let hours = hours_in(rows, members);
    let order = choose|order: Seq<usize>| #[trigger]
        is_stable_order(hours, order) && profile_in_order(rows, members, order) == read;
    assert(is_stable_order(hours, order));
    lemma_order_is_distinct(hours, order);
    assert(members.len() > 0);
    assert(members.len() == groups[g].len());
    assert(groups[g]@[0] < keys.len());
    let told = Seq::new(
        order.len(),
        |k: int| told_hour(rows[members[order[k] as int] as int], profiles, p) as usize,
    );
    assert forall|k: int| 0 <= k < order.len() implies #[trigger] told[k] < profile.hours.len()
        && tells_hour(rows[members[order[k] as int] as int], profiles, p, told[k] as int) by {
        assert(order[k] < members.len());
        assert(groups[g]@[order[k] as int] < keys.len());
    }
    assert forall|a: int, b: int| 0 <= a < b < told.len() implies #[trigger] told[a]
        < #[trigger] told[b] by {
        let (x, y) = (order[a] as int, order[b] as int);
        assert(precedes(hours, x, y));
        assert(groups[g]@[x] < keys.len() && groups[g]@[y] < keys.len());
        assert(hours[x] <= hours[y]);
        assert(hours_climb(profile.hours));
        if told[b] < told[a] {
            assert(profile.hours[told[b] as int].hour < profile.hours[told[a] as int].hour);
        } else if told[a] == told[b] {
            assert(tells_hour(rows[members[x] as int], profiles, p, told[a] as int));
            assert(tells_hour(rows[members[y] as int], profiles, p, told[a] as int));
            assert(members[x] == members[y]);
            lemma_groups_are_disjoint(keys, groups, g, x, g, y);
        }
    }
    assert forall|h: int| 0 <= h < profile.hours.len() implies told.contains(
        #[trigger] (h as usize),
    ) by {
        assert(is_told_in(rows, members, profiles, p, h));
        let a = choose|a: int|
            0 <= a < members.len() && tells_hour(
                rows[#[trigger] members[a] as int],
                profiles,
                p,
                h,
            );
        assert(order.contains(a as usize));
        let k = choose|k: int| 0 <= k < order.len() && order[k] == a as usize;
        assert(told[k] < profile.hours.len());
        lemma_one_hour(rows[members[a] as int], profiles, p, h, p, told[k] as int);
        assert(told[k] == h as usize);
    }
    lemma_rising_and_full(told, profile.hours.len() as int);
    assert(told[0] == 0);
    assert(tells_hour(rows[members[order[0] as int] as int], profiles, p, 0));
    assert(read is Ok);
    assert forall|k: int| 0 <= k < profile.hours.len() implies read->Ok_0.hours[k]
        == profile.hours[k] by {
        assert(told[k] == k);
        assert(tells_hour(rows[members[order[k] as int] as int], profiles, p, k));
    }
    assert(read->Ok_0.hours =~= profile.hours);
    assert(tells_hour(
        rows[groups[g]@[0] as int],
        profiles,
        p,
        told_hour(rows[groups[g]@[0] as int], profiles, p),
    ));
    assert(station_code(profile.station) == profile.station);
    p
}

/// The rows of profiles are read without an error, whatever order they come in.
pub proof fn law_shuffled_rows_are_read(
    written: Seq<DayProfileRow>,
    rows: Seq<DayProfileRow>,
    profiles: Seq<DayProfileModel>,
    error: RowError,
)
    requires
        are_rows_of_all(written, profiles),
        can_be_shuffled(profiles),
        rows.to_multiset() == written.to_multiset(),
        rows.len() <= usize::MAX,
    ensures
        !profiles_fail(rows, error),
{
    lemma_shuffled_rows(written, rows, profiles);
    lemma_hours_fit(profiles);
    if profiles_fail(rows, error) {
        let (groups, g) = choose|groups: Seq<Vec<usize>>, g: int|
            {
                &&& #[trigger] groups_rows(groups, rows)
                &&& 0 <= g < groups.len()
                &&& profile_reads(rows, (#[trigger] groups[g])@, Err(error))
                &&& forall|h: int| 0 <= h < g ==> profile_is_read(rows, (#[trigger] groups[h])@)
            };
        let keys = choose|keys: Seq<(Vec<char>, Vec<char>)>| #[trigger]
            keys_spell(keys, rows) && is_grouping(keys, groups);
        lemma_group_reads(rows, profiles, keys, groups, g, Err(error));
    }
}

proof fn lemma_hours_fit(profiles: Seq<DayProfileModel>)
    ensures
        forall|p: int|
            0 <= p < profiles.len() ==> (#[trigger] profiles[p]).hours.len() <= hours_before(
                profiles,
                profiles.len() as int,
            ),
{
    lemma_hours_before_rise(profiles, 0, profiles.len() as int);
    assert forall|p: int| 0 <= p < profiles.len() implies (#[trigger] profiles[p]).hours.len()
        <= hours_before(profiles, profiles.len() as int) by {
        if profiles[p].hours.len() > 0 {
            lemma_hour_fits(profiles, p, 0);
        }
    }
}

/// The rows of profiles, whatever order they come in, read back as these profiles and no others,
/// each once, in the order of the texts of their stations and dates.
pub proof fn law_shuffled_rows_read_back(
    written: Seq<DayProfileRow>,
    rows: Seq<DayProfileRow>,
    profiles: Seq<DayProfileModel>,
    found: Seq<DayProfile>,
)
    requires
        are_rows_of_all(written, profiles),
        can_be_shuffled(profiles),
        rows.to_multiset() == written.to_multiset(),
        rows.len() <= usize::MAX,
        profiles_read(rows, found),
    ensures
        forall|p: int|
            0 <= p < profiles.len() ==> profile_models(found).contains(#[trigger] profiles[p]),
        forall|g: int| 0 <= g < found.len() ==> profiles.contains((#[trigger] found[g])@),
        forall|g: int, h: int|
            0 <= g < h < found.len() ==> profile_before(
                (#[trigger] found[g])@,
                (#[trigger] found[h])@,
            ),
{
    lemma_shuffled_rows(written, rows, profiles);
    lemma_hours_fit(profiles);
    let groups = choose|groups: Seq<Vec<usize>>| #[trigger]
        groups_rows(groups, rows) && groups.len() == found.len() && forall|g: int|
            0 <= g < groups.len() ==> profile_reads(
                rows,
                (#[trigger] groups[g])@,
                Ok(found[g]@),
            );
    let keys = choose|keys: Seq<(Vec<char>, Vec<char>)>| #[trigger]
        keys_spell(keys, rows) && is_grouping(keys, groups);
    assert forall|g: int| 0 <= g < found.len() implies profiles.contains((#[trigger] found[g])@) by {
        assert(profile_reads(rows, groups[g]@, Ok(found[g]@)));
        let p = lemma_group_reads(rows, profiles, keys, groups, g, Ok(found[g]@));
        assert(found[g]@ == profiles[p]);
    }
    assert forall|p: int| 0 <= p < profiles.len() implies profile_models(found).contains(
        #[trigger] profiles[p],
    ) by {
        assert(profiles[p].hours.len() > 0);
        assert(is_told(rows, profiles, p, 0));
        let i = choose|i: int| 0 <= i < rows.len() && tells_hour(#[trigger] rows[i], profiles, p, 0);
        assert(in_some_group(groups, i));
        let g = choose|g: int| #[trigger] in_group(groups, g, i);
        let a = choose|a: int| 0 <= a < groups[g]@.len() && groups[g]@[a] == i as usize;
        assert(profile_reads(rows, groups[g]@, Ok(found[g]@)));
        let q = lemma_group_is_of_one_profile(rows, profiles, keys, groups, g);
        let r = lemma_group_reads(rows, profiles, keys, groups, g, Ok(found[g]@));
        assert(tells_hour(
            rows[groups[g]@[a] as int],
            profiles,
            q,
            told_hour(rows[groups[g]@[a] as int], profiles, q),
        ));
        lemma_one_hour(rows[i], profiles, p, 0, q, told_hour(rows[i], profiles, q));
        let first = groups[g]@[0] as int;
        assert(groups[g]@.len() > 0);
        assert(tells_hour(rows[first], profiles, q, told_hour(rows[first], profiles, q)));
        assert(profiles[r].station == profiles[q].station && profiles[r].date.text()
            == profiles[q].date.text());
        assert(profile_models(found)[g] == profiles[r]);
    }
    assert forall|g: int, h: int| 0 <= g < h < found.len() implies profile_before(
        (#[trigger] found[g])@,
        (#[trigger] found[h])@,
    ) by {
        assert(profile_reads(rows, groups[g]@, Ok(found[g]@)));
        assert(profile_reads(rows, groups[h]@, Ok(found[h]@)));
        let p = lemma_group_reads(rows, profiles, keys, groups, g, Ok(found[g]@));
        let q = lemma_group_reads(rows, profiles, keys, groups, h, Ok(found[h]@));
        assert(groups[g]@.len() > 0 && groups[h]@.len() > 0);
        assert(0 <= groups[g]@[0] < keys.len());
        assert(0 <= groups[h]@[0] < keys.len());
        let (left, right) = (keys[groups[g]@[0] as int], keys[groups[h]@[0] as int]);
        assert(!keys[groups[h]@[0] as int].at_most(&keys[groups[g]@[0] as int]));
        <(Vec<char>, Vec<char>)>::total(&left, &right);
        lemma_keys_tie(keys, rows, groups[g]@[0] as int, groups[h]@[0] as int);
        assert(left.at_most(&right));
        if profiles[p].station == profiles[q].station {
            lemma_dictionary_reflexive(right.0@);
        }
    }
}

/// A profile stands before another by its station, in the dictionary, then by its date.
pub open spec fn is_earlier(a: DayProfileModel, b: DayProfileModel) -> bool {
    if a.station == b.station {
        a.date.not_after(b.date) && a.date != b.date
    } else {
        dictionary(a.station, b.station)
    }
}

/// The profiles stand in the order of their stations and dates, with years of four digits.
pub open spec fn stand_in_order(profiles: Seq<DayProfileModel>) -> bool {
    &&& forall|p: int, q: int|
        0 <= p < q < profiles.len() ==> is_earlier(#[trigger] profiles[p], #[trigger] profiles[q])
    &&& forall|p: int|
        0 <= p < profiles.len() ==> (#[trigger] profiles[p]).date.valid() && 0
            <= profiles[p].date.y() <= 9999
}

/// Of two profiles one only stands before the other.
proof fn lemma_one_is_earlier(a: DayProfileModel, b: DayProfileModel)
    requires
        is_earlier(a, b),
    ensures
        !is_earlier(b, a),
{
    if is_earlier(b, a) {
        if a.station == b.station {
            lemma_same_date(a.date, b.date);
        } else {
            lemma_dictionary_ties(a.station, b.station);
        }
    }
}

/// Two lists of profiles in their order that hold the same profiles are equal.
proof fn lemma_ordered_lists_agree(left: Seq<DayProfileModel>, right: Seq<DayProfileModel>)
    requires
        stand_in_order(left),
        stand_in_order(right),
        forall|x: DayProfileModel| left.contains(x) ==> right.contains(x),
        forall|x: DayProfileModel| right.contains(x) ==> left.contains(x),
    ensures
        left == right,
    decreases left.len(),
{
    if left.len() == 0 {
        if right.len() > 0 {
            assert(right.contains(right[0]));
        }
        assert(left =~= right);
    } else {
        assert(left.contains(left.last()));
        assert(right.len() > 0);
        assert(right.contains(right.last()));
        let a = choose|a: int| 0 <= a < right.len() && right[a] == left.last();
        let b = choose|b: int| 0 <= b < left.len() && left[b] == right.last();
        if a < right.len() - 1 {
            assert(is_earlier(right[a], right[right.len() - 1]));
            lemma_one_is_earlier(right[a], right[right.len() - 1]);
            if b < left.len() - 1 {
                assert(is_earlier(left[b], left[left.len() - 1]));
            }
            assert(false);
        }
        let fore = left.drop_last();
        let back = right.drop_last();
        assert forall|p: int, q: int| 0 <= p < q < fore.len() implies is_earlier(
            #[trigger] fore[p],
            #[trigger] fore[q],
        ) by {
            assert(fore[p] == left[p] && fore[q] == left[q]);
        }
        assert forall|p: int, q: int| 0 <= p < q < back.len() implies is_earlier(
            #[trigger] back[p],
            #[trigger] back[q],
        ) by {
            assert(back[p] == right[p] && back[q] == right[q]);
        }
        assert forall|x: DayProfileModel| fore.contains(x) implies back.contains(x) by {
            let i = choose|i: int| 0 <= i < fore.len() && fore[i] == x;
            assert(left[i] == x);
            assert(left.contains(x));
            let j = choose|j: int| 0 <= j < right.len() && right[j] == x;
            assert(is_earlier(left[i], left[left.len() - 1]));
            lemma_one_is_earlier(left[i], left[left.len() - 1]);
            assert(j < right.len() - 1);
            assert(back[j] == x);
        }
        assert forall|x: DayProfileModel| back.contains(x) implies fore.contains(x) by {
            let i = choose|i: int| 0 <= i < back.len() && back[i] == x;
            assert(right[i] == x);
            assert(right.contains(x));
            let j = choose|j: int| 0 <= j < left.len() && left[j] == x;
            assert(is_earlier(right[i], right[right.len() - 1]));
            lemma_one_is_earlier(right[i], right[right.len() - 1]);
            assert(j < left.len() - 1);
            assert(fore[j] == x);
        }
        lemma_ordered_lists_agree(fore, back);
        assert(left =~= fore.push(left.last()));
        assert(right =~= back.push(right.last()));
    }
}

/// Profiles that stand in the order of their stations and dates read back as they were, whatever
/// order their rows come in.
pub proof fn law_ordered_profiles_read_back(
    written: Seq<DayProfileRow>,
    rows: Seq<DayProfileRow>,
    profiles: Seq<DayProfileModel>,
    found: Seq<DayProfile>,
)
    requires
        are_rows_of_all(written, profiles),
        can_be_shuffled(profiles),
        stand_in_order(profiles),
        rows.to_multiset() == written.to_multiset(),
        rows.len() <= usize::MAX,
        profiles_read(rows, found),
    ensures
        profile_models(found) == profiles,
{
    let models = profile_models(found);
    law_shuffled_rows_read_back(written, rows, profiles, found);
    assert forall|g: int| 0 <= g < models.len() implies (#[trigger] models[g]).date.valid() && 0
        <= models[g].date.y() <= 9999 by {
        assert(profiles.contains(found[g]@));
        let p = choose|p: int| 0 <= p < profiles.len() && profiles[p] == found[g]@;
        assert(profiles[p].date.valid());
    }
    assert forall|g: int, h: int| 0 <= g < h < models.len() implies is_earlier(
        #[trigger] models[g],
        #[trigger] models[h],
    ) by {
        assert(profile_before(found[g]@, found[h]@));
        law_date_texts_follow_the_calendar(models[g].date, models[h].date);
    }
    assert forall|x: DayProfileModel| models.contains(x) implies profiles.contains(x) by {
        let g = choose|g: int| 0 <= g < models.len() && models[g] == x;
        assert(profiles.contains(found[g]@));
    }
    assert forall|x: DayProfileModel| profiles.contains(x) implies models.contains(x) by {
        let p = choose|p: int| 0 <= p < profiles.len() && profiles[p] == x;
        assert(models.contains(profiles[p]));
    }
    lemma_ordered_lists_agree(models, profiles);
}

/// The rows of profiles that are built from observations read back whatever order they come in.
pub proof fn law_built_profiles_can_be_shuffled<A: Arithmetic>(
    a: &A,
    observations: Seq<ObservationRecord>,
    profiles: Seq<DayProfile>,
)
    requires
        profiles_are(a, observations, profiles),
        forall|i: int|
            0 <= i < observations.len() ==> station_code((#[trigger] observations[i]).station_id@)
                == observations[i].station_id@,
    ensures
        can_be_shuffled(profile_models(profiles)),
{
    let models = profile_models(profiles);
    law_built_profiles_can_be_kept(a, observations, profiles);
    let groups = choose|groups: Seq<Vec<usize>>| #[trigger]
        groups_days(groups, observations) && profiles.len() == groups.len() && forall|g: int|
            0 <= g < groups.len() ==> profiles_day(
                a,
                observations,
                (#[trigger] groups[g])@,
                profiles[g]@,
            );
    assert forall|p: int| 0 <= p < models.len() implies hours_climb((#[trigger] models[p]).hours) by {
        assert(profiles_day(a, observations, groups[p]@, profiles[p]@));
        let hours = models[p].hours;
        assert forall|i: int, j: int| 0 <= i < j < hours.len() implies (#[trigger] hours[i]).hour < (
        #[trigger] hours[j]).hour by {
            assert(profiles_hour(a, observations, groups[p]@, i, hours[i]));
            assert(profiles_hour(a, observations, groups[p]@, j, hours[j]));
        }
    }
}

} // verus!
