//! Analogs: which hours of two days are compared, by what, and how the days are ranked.
use vstd::prelude::*;
use crate::analogs::{
    analog_models, analogs_in_order, are_top_analogs, candidates, contrast_if, contrasts,
    distances_are, high_on, hour_limit, hour_pair, hours_apart, law_profiles_have_one_distance,
    lemma_candidates, lemma_candidates_fit, lemma_candidates_hold, matched_hours, profiles_apart,
    rank_key, rank_keys, ranks, separation_is, separations_are,
};
use crate::calendar::Date;
use crate::domain::{
    kept, lemma_kept_push, AnalogModel, AnalogResult, DailySummary, DayProfile, HourlyProfilePoint,
};
use crate::engine::mean_is;
use crate::laws::lists::{lemma_kept_count, lemma_kept_positions};
use crate::order::{is_stable_order, precedes};
use crate::reading::{measures_alike, Arithmetic, Contrast, Reading};
use crate::text::texts;

verus! {

/// One of the seven quantities is in both hours.
pub open spec fn share_a_quantity(left: HourlyProfilePoint, right: HourlyProfilePoint) -> bool {
    ||| left.temperature_c is Some && right.temperature_c is Some
    ||| left.dewpoint_c is Some && right.dewpoint_c is Some
    ||| left.relative_humidity_pct is Some && right.relative_humidity_pct is Some
    ||| left.wind_u_kt is Some && right.wind_u_kt is Some
    ||| left.wind_v_kt is Some && right.wind_v_kt is Some
    ||| left.cloud_cover_fraction is Some && right.cloud_cover_fraction is Some
    ||| left.precipitation_mm is Some && right.precipitation_mm is Some
}

/// Two hours are compared by the quantities that both have, each once: its two values, the lesser
/// first, and its own scale, which is ten degrees for temperature and dew point, twenty percent for
/// humidity, ten knots for either part of the wind, a half for clouds and five millimetres for
/// rain. They are not compared where they have none in common.
pub proof fn law_hours_are_compared_by_what_both_have<A: Arithmetic>(
    a: &A,
    left: HourlyProfilePoint,
    right: HourlyProfilePoint,
    out: Option<Reading>,
)
    requires
        hours_apart(a, left, right, out),
    ensures
        out is Some <==> share_a_quantity(left, right),
        out is Some ==> exists|pairs: &Vec<Contrast>|
            {
                &&& #[trigger] call_ensures(A::separation, (a, pairs), out->0)
                &&& pairs@.len() == (if left.temperature_c is Some
                    && right.temperature_c is Some { 1nat } else { 0nat })
                    + (if left.dewpoint_c is Some
                        && right.dewpoint_c is Some { 1nat } else { 0nat })
                    + (if left.relative_humidity_pct is Some
                        && right.relative_humidity_pct is Some { 1nat } else { 0nat })
                    + (if left.wind_u_kt is Some && right.wind_u_kt is Some { 1nat } else { 0nat })
                    + (if left.wind_v_kt is Some && right.wind_v_kt is Some { 1nat } else { 0nat })
                    + (if left.cloud_cover_fraction is Some
                        && right.cloud_cover_fraction is Some { 1nat } else { 0nat })
                    + (if left.precipitation_mm is Some
                        && right.precipitation_mm is Some { 1nat } else { 0nat })
                &&& forall|k: int|
                    0 <= k < pairs@.len() ==> (#[trigger] pairs@[k]).lesser.total_rank()
                        <= pairs@[k].greater.total_rank()
                &&& left.temperature_c is Some && right.temperature_c is Some ==> exists|k: int|
                    0 <= k < pairs@.len() && (#[trigger] pairs@[k]).scale_tenths == 100 && (
                    pairs@[k].lesser == left.temperature_c->0
                        && pairs@[k].greater == right.temperature_c->0
                        || pairs@[k].lesser == right.temperature_c->0 && pairs@[k].greater
                        == left.temperature_c->0)
                &&& left.dewpoint_c is Some && right.dewpoint_c is Some ==> exists|k: int|
                    0 <= k < pairs@.len() && (#[trigger] pairs@[k]).scale_tenths == 100 && (
                    pairs@[k].lesser == left.dewpoint_c->0
                        && pairs@[k].greater == right.dewpoint_c->0
                        || pairs@[k].lesser == right.dewpoint_c->0 && pairs@[k].greater
                        == left.dewpoint_c->0)
                &&& left.relative_humidity_pct is Some && right.relative_humidity_pct is Some
                    ==> exists|k: int|
                    0 <= k < pairs@.len() && (#[trigger] pairs@[k]).scale_tenths == 200 && (
                    pairs@[k].lesser == left.relative_humidity_pct->0
                        && pairs@[k].greater == right.relative_humidity_pct->0
                        || pairs@[k].lesser == right.relative_humidity_pct->0 && pairs@[k].greater
                        == left.relative_humidity_pct->0)
                &&& left.wind_u_kt is Some && right.wind_u_kt is Some ==> exists|k: int|
                    0 <= k < pairs@.len() && (#[trigger] pairs@[k]).scale_tenths == 100 && (
                    pairs@[k].lesser == left.wind_u_kt->0 && pairs@[k].greater == right.wind_u_kt->0
                        || pairs@[k].lesser == right.wind_u_kt->0 && pairs@[k].greater
                        == left.wind_u_kt->0)
                &&& left.wind_v_kt is Some && right.wind_v_kt is Some ==> exists|k: int|
                    0 <= k < pairs@.len() && (#[trigger] pairs@[k]).scale_tenths == 100 && (
                    pairs@[k].lesser == left.wind_v_kt->0 && pairs@[k].greater == right.wind_v_kt->0
                        || pairs@[k].lesser == right.wind_v_kt->0 && pairs@[k].greater
                        == left.wind_v_kt->0)
                &&& left.cloud_cover_fraction is Some && right.cloud_cover_fraction is Some
                    ==> exists|k: int|
                    0 <= k < pairs@.len() && (#[trigger] pairs@[k]).scale_tenths == 5 && (
                    pairs@[k].lesser == left.cloud_cover_fraction->0
                        && pairs@[k].greater == right.cloud_cover_fraction->0
                        || pairs@[k].lesser == right.cloud_cover_fraction->0 && pairs@[k].greater
                        == left.cloud_cover_fraction->0)
                &&& left.precipitation_mm is Some && right.precipitation_mm is Some
                    ==> exists|k: int|
                    0 <= k < pairs@.len() && (#[trigger] pairs@[k]).scale_tenths == 50 && (
                    pairs@[k].lesser == left.precipitation_mm->0
                        && pairs@[k].greater == right.precipitation_mm->0
                        || pairs@[k].lesser == right.precipitation_mm->0 && pairs@[k].greater
                        == left.precipitation_mm->0)
            },
{
    let all = contrasts(left, right);
    lemma_compared(left, right);
    if let Some(d) = out {
        let pairs = choose|list: &Vec<Contrast>|
            list@ == all && #[trigger] call_ensures(A::separation, (a, list), d);
        assert(pairs@ == all);
        assert(is_found(pairs@, left.temperature_c, right.temperature_c, 100));
        assert(is_found(pairs@, left.dewpoint_c, right.dewpoint_c, 100));
        assert(is_found(pairs@, left.relative_humidity_pct, right.relative_humidity_pct, 200));
        assert(is_found(pairs@, left.wind_u_kt, right.wind_u_kt, 100));
        assert(is_found(pairs@, left.wind_v_kt, right.wind_v_kt, 100));
        assert(is_found(pairs@, left.cloud_cover_fraction, right.cloud_cover_fraction, 5));
        assert(is_found(pairs@, left.precipitation_mm, right.precipitation_mm, 50));
        assert(call_ensures(A::separation, (a, pairs), out->0));
    }
}

/// The two values are a pair of the list.
spec fn is_found(
    all: Seq<Contrast>,
    left: Option<Reading>,
    right: Option<Reading>,
    scale_tenths: u32,
) -> bool {
    left is Some && right is Some ==> exists|k: int|
        0 <= k < all.len() && (#[trigger] all[k]).scale_tenths == scale_tenths && (all[k].lesser
            == left->0 && all[k].greater == right->0 || all[k].lesser == right->0 && all[k].greater
            == left->0)
}

/// The piece of a list of pairs that is of one quantity.
#[verifier::opaque]
spec fn is_piece(
    piece: Seq<Contrast>,
    left: Option<Reading>,
    right: Option<Reading>,
    scale_tenths: u32,
) -> bool {
    &&& piece.len() == (if left is Some && right is Some {
        1nat
    } else {
        0nat
    })
    &&& piece.len() > 0 ==> piece[0].scale_tenths == scale_tenths && (piece[0].lesser == left->0
        && piece[0].greater == right->0 || piece[0].lesser == right->0 && piece[0].greater
        == left->0)
    &&& forall|k: int|
        0 <= k < piece.len() ==> (#[trigger] piece[k]).lesser.total_rank()
            <= piece[k].greater.total_rank()
}

proof fn lemma_piece(left: Option<Reading>, right: Option<Reading>, scale_tenths: u32)
    ensures
        is_piece(contrast_if(left, right, scale_tenths), left, right, scale_tenths),
{
    reveal(is_piece);
}

proof fn lemma_compared(left: HourlyProfilePoint, right: HourlyProfilePoint)
    ensures
        contrasts(left, right).len() == (if left.temperature_c is Some
            && right.temperature_c is Some { 1nat } else { 0nat })
            + (if left.dewpoint_c is Some && right.dewpoint_c is Some { 1nat } else { 0nat })
            + (if left.relative_humidity_pct is Some
                && right.relative_humidity_pct is Some { 1nat } else { 0nat })
            + (if left.wind_u_kt is Some && right.wind_u_kt is Some { 1nat } else { 0nat })
            + (if left.wind_v_kt is Some && right.wind_v_kt is Some { 1nat } else { 0nat })
            + (if left.cloud_cover_fraction is Some
                && right.cloud_cover_fraction is Some { 1nat } else { 0nat })
            + (if left.precipitation_mm is Some
                && right.precipitation_mm is Some { 1nat } else { 0nat }),
        forall|k: int|
            0 <= k < contrasts(left, right).len() ==> (#[trigger] contrasts(
                left,
                right,
            )[k]).lesser.total_rank() <= contrasts(left, right)[k].greater.total_rank(),
        is_found(contrasts(left, right), left.temperature_c, right.temperature_c, 100),
        is_found(contrasts(left, right), left.dewpoint_c, right.dewpoint_c, 100),
        is_found(contrasts(left, right), left.relative_humidity_pct, right.relative_humidity_pct,
            200),
        is_found(contrasts(left, right), left.wind_u_kt, right.wind_u_kt, 100),
        is_found(contrasts(left, right), left.wind_v_kt, right.wind_v_kt, 100),
        is_found(contrasts(left, right), left.cloud_cover_fraction, right.cloud_cover_fraction, 5),
        is_found(contrasts(left, right), left.precipitation_mm, right.precipitation_mm, 50),
{
    lemma_piece(left.temperature_c, right.temperature_c, 100);
    lemma_piece(left.dewpoint_c, right.dewpoint_c, 100);
    lemma_piece(left.relative_humidity_pct, right.relative_humidity_pct, 200);
    lemma_piece(left.wind_u_kt, right.wind_u_kt, 100);
    lemma_piece(left.wind_v_kt, right.wind_v_kt, 100);
    lemma_piece(left.cloud_cover_fraction, right.cloud_cover_fraction, 5);
    lemma_piece(left.precipitation_mm, right.precipitation_mm, 50);
    lemma_told(
        left,
        right,
        contrast_if(left.temperature_c, right.temperature_c, 100),
        contrast_if(left.dewpoint_c, right.dewpoint_c, 100),
        contrast_if(left.relative_humidity_pct, right.relative_humidity_pct, 200),
        contrast_if(left.wind_u_kt, right.wind_u_kt, 100),
        contrast_if(left.wind_v_kt, right.wind_v_kt, 100),
        contrast_if(left.cloud_cover_fraction, right.cloud_cover_fraction, 5),
        contrast_if(left.precipitation_mm, right.precipitation_mm, 50),
    );
}

proof fn lemma_told(
    left: HourlyProfilePoint,
    right: HourlyProfilePoint,
    s0: Seq<Contrast>,
    s1: Seq<Contrast>,
    s2: Seq<Contrast>,
    s3: Seq<Contrast>,
    s4: Seq<Contrast>,
    s5: Seq<Contrast>,
    s6: Seq<Contrast>,
)
    requires
        is_piece(s0, left.temperature_c, right.temperature_c, 100),
        is_piece(s1, left.dewpoint_c, right.dewpoint_c, 100),
        is_piece(s2, left.relative_humidity_pct, right.relative_humidity_pct, 200),
        is_piece(s3, left.wind_u_kt, right.wind_u_kt, 100),
        is_piece(s4, left.wind_v_kt, right.wind_v_kt, 100),
        is_piece(s5, left.cloud_cover_fraction, right.cloud_cover_fraction, 5),
        is_piece(s6, left.precipitation_mm, right.precipitation_mm, 50),
    ensures
        ({
            let all = s0 + s1 + s2 + s3 + s4 + s5 + s6;
            &&& all.len() == (if left.temperature_c is Some
                && right.temperature_c is Some { 1nat } else { 0nat })
                + (if left.dewpoint_c is Some && right.dewpoint_c is Some { 1nat } else { 0nat })
                + (if left.relative_humidity_pct is Some
                    && right.relative_humidity_pct is Some { 1nat } else { 0nat })
                + (if left.wind_u_kt is Some && right.wind_u_kt is Some { 1nat } else { 0nat })
                + (if left.wind_v_kt is Some && right.wind_v_kt is Some { 1nat } else { 0nat })
                + (if left.cloud_cover_fraction is Some
                    && right.cloud_cover_fraction is Some { 1nat } else { 0nat })
                + (if left.precipitation_mm is Some
                    && right.precipitation_mm is Some { 1nat } else { 0nat })
            &&& forall|k: int|
                0 <= k < all.len() ==> (#[trigger] all[k]).lesser.total_rank()
                    <= all[k].greater.total_rank()
            &&& is_found(all, left.temperature_c, right.temperature_c, 100)
            &&& is_found(all, left.dewpoint_c, right.dewpoint_c, 100)
            &&& is_found(all, left.relative_humidity_pct, right.relative_humidity_pct, 200)
            &&& is_found(all, left.wind_u_kt, right.wind_u_kt, 100)
            &&& is_found(all, left.wind_v_kt, right.wind_v_kt, 100)
            &&& is_found(all, left.cloud_cover_fraction, right.cloud_cover_fraction, 5)
            &&& is_found(all, left.precipitation_mm, right.precipitation_mm, 50)
        }),
{
    let all = s0 + s1 + s2 + s3 + s4 + s5 + s6;
    lemma_pieces(s0, s1, s2, s3, s4, s5, s6);
    assert(s0.len() == (if left.temperature_c is Some
        && right.temperature_c is Some { 1nat } else { 0nat })
        && is_found(all, left.temperature_c, right.temperature_c, 100)
        && forall|k: int|
        0 <= k < s0.len() ==> (#[trigger] s0[k]).lesser.total_rank()
            <= s0[k].greater.total_rank()) by {
        reveal(is_piece);
        assert(is_piece(s0, left.temperature_c, right.temperature_c, 100));
    }
    assert(s1.len() == (if left.dewpoint_c is Some
        && right.dewpoint_c is Some { 1nat } else { 0nat })
        && is_found(all, left.dewpoint_c, right.dewpoint_c, 100)
        && forall|k: int|
        0 <= k < s1.len() ==> (#[trigger] s1[k]).lesser.total_rank()
            <= s1[k].greater.total_rank()) by {
        reveal(is_piece);
        assert(is_piece(s1, left.dewpoint_c, right.dewpoint_c, 100));
    }
    assert(s2.len() == (if left.relative_humidity_pct is Some
        && right.relative_humidity_pct is Some { 1nat } else { 0nat })
        && is_found(all, left.relative_humidity_pct, right.relative_humidity_pct, 200)
        && forall|k: int|
        0 <= k < s2.len() ==> (#[trigger] s2[k]).lesser.total_rank()
            <= s2[k].greater.total_rank()) by {
        reveal(is_piece);
        assert(is_piece(s2, left.relative_humidity_pct, right.relative_humidity_pct, 200));
    }
    assert(s3.len() == (if left.wind_u_kt is Some && right.wind_u_kt is Some { 1nat } else { 0nat })
        && is_found(all, left.wind_u_kt, right.wind_u_kt, 100)
        && forall|k: int|
        0 <= k < s3.len() ==> (#[trigger] s3[k]).lesser.total_rank()
            <= s3[k].greater.total_rank()) by {
        reveal(is_piece);
        assert(is_piece(s3, left.wind_u_kt, right.wind_u_kt, 100));
    }
    assert(s4.len() == (if left.wind_v_kt is Some && right.wind_v_kt is Some { 1nat } else { 0nat })
        && is_found(all, left.wind_v_kt, right.wind_v_kt, 100)
        && forall|k: int|
        0 <= k < s4.len() ==> (#[trigger] s4[k]).lesser.total_rank()
            <= s4[k].greater.total_rank()) by {
        reveal(is_piece);
        assert(is_piece(s4, left.wind_v_kt, right.wind_v_kt, 100));
    }
    assert(s5.len() == (if left.cloud_cover_fraction is Some
        && right.cloud_cover_fraction is Some { 1nat } else { 0nat })
        && is_found(all, left.cloud_cover_fraction, right.cloud_cover_fraction, 5)
        && forall|k: int|
        0 <= k < s5.len() ==> (#[trigger] s5[k]).lesser.total_rank()
            <= s5[k].greater.total_rank()) by {
        reveal(is_piece);
        assert(is_piece(s5, left.cloud_cover_fraction, right.cloud_cover_fraction, 5));
    }
    assert(s6.len() == (if left.precipitation_mm is Some
        && right.precipitation_mm is Some { 1nat } else { 0nat })
        && is_found(all, left.precipitation_mm, right.precipitation_mm, 50)
        && forall|k: int|
        0 <= k < s6.len() ==> (#[trigger] s6[k]).lesser.total_rank()
            <= s6[k].greater.total_rank()) by {
        reveal(is_piece);
        assert(is_piece(s6, left.precipitation_mm, right.precipitation_mm, 50));
    }
    assert forall|k: int| 0 <= k < all.len() implies (#[trigger] all[k]).lesser.total_rank()
        <= all[k].greater.total_rank() by {
        let x = all[k];
    }
}

/// Where the pieces of a list of pairs are found in it.
proof fn lemma_pieces(
    s0: Seq<Contrast>,
    s1: Seq<Contrast>,
    s2: Seq<Contrast>,
    s3: Seq<Contrast>,
    s4: Seq<Contrast>,
    s5: Seq<Contrast>,
    s6: Seq<Contrast>,
)
    ensures
        ({
            let all = s0 + s1 + s2 + s3 + s4 + s5 + s6;
            &&& all.len() == s0.len() + s1.len() + s2.len() + s3.len() + s4.len() + s5.len()
                + s6.len()
            &&& forall|k: int|
                0 <= k < all.len() ==> {
                    ||| s0.contains(#[trigger] all[k])
                    ||| s1.contains(all[k])
                    ||| s2.contains(all[k])
                    ||| s3.contains(all[k])
                    ||| s4.contains(all[k])
                    ||| s5.contains(all[k])
                    ||| s6.contains(all[k])
                }
            &&& s0.len() > 0 ==> exists|k: int| 0 <= k < all.len() && #[trigger] all[k] == s0[0]
            &&& s1.len() > 0 ==> exists|k: int| 0 <= k < all.len() && #[trigger] all[k] == s1[0]
            &&& s2.len() > 0 ==> exists|k: int| 0 <= k < all.len() && #[trigger] all[k] == s2[0]
            &&& s3.len() > 0 ==> exists|k: int| 0 <= k < all.len() && #[trigger] all[k] == s3[0]
            &&& s4.len() > 0 ==> exists|k: int| 0 <= k < all.len() && #[trigger] all[k] == s4[0]
            &&& s5.len() > 0 ==> exists|k: int| 0 <= k < all.len() && #[trigger] all[k] == s5[0]
            &&& s6.len() > 0 ==> exists|k: int| 0 <= k < all.len() && #[trigger] all[k] == s6[0]
        }),
{
    let all = s0 + s1 + s2 + s3 + s4 + s5 + s6;
    let n0 = 0int;
    if s0.len() > 0 {
        assert(all[n0] == s0[0]);
    }
    let n1 = n0 + s0.len();
    if s1.len() > 0 {
        assert(all[n1] == s1[0]);
    }
    let n2 = n1 + s1.len();
    if s2.len() > 0 {
        assert(all[n2] == s2[0]);
    }
    let n3 = n2 + s2.len();
    if s3.len() > 0 {
        assert(all[n3] == s3[0]);
    }
    let n4 = n3 + s3.len();
    if s4.len() > 0 {
        assert(all[n4] == s4[0]);
    }
    let n5 = n4 + s4.len();
    if s5.len() > 0 {
        assert(all[n5] == s5[0]);
    }
    let n6 = n5 + s5.len();
    if s6.len() > 0 {
        assert(all[n6] == s6[0]);
    }
    assert forall|k: int| 0 <= k < all.len() implies {
        ||| s0.contains(#[trigger] all[k])
        ||| s1.contains(all[k])
        ||| s2.contains(all[k])
        ||| s3.contains(all[k])
        ||| s4.contains(all[k])
        ||| s5.contains(all[k])
        ||| s6.contains(all[k])
    } by {
        if k < n1 {
            assert(all[k] == s0[k]);
        } else if k < n2 {
            assert(all[k] == s1[k - n1]);
        } else if k < n3 {
            assert(all[k] == s2[k - n2]);
        } else if k < n4 {
            assert(all[k] == s3[k - n3]);
        } else if k < n5 {
            assert(all[k] == s4[k - n4]);
        } else if k < n6 {
            assert(all[k] == s5[k - n5]);
        } else {
            assert(all[k] == s6[k - n6]);
        }
    }
}

/// The hours that are compared are those of the day, up to the as-of hour and with it, that both
/// days have and that have a quantity in common. Two of them are enough up to an hour, six are for
/// a whole day. The distance of the days is the mean of the distances of these hours.
pub proof fn law_days_are_compared_over_their_common_hours<A: Arithmetic>(
    a: &A,
    left: Seq<HourlyProfilePoint>,
    right: Seq<HourlyProfilePoint>,
    as_of_hour: Option<u8>,
    out: Option<(Reading, usize)>,
)
    requires
        profiles_apart(a, left, right, as_of_hour, out),
    ensures
        ({
            let hours = Seq::new(24, |k: int| k).filter(
                |k: int|
                    {
                        &&& as_of_hour is Some ==> k <= as_of_hour->0
                        &&& k < left.len()
                        &&& k < right.len()
                        &&& share_a_quantity(left[k], right[k])
                    },
            );
            &&& as_of_hour is Some ==> (out is Some <==> hours.len() >= 2)
            &&& as_of_hour is None ==> (out is Some <==> hours.len() >= 6)
            &&& out is Some ==> (out->0).1 == hours.len()
            &&& out is Some ==> exists|distances: &Vec<Reading>|
                {
                    &&& #[trigger] call_ensures(A::mean, (a, distances), (out->0).0)
                    &&& distances@.len() == hours.len()
                    &&& forall|j: int|
                        0 <= j < hours.len() ==> hours_apart(
                            a,
                            left[hours[j]],
                            right[hours[j]],
                            Some(#[trigger] distances@[j]),
                        )
                }
        }),
{
    let p = |k: int|
                    {
                        &&& as_of_hour is Some ==> k <= as_of_hour->0
                        &&& k < left.len()
                        &&& k < right.len()
                        &&& share_a_quantity(left[k], right[k])
                    };
    let hours = Seq::new(24, |k: int| k).filter(p);
    lemma_matched(left, right, as_of_hour, 24);
    let matched = matched_hours(left, right, as_of_hour);
    if let Some((d, count)) = out {
        let these = choose|distances: Seq<Reading>| #[trigger]
            separations_are(a, matched, distances) && mean_is(a, distances, d);
        let list = choose|list: &Vec<Reading>|
            list@ == these && #[trigger] call_ensures(A::mean, (a, list), d);
        assert forall|j: int| 0 <= j < hours.len() implies hours_apart(
            a,
            left[hours[j]],
            right[hours[j]],
            Some(#[trigger] list@[j]),
        ) by {
            assert(separation_is(a, matched[j], these[j]));
        }
        assert(call_ensures(A::mean, (a, list), (out->0).0));
    }
}

proof fn lemma_matched(
    left: Seq<HourlyProfilePoint>,
    right: Seq<HourlyProfilePoint>,
    as_of_hour: Option<u8>,
    n: nat,
)
    requires
        n <= 24,
    ensures
        ({
            let hours = Seq::new(n, |k: int| k).filter(
                |k: int|
                    {
                        &&& as_of_hour is Some ==> k <= as_of_hour->0
                        &&& k < left.len()
                        &&& k < right.len()
                        &&& share_a_quantity(left[k], right[k])
                    },
            );
            let limit = if n < hour_limit(as_of_hour) {
                n
            } else {
                hour_limit(as_of_hour)
            };
            let matched = kept(Seq::new(limit, |hour: int| hour_pair(left, right, hour)));
            &&& hours.len() == matched.len()
            &&& forall|j: int|
                0 <= j < hours.len() ==> 0 <= #[trigger] hours[j] < n && matched[j] == contrasts(
                    left[hours[j]],
                    right[hours[j]],
                ) && matched[j].len() > 0
        }),
    decreases n,
{
    reveal(Seq::filter);
    let p = |k: int|
                    {
                        &&& as_of_hour is Some ==> k <= as_of_hour->0
                        &&& k < left.len()
                        &&& k < right.len()
                        &&& share_a_quantity(left[k], right[k])
                    };
    let hours = Seq::new(n, |k: int| k).filter(p);
    let limit = if n < hour_limit(as_of_hour) {
        n
    } else {
        hour_limit(as_of_hour)
    };
    let all = Seq::new(limit, |hour: int| hour_pair(left, right, hour));
    if n == 0 {
        assert(all =~= seq![]);
    } else {
        let m = (n - 1) as nat;
        lemma_matched(left, right, as_of_hour, m);
        assert(Seq::new(n, |k: int| k).drop_last() =~= Seq::new(m, |k: int| k));
        let before = Seq::new(m, |k: int| k).filter(p);
        if n <= hour_limit(as_of_hour) {
            let front = Seq::new(m, |hour: int| hour_pair(left, right, hour));
            assert(all =~= front.push(hour_pair(left, right, m as int)));
            lemma_kept_push(front, hour_pair(left, right, m as int));
        } else {
            assert(!p(m as int));
        }
    }
}

/// Up to an as-of hour, two days that have a quantity in common in every hour are compared over
/// exactly the hours up to it and with it.
pub proof fn law_all_hours_up_to_the_as_of_hour_count<A: Arithmetic>(
    a: &A,
    left: Seq<HourlyProfilePoint>,
    right: Seq<HourlyProfilePoint>,
    hour: u8,
    out: Option<(Reading, usize)>,
)
    requires
        hour < 24,
        hour < left.len(),
        hour < right.len(),
        forall|k: int| 0 <= k <= hour ==> share_a_quantity(#[trigger] left[k], right[k]),
        profiles_apart(a, left, right, Some(hour), out),
    ensures
        out is Some <==> hour >= 1,
        out is Some ==> (out->0).1 == hour + 1,
{
    lemma_full_hours(left, right, Some(hour), hour + 1, 24);
    law_days_are_compared_over_their_common_hours(a, left, right, Some(hour), out);
}

proof fn lemma_full_hours(
    left: Seq<HourlyProfilePoint>,
    right: Seq<HourlyProfilePoint>,
    as_of_hour: Option<u8>,
    limit: int,
    n: nat,
)
    requires
        0 <= limit <= left.len(),
        limit <= right.len(),
        n <= 24,
        as_of_hour is Some ==> limit == as_of_hour->0 + 1,
        as_of_hour is None ==> limit == 24,
        forall|k: int| 0 <= k < limit ==> share_a_quantity(#[trigger] left[k], right[k]),
    ensures
        Seq::new(n, |k: int| k).filter(
            |k: int|
                    {
                        &&& as_of_hour is Some ==> k <= as_of_hour->0
                        &&& k < left.len()
                        &&& k < right.len()
                        &&& share_a_quantity(left[k], right[k])
                    },
        ).len() == (if n < limit {
            n as int
        } else {
            limit
        }),
    decreases n,
{
    reveal(Seq::filter);
    let p = |k: int|
                    {
                        &&& as_of_hour is Some ==> k <= as_of_hour->0
                        &&& k < left.len()
                        &&& k < right.len()
                        &&& share_a_quantity(left[k], right[k])
                    };
    if n > 0 {
        let m = (n - 1) as nat;
        lemma_full_hours(left, right, as_of_hour, limit, m);
        assert(Seq::new(n, |k: int| k).drop_last() =~= Seq::new(m, |k: int| k));
        assert(Seq::new(n, |k: int| k).last() == m);
        assert(p(m as int) <==> m < limit);
    }
}

/// Where two days have a quantity in common in every hour, the next as-of hour adds one hour to
/// those compared.
pub proof fn law_the_next_as_of_hour_adds_one_hour<A: Arithmetic>(
    a: &A,
    left: Seq<HourlyProfilePoint>,
    right: Seq<HourlyProfilePoint>,
    hour: u8,
    out: Option<(Reading, usize)>,
    next: Option<(Reading, usize)>,
)
    requires
        1 <= hour < 23,
        hour + 1 < left.len(),
        hour + 1 < right.len(),
        forall|k: int| 0 <= k <= hour + 1 ==> share_a_quantity(#[trigger] left[k], right[k]),
        profiles_apart(a, left, right, Some(hour), out),
        profiles_apart(a, left, right, Some((hour + 1) as u8), next),
    ensures
        out is Some,
        next is Some,
        (next->0).1 == (out->0).1 + 1,
{
    law_all_hours_up_to_the_as_of_hour_count(a, left, right, hour, out);
    law_all_hours_up_to_the_as_of_hour_count(a, left, right, (hour + 1) as u8, next);
}

/// Without an as-of hour, two days that have a quantity in common in every hour are compared over
/// all twenty-four.
pub proof fn law_whole_days_are_compared_over_all_hours<A: Arithmetic>(
    a: &A,
    left: Seq<HourlyProfilePoint>,
    right: Seq<HourlyProfilePoint>,
    out: Option<(Reading, usize)>,
)
    requires
        left.len() >= 24,
        right.len() >= 24,
        forall|k: int| 0 <= k < 24 ==> share_a_quantity(#[trigger] left[k], right[k]),
        profiles_apart(a, left, right, None, out),
    ensures
        out is Some,
        (out->0).1 == 24,
{
    lemma_full_hours(left, right, None, 24, 24);
    law_days_are_compared_over_their_common_hours(a, left, right, None, out);
}

/// What a day was like after the as-of hour has no influence on how far another is from it.
pub proof fn law_hours_after_the_as_of_hour_have_no_influence<A: Arithmetic>(
    a: &A,
    left: Seq<HourlyProfilePoint>,
    right: Seq<HourlyProfilePoint>,
    left_otherwise: Seq<HourlyProfilePoint>,
    right_otherwise: Seq<HourlyProfilePoint>,
    hour: u8,
    out: Option<(Reading, usize)>,
)
    requires
        left.len() == left_otherwise.len(),
        right.len() == right_otherwise.len(),
        forall|k: int|
            0 <= k <= hour && k < left.len() ==> #[trigger] left[k] == left_otherwise[k],
        forall|k: int|
            0 <= k <= hour && k < right.len() ==> #[trigger] right[k] == right_otherwise[k],
    ensures
        profiles_apart(a, left, right, Some(hour), out) <==> profiles_apart(
            a,
            left_otherwise,
            right_otherwise,
            Some(hour),
            out,
        ),
{
    let limit = hour_limit(Some(hour));
    let one = Seq::new(limit, |k: int| hour_pair(left, right, k));
    let other = Seq::new(limit, |k: int| hour_pair(left_otherwise, right_otherwise, k));
    assert forall|k: int| 0 <= k < limit implies one[k] == other[k] by {
        if k < left.len() {
            assert(left[k] == left_otherwise[k]);
        }
        if k < right.len() {
            assert(right[k] == right_otherwise[k]);
        }
    }
    assert(one =~= other);
    assert(matched_hours(left, right, Some(hour)) == kept(
        Seq::new(limit, |hour: int| hour_pair(left, right, hour)),
    ));
    assert(one =~= Seq::new(limit, |hour: int| hour_pair(left, right, hour)));
    assert(other =~= Seq::new(
        limit,
        |hour: int| hour_pair(left_otherwise, right_otherwise, hour),
    ));
}

proof fn lemma_ranking<A: Arithmetic>(
    a: &A,
    station: Seq<char>,
    target_date: Date,
    daily: Seq<DailySummary>,
    profiles: Seq<DayProfile>,
    target: DayProfile,
    as_of_hour: Option<u8>,
    top_n: nat,
    models: Seq<AnalogModel>,
) -> (r: (Seq<Option<(Reading, usize)>>, Seq<usize>))
    requires
        profiles.len() <= usize::MAX,
        are_top_analogs(
            a,
            station,
            target_date,
            daily,
            profiles,
            target,
            as_of_hour,
            top_n,
            models,
        ),
    ensures
        distances_are(a, target_date, profiles, target, as_of_hour, r.0),
        is_stable_order(rank_keys(target, profiles, r.0), r.1),
        r.1.len() == candidates(r.0).len(),
        models.len() == (if candidates(r.0).len() < top_n {
            candidates(r.0).len()
        } else {
            top_n
        }),
        forall|k: int|
            0 <= k < r.1.len() ==> {
                let at = candidates(r.0)[#[trigger] r.1[k] as int] as int;
                &&& r.1[k] < candidates(r.0).len()
                &&& 0 <= at < profiles.len()
                &&& r.0[at] is Some
                &&& k < models.len() ==> models[k] == crate::analogs::analog_of(
                    station,
                    target_date,
                    daily,
                    profiles[at],
                    r.0[at]->0,
                )
            },
{
    let distances = choose|distances: Seq<Option<(Reading, usize)>>| #[trigger]
        distances_are(a, target_date, profiles, target, as_of_hour, distances) && ranks(
            station,
            target_date,
            daily,
            profiles,
            target,
            distances,
            top_n,
            models,
        );
    let keys = rank_keys(target, profiles, distances);
    let order = choose|order: Seq<usize>| #[trigger]
        is_stable_order(keys, order) && models == analogs_in_order(
            station,
            target_date,
            daily,
            profiles,
            distances,
            order,
            top_n,
        );
    assert(is_stable_order(keys, order));
    lemma_candidates(distances);
    assert forall|k: int| 0 <= k < order.len() implies {
        let at = candidates(distances)[#[trigger] order[k] as int] as int;
        &&& order[k] < candidates(distances).len()
        &&& 0 <= at < profiles.len()
        &&& distances[at] is Some
        &&& k < models.len() ==> models[k] == crate::analogs::analog_of(
            station,
            target_date,
            daily,
            profiles[at],
            distances[at]->0,
        )
    } by {
        assert(order[k] < keys.len());
    }
    (distances, order)
}

/// An analog tells of another day than the target: its date, its distance over the hours compared,
/// the high of the last summary of that date, and whether the hourly source is among its sources.
pub proof fn law_analogs_tell_of_their_days<A: Arithmetic>(
    a: &A,
    station: Seq<char>,
    target_date: Date,
    daily: Seq<DailySummary>,
    profiles: Seq<DayProfile>,
    target: DayProfile,
    as_of_hour: Option<u8>,
    top_n: nat,
    analogs: Seq<AnalogResult>,
    k: int,
)
    requires
        profiles.len() <= usize::MAX,
        are_top_analogs(
            a,
            station,
            target_date,
            daily,
            profiles,
            target,
            as_of_hour,
            top_n,
            analog_models(analogs),
        ),
        0 <= k < analogs.len(),
    ensures
        analogs.len() <= top_n,
        analogs[k].station_id@ == station,
        analogs[k].target_date == target_date,
        analogs[k].analog_date != target_date,
        as_of_hour is Some ==> analogs[k].compared_hours >= 2,
        as_of_hour is None ==> analogs[k].compared_hours >= 6,
        exists|i: int|
            {
                &&& 0 <= i < profiles.len()
                &&& (#[trigger] profiles[i]).local_date == analogs[k].analog_date
                &&& profiles_apart(
                    a,
                    target.hours@,
                    profiles[i].hours@,
                    as_of_hour,
                    Some((analogs[k].distance, analogs[k].compared_hours)),
                )
                &&& analogs[k].source_mix_note is Some <==> texts(
                    profiles[i].source_slugs@,
                ).contains("ghcnh"@)
                &&& analogs[k].source_mix_note is Some ==> analogs[k].source_mix_note->0@
                    == "mixed-cadence candidate includes ghcnh hourly observations"@
                &&& analogs[k].candidate_source_summary@ == crate::numeral::joined(
                    texts(profiles[i].source_slugs@),
                    ","@,
                )
                &&& profiles[i].source_slugs@.len() == 0
                    ==> analogs[k].candidate_source_summary@.len()
                    == 0
                &&& profiles[i].source_slugs@.len() == 1 ==> analogs[k].candidate_source_summary@
                    == profiles[i].source_slugs@[0]@
                &&& profiles[i].source_slugs@.len() == 2 ==> analogs[k].candidate_source_summary@
                    == profiles[i].source_slugs@[0]@ + ","@ + profiles[i].source_slugs@[1]@
            },
        forall|i: int|
            0 <= i < daily.len() && (#[trigger] daily[i]).local_date == analogs[k].analog_date && (
            forall|j: int|
                i < j < daily.len() ==> (#[trigger] daily[j]).local_date != analogs[k].analog_date)
                ==> analogs[k].observed_high_c == daily[i].high_temp_c,
        (forall|i: int|
            0 <= i < daily.len() ==> (#[trigger] daily[i]).local_date != analogs[k].analog_date)
            ==> analogs[k].observed_high_c is None,
{
    let (distances, order) = lemma_ranking(
        a,
        station,
        target_date,
        daily,
        profiles,
        target,
        as_of_hour,
        top_n,
        analog_models(analogs),
    );
    let at = candidates(distances)[order[k] as int] as int;
    let analog = analogs[k];
    let model = analog@;
    assert(analog_models(analogs)[k] == model);
    assert(distances[at] is Some);
    let found = distances[at]->0;
    assert(found == (found.0, found.1));
    assert(model.analog_date == profiles[at].local_date);
    assert(profiles_apart(a, target.hours@, profiles[at].hours@, as_of_hour, distances[at]));
    law_days_are_compared_over_their_common_hours(
        a,
        target.hours@,
        profiles[at].hours@,
        as_of_hour,
        distances[at],
    );
    assert(model.source_mix_note is Some <==> analog.source_mix_note is Some);
    let slugs = texts(profiles[at].source_slugs@);
    if slugs.len() == 1 {
        assert(slugs[0] == profiles[at].source_slugs@[0]@);
    }
    if slugs.len() == 2 {
        reveal_with_fuel(crate::numeral::joined, 3);
        assert(slugs.drop_last().len() == 1);
        assert(slugs.drop_last()[0] == profiles[at].source_slugs@[0]@);
        assert(slugs.last() == profiles[at].source_slugs@[1]@);
    }
    assert(profiles[at].local_date == analog.analog_date);
    lemma_high(daily, analog.analog_date);
}

pub proof fn lemma_high(daily: Seq<DailySummary>, date: Date)
    ensures
        forall|i: int|
            0 <= i < daily.len() && (#[trigger] daily[i]).local_date == date && (forall|j: int|
                i < j < daily.len() ==> (#[trigger] daily[j]).local_date != date) ==> high_on(
                daily,
                date,
            ) == daily[i].high_temp_c,
        (forall|i: int| 0 <= i < daily.len() ==> (#[trigger] daily[i]).local_date != date)
            ==> high_on(daily, date) is None,
    decreases daily.len(),
{
    if daily.len() > 0 {
        let front = daily.drop_last();
        let n = daily.len() - 1;
        lemma_high(front, date);
        assert(daily[n] == daily.last());
        assert forall|i: int|
            0 <= i < daily.len() && (#[trigger] daily[i]).local_date == date && (forall|j: int|
                i < j < daily.len() ==> (#[trigger] daily[j]).local_date != date) implies high_on(
            daily,
            date,
        ) == daily[i].high_temp_c by {
            if i < n {
                assert(daily[n].local_date != date);
                assert(front[i] == daily[i]);
                assert forall|j: int| i < j < front.len() implies (#[trigger] front[j]).local_date
                    != date by {
                    assert(daily[j].local_date != date);
                }
            }
        }
        if forall|i: int| 0 <= i < daily.len() ==> (#[trigger] daily[i]).local_date != date {
            assert(daily[n].local_date != date);
            assert forall|i: int| 0 <= i < front.len() implies (#[trigger] front[i]).local_date
                != date by {
                assert(daily[i].local_date != date);
            }
        }
    }
}

/// Days of the cadence of the target come before others, and of two days of one cadence the one
/// that is closer comes first.
pub proof fn law_closer_days_of_the_same_cadence_come_first<A: Arithmetic>(
    a: &A,
    station: Seq<char>,
    target_date: Date,
    daily: Seq<DailySummary>,
    profiles: Seq<DayProfile>,
    target: DayProfile,
    as_of_hour: Option<u8>,
    top_n: nat,
    analogs: Seq<AnalogResult>,
    k: int,
    l: int,
)
    requires
        profiles.len() <= usize::MAX,
        are_top_analogs(
            a,
            station,
            target_date,
            daily,
            profiles,
            target,
            as_of_hour,
            top_n,
            analog_models(analogs),
        ),
        0 <= k < l < analogs.len(),
    ensures
        ({
            let hourly = texts(target.source_slugs@).contains("ghcnh"@);
            let first = (analogs[k].source_mix_note is Some) == hourly;
            let second = (analogs[l].source_mix_note is Some) == hourly;
            &&& second ==> first
            &&& first == second ==> {
                &&& analogs[k].distance.total_rank() <= analogs[l].distance.total_rank()
                &&& analogs[k].distance.bits < 0x8000_0000_0000_0000
                    && analogs[l].distance.bits < 0x8000_0000_0000_0000
                    ==> analogs[k].distance.bits <= analogs[l].distance.bits
            }
        }),
{
    let (distances, order) = lemma_ranking(
        a,
        station,
        target_date,
        daily,
        profiles,
        target,
        as_of_hour,
        top_n,
        analog_models(analogs),
    );
    let keys = rank_keys(target, profiles, distances);
    let left = candidates(distances)[order[k] as int] as int;
    let right = candidates(distances)[order[l] as int] as int;
    assert(precedes(keys, order[k] as int, order[l] as int));
    assert(keys[order[k] as int] == rank_key(target, profiles[left], distances[left]));
    assert(keys[order[l] as int] == rank_key(target, profiles[right], distances[right]));
    assert(analog_models(analogs)[k] == analogs[k]@ && analog_models(analogs)[l] == analogs[l]@);
    assert(analogs[k]@.source_mix_note is Some <==> analogs[k].source_mix_note is Some);
    assert(analogs[l]@.source_mix_note is Some <==> analogs[l].source_mix_note is Some);
}

/// A day other than the target that can be compared is listed, or the list is full of days that are
/// all of the cadence of the target where it is not, or of its cadence and no farther.
pub proof fn law_a_day_left_out_is_no_better<A: Arithmetic>(
    a: &A,
    station: Seq<char>,
    target_date: Date,
    daily: Seq<DailySummary>,
    profiles: Seq<DayProfile>,
    target: DayProfile,
    as_of_hour: Option<u8>,
    top_n: nat,
    analogs: Seq<AnalogResult>,
    i: int,
    found: (Reading, usize),
)
    requires
        profiles.len() <= usize::MAX,
        are_top_analogs(
            a,
            station,
            target_date,
            daily,
            profiles,
            target,
            as_of_hour,
            top_n,
            analog_models(analogs),
        ),
        measures_alike(a),
        0 <= i < profiles.len(),
        profiles[i].local_date != target_date,
        profiles_apart(a, target.hours@, profiles[i].hours@, as_of_hour, Some(found)),
    ensures
        ({
            let hourly = texts(target.source_slugs@).contains("ghcnh"@);
            let like = texts(profiles[i].source_slugs@).contains("ghcnh"@) == hourly;
            ||| exists|k: int|
                0 <= k < analogs.len() && (#[trigger] analogs[k]).analog_date
                    == profiles[i].local_date && analogs[k].distance == found.0
                    && analogs[k].compared_hours == found.1
            ||| analogs.len() == top_n && forall|k: int|
                0 <= k < analogs.len() ==> {
                    let same = ((#[trigger] analogs[k]).source_mix_note is Some) == hourly;
                    &&& like ==> same
                    &&& like == same ==> analogs[k].distance.total_rank() <= found.0.total_rank()
                }
        }),
{
    let (distances, order) = lemma_ranking(
        a,
        station,
        target_date,
        daily,
        profiles,
        target,
        as_of_hour,
        top_n,
        analog_models(analogs),
    );
    let other = distances[i];
    law_profiles_have_one_distance(
        a,
        target.hours@,
        profiles[i].hours@,
        as_of_hour,
        Some(found),
        other,
    );
    let keys = rank_keys(target, profiles, distances);
    let chosen = candidates(distances);
    lemma_candidates_hold(distances, i);
    let c = choose|c: int| 0 <= c < chosen.len() && chosen[c] == i as usize;
    lemma_candidates_fit(distances);
    assert(order.contains(c as usize));
    let at = choose|at: int| 0 <= at < order.len() && order[at] == c as usize;
    if at < analogs.len() {
        assert(analog_models(analogs)[at] == analogs[at]@);
        assert(analogs[at]@.analog_date == profiles[i].local_date);
        assert(analogs[at].analog_date == profiles[i].local_date);
    } else {
        let hourly = texts(target.source_slugs@).contains("ghcnh"@);
        let like = texts(profiles[i].source_slugs@).contains("ghcnh"@) == hourly;
        assert forall|k: int| 0 <= k < analogs.len() implies {
            let same = ((#[trigger] analogs[k]).source_mix_note is Some) == hourly;
            &&& like ==> same
            &&& like == same ==> analogs[k].distance.total_rank() <= found.0.total_rank()
        } by {
            assert(precedes(keys, order[k] as int, order[at] as int));
            let left = chosen[order[k] as int] as int;
            assert(keys[order[k] as int] == rank_key(target, profiles[left], distances[left]));
            assert(keys[order[at] as int] == rank_key(target, profiles[i], distances[i]));
            assert(analog_models(analogs)[k] == analogs[k]@);
            assert(analogs[k]@.source_mix_note is Some <==> analogs[k].source_mix_note is Some);
        }
    }
}

/// There are as many analogs as other days that can be compared with the target, and at most
/// `top_n`.
pub proof fn law_comparable_days_are_counted<A: Arithmetic>(
    a: &A,
    station: Seq<char>,
    target_date: Date,
    daily: Seq<DailySummary>,
    profiles: Seq<DayProfile>,
    target: DayProfile,
    as_of_hour: Option<u8>,
    top_n: nat,
    models: Seq<AnalogModel>,
)
    requires
        profiles.len() <= usize::MAX,
        are_top_analogs(
            a,
            station,
            target_date,
            daily,
            profiles,
            target,
            as_of_hour,
            top_n,
            models,
        ),
    ensures
        ({
            let comparable = profiles.filter(
                |p: DayProfile|
                    p.local_date != target_date && !profiles_apart(
                        a,
                        target.hours@,
                        p.hours@,
                        as_of_hour,
                        None,
                    ),
            ).len();
            models.len() == (if comparable < top_n {
                comparable
            } else {
                top_n
            })
        }),
{
    let (distances, order) = lemma_ranking(
        a,
        station,
        target_date,
        daily,
        profiles,
        target,
        as_of_hour,
        top_n,
        models,
    );
    let all = Seq::new(
        distances.len(),
        |i: int|
            if distances[i] is Some {
                Some(i as usize)
            } else {
                None
            },
    );
    let p = |p: DayProfile|
        p.local_date != target_date && !profiles_apart(
            a,
            target.hours@,
            p.hours@,
            as_of_hour,
            None,
        );
    assert forall|k: int| 0 <= k < profiles.len() implies ((#[trigger] all[k]) is Some <==> p(
        profiles[k],
    )) by {
        let distance = distances[k];
        if distance is Some {
            let found = distance->0;
            assert(found == (found.0, found.1));
        }
    }
    lemma_kept_count(profiles, all, p);
}

/// Of two analogs of one cadence that are as far from the target, the one whose profile stands
/// first in the list comes first.
pub proof fn law_days_as_far_stay_in_their_order<A: Arithmetic>(
    a: &A,
    station: Seq<char>,
    target_date: Date,
    daily: Seq<DailySummary>,
    profiles: Seq<DayProfile>,
    target: DayProfile,
    as_of_hour: Option<u8>,
    top_n: nat,
    analogs: Seq<AnalogResult>,
    k: int,
    l: int,
)
    requires
        profiles.len() <= usize::MAX,
        are_top_analogs(
            a,
            station,
            target_date,
            daily,
            profiles,
            target,
            as_of_hour,
            top_n,
            analog_models(analogs),
        ),
        0 <= k < l < analogs.len(),
        analogs[k].distance == analogs[l].distance,
        analogs[k].source_mix_note is Some <==> analogs[l].source_mix_note is Some,
    ensures
        exists|i: int, j: int|
            {
                &&& 0 <= i < j < profiles.len()
                &&& (#[trigger] profiles[i]).local_date == analogs[k].analog_date
                &&& (#[trigger] profiles[j]).local_date == analogs[l].analog_date
            },
{
    let (distances, order) = lemma_ranking(
        a,
        station,
        target_date,
        daily,
        profiles,
        target,
        as_of_hour,
        top_n,
        analog_models(analogs),
    );
    let keys = rank_keys(target, profiles, distances);
    let chosen = candidates(distances);
    let left = chosen[order[k] as int] as int;
    let right = chosen[order[l] as int] as int;
    assert(precedes(keys, order[k] as int, order[l] as int));
    assert(keys[order[k] as int] == rank_key(target, profiles[left], distances[left]));
    assert(keys[order[l] as int] == rank_key(target, profiles[right], distances[right]));
    assert(analog_models(analogs)[k] == analogs[k]@ && analog_models(analogs)[l] == analogs[l]@);
    assert(analogs[k]@.source_mix_note is Some <==> analogs[k].source_mix_note is Some);
    assert(analogs[l]@.source_mix_note is Some <==> analogs[l].source_mix_note is Some);
    assert(order[k] < order[l]);
    let all = Seq::new(
        distances.len(),
        |i: int|
            if distances[i] is Some {
                Some(i as usize)
            } else {
                None
            },
    );
    let positions = lemma_kept_positions(all);
    assert(all[positions[order[k] as int]] == Some(chosen[order[k] as int]));
    assert(all[positions[order[l] as int]] == Some(chosen[order[l] as int]));
    assert(positions[order[k] as int] < positions[order[l] as int]);
    assert(left < right);
    assert(profiles[left].local_date == analogs[k].analog_date);
    assert(profiles[right].local_date == analogs[l].analog_date);
}

} // verus!
