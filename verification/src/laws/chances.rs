//! Probabilities: what counts towards each estimate, and how the estimates are combined.
use vstd::prelude::*;
use crate::analogs::{analog_models, are_top_analogs, profiles_apart};
use crate::calendar::Date;
use crate::domain::{
    kept, lemma_kept_push, opt_estimate, AnalogModel, AnalogResult, CombinedModel,
    CombinedProbability, DailySummary, DayProfile, EstimateModel, ProbabilityBreakdown,
    ProbabilityEstimate,
};
use crate::laws::likeness::law_comparable_days_are_counted;
use crate::laws::lists::lemma_filter_holds;
use crate::numeral::digits;
use crate::probability::{
    analog_estimate, analog_reason, analogs_make, best_analogs_make, blend_is, breakdown_is,
    climatology_makes, combined_model, combines, estimate_models, has_hourly_profile,
    has_hourly_summary, hits, law_hits_are_highs, pair_combines, quality_state_of, reports,
    season_gap, season_highs, share_is, unavailable, vote_share_is, votes, votes_make, weighed,
};
use crate::reading::{Arithmetic, Reading, Vote, Weighted};
use crate::text::texts;

verus! {

/// The estimate by the season is the share of the days with a high at most `window` days from the
/// target date in the year, over the turn of the year too, whose high reaches the threshold. There
/// is none exactly where there are no such days.
pub proof fn law_the_season_is_the_days_around_the_date<A: Arithmetic>(
    a: &A,
    window: int,
    target_date: Date,
    threshold: Reading,
    daily: Seq<DailySummary>,
    out: Option<ProbabilityEstimate>,
)
    requires
        daily.len() <= usize::MAX,
        climatology_makes(a, window, target_date, threshold, daily, opt_estimate(out)),
    ensures
        ({
            let near = daily.filter(
                |s: DailySummary| s.high_temp_c is Some && ({
                        let apart = s.local_date.ordinal_of() - target_date.ordinal_of();
                        -window <= apart <= window || apart <= window - 366 || apart >= 366 - window
                    }),
            );
            let hot = near.filter(|s: DailySummary| s.high_temp_c->0.at_least(threshold));
            &&& out is Some <==> near.len() > 0
            &&& out is Some ==> {
                &&& out->0.method@ == "seasonal-climatology"@
                &&& out->0.sample_size == near.len()
                &&& out->0.weight_used is None
                &&& out->0.confidence_note is None
                &&& out->0.note is Some
                &&& out->0.note->0@ == "window=+/-"@ + digits(window as nat) + " calendar days"@
                &&& call_ensures(
                    A::share,
                    (a, hot.len() as usize, near.len() as usize),
                    out->0.probability,
                )
            }
        }),
{
    lemma_season(target_date, window, threshold, daily);
    let p = |s: DailySummary| s.high_temp_c is Some && ({
                let apart = s.local_date.ordinal_of() - target_date.ordinal_of();
                -window <= apart <= window || apart <= window - 366 || apart >= 366 - window
            });
    lemma_filter_holds(daily, p);
    if let Some(e) = out {
        assert(opt_estimate(out) == Some(e@));
        assert(e@.sample_size == e.sample_size);
    }
}

proof fn lemma_season(target_date: Date, window: int, threshold: Reading, daily: Seq<DailySummary>)
    ensures
        ({
            let near = daily.filter(
                |s: DailySummary| s.high_temp_c is Some && ({
                        let apart = s.local_date.ordinal_of() - target_date.ordinal_of();
                        -window <= apart <= window || apart <= window - 366 || apart >= 366 - window
                    }),
            );
            let hot = near.filter(|s: DailySummary| s.high_temp_c->0.at_least(threshold));
            &&& season_highs(daily, target_date, window).len() == near.len()
            &&& hits(season_highs(daily, target_date, window), threshold) == hot.len()
        }),
    decreases daily.len(),
{
    reveal(Seq::filter);
    let all = Seq::new(
        daily.len(),
        |i: int|
            if season_gap(target_date.ordinal_of(), daily[i].local_date.ordinal_of()) <= window {
                daily[i].high_temp_c
            } else {
                None
            },
    );
    let p = |s: DailySummary| s.high_temp_c is Some && ({
                let apart = s.local_date.ordinal_of() - target_date.ordinal_of();
                -window <= apart <= window || apart <= window - 366 || apart >= 366 - window
            });
    let q = |s: DailySummary| s.high_temp_c->0.at_least(threshold);
    if daily.len() > 0 {
        let front = daily.drop_last();
        let n = daily.len() - 1;
        lemma_season(target_date, window, threshold, front);
        let rest = Seq::new(
            front.len(),
            |i: int|
                if season_gap(target_date.ordinal_of(), front[i].local_date.ordinal_of())
                    <= window {
                    front[i].high_temp_c
                } else {
                    None
                },
        );
        assert(all.drop_last() =~= rest);
        assert(all =~= rest.push(all.last()));
        lemma_kept_push(rest, all.last());
        assert(all.last() is Some <==> p(daily.last()));
        if p(daily.last()) {
            let high = daily.last().high_temp_c->0;
            assert(kept(all) == kept(rest).push(high));
            assert(kept(rest).push(high).drop_last() =~= kept(rest));
            assert(daily.filter(p).drop_last() =~= front.filter(p));
            assert(daily.filter(p).last() == daily.last());
        }
    } else {
        assert(all =~= seq![]);
    }
}

/// A summary that is farther than the window from the target date in the year, or has no high, has
/// no influence: the same estimates are made with it in the list, wherever it stands, as without
/// it.
pub proof fn law_days_of_other_seasons_have_no_influence<A: Arithmetic>(
    a: &A,
    window: int,
    target_date: Date,
    threshold: Reading,
    daily: Seq<DailySummary>,
    at: int,
    day: DailySummary,
    out: Option<ProbabilityEstimate>,
)
    requires
        0 <= at <= daily.len(),
        day.high_temp_c is None || !({
                let apart = day.local_date.ordinal_of() - target_date.ordinal_of();
                -window <= apart <= window || apart <= window - 366 || apart >= 366 - window
            }),
    ensures
        climatology_makes(a, window, target_date, threshold, daily, opt_estimate(out))
            <==> climatology_makes(
            a,
            window,
            target_date,
            threshold,
            daily.insert(at, day),
            opt_estimate(out),
        ),
{
    lemma_season_insert(target_date, window, daily, at, day);
}

spec fn high_if(target_date: Date, window: int, day: DailySummary) -> Option<Reading> {
    if season_gap(target_date.ordinal_of(), day.local_date.ordinal_of()) <= window {
        day.high_temp_c
    } else {
        None
    }
}

proof fn lemma_season_insert(
    target_date: Date,
    window: int,
    daily: Seq<DailySummary>,
    at: int,
    day: DailySummary,
)
    requires
        0 <= at <= daily.len(),
    ensures
        ({
            let before = season_highs(daily, target_date, window);
            let after = season_highs(daily.insert(at, day), target_date, window);
            &&& high_if(target_date, window, day) is None ==> after == before
            &&& high_if(target_date, window, day) is Some ==> after.len() == before.len() + 1
            &&& high_if(target_date, window, day) is Some ==> forall|threshold: Reading|
                #[trigger] hits(after, threshold) == hits(before, threshold) + (if high_if(
                    target_date,
                    window,
                    day,
                )->0.at_least(threshold) {
                    1nat
                } else {
                    0nat
                })
        }),
    decreases daily.len() - at,
{
    let more = daily.insert(at, day);
    lemma_season_last(target_date, window, more);
    if at == daily.len() {
        assert(more.drop_last() =~= daily);
    } else {
        let front = daily.drop_last();
        lemma_season_last(target_date, window, daily);
        lemma_season_insert(target_date, window, front, at, day);
        assert(more.drop_last() =~= front.insert(at, day));
        assert(more.last() == daily.last());
    }
}

proof fn lemma_season_last(target_date: Date, window: int, daily: Seq<DailySummary>)
    requires
        daily.len() > 0,
    ensures
        ({
            let before = season_highs(daily.drop_last(), target_date, window);
            let after = season_highs(daily, target_date, window);
            match high_if(target_date, window, daily.last()) {
                Some(high) => {
                    &&& after == before.push(high)
                    &&& forall|threshold: Reading| #[trigger]
                        hits(after, threshold) == hits(before, threshold) + (if high.at_least(
                            threshold,
                        ) {
                            1nat
                        } else {
                            0nat
                        })
                },
                None => after == before,
            }
        }),
{
    let front = daily.drop_last();
    let all = Seq::new(
        daily.len(),
        |i: int|
            if season_gap(target_date.ordinal_of(), daily[i].local_date.ordinal_of()) <= window {
                daily[i].high_temp_c
            } else {
                None
            },
    );
    let rest = Seq::new(
        front.len(),
        |i: int|
            if season_gap(target_date.ordinal_of(), front[i].local_date.ordinal_of()) <= window {
                front[i].high_temp_c
            } else {
                None
            },
    );
    assert(all.drop_last() =~= rest);
    assert(all =~= rest.push(all.last()));
    lemma_kept_push(rest, all.last());
    if let Some(high) = high_if(target_date, window, daily.last()) {
        assert(kept(rest).push(high).drop_last() =~= kept(rest));
    }
}

/// A count is one more where the condition holds, and the same where not.
pub open spec fn rises_if(condition: bool, before: usize, after: usize) -> bool {
    if condition {
        after == before + 1
    } else {
        after == before
    }
}

/// A summary with a high at most the window from the target date in the year counts as one day
/// more, wherever it stands in the list, and as one hit more exactly where its high reaches the
/// threshold.
pub proof fn law_each_day_of_the_season_counts_once<A: Arithmetic>(
    a: &A,
    window: int,
    target_date: Date,
    threshold: Reading,
    daily: Seq<DailySummary>,
    at: int,
    day: DailySummary,
    out: Option<ProbabilityEstimate>,
    more: Option<ProbabilityEstimate>,
)
    requires
        daily.len() < usize::MAX,
        0 <= at <= daily.len(),
        day.high_temp_c is Some,
        ({
                let apart = day.local_date.ordinal_of() - target_date.ordinal_of();
                -window <= apart <= window || apart <= window - 366 || apart >= 366 - window
            }),
        climatology_makes(a, window, target_date, threshold, daily, opt_estimate(out)),
        climatology_makes(
            a,
            window,
            target_date,
            threshold,
            daily.insert(at, day),
            opt_estimate(more),
        ),
    ensures
        more is Some,
        out is None ==> more->0.sample_size == 1,
        out is Some ==> more->0.sample_size == out->0.sample_size + 1,
        exists|hot: usize, hotter: usize|
            {
                &&& #[trigger] rises_if(day.high_temp_c->0.at_least(threshold), hot, hotter)
                &&& out is None ==> hot == 0
                &&& out is Some ==> call_ensures(
                    A::share,
                    (a, hot, out->0.sample_size),
                    out->0.probability,
                )
                &&& call_ensures(A::share, (a, hotter, more->0.sample_size), more->0.probability)
            },
{
    lemma_season_insert(target_date, window, daily, at, day);
    lemma_season(target_date, window, threshold, daily);
    let p = |s: DailySummary| s.high_temp_c is Some && ({
                let apart = s.local_date.ordinal_of() - target_date.ordinal_of();
                -window <= apart <= window || apart <= window - 366 || apart >= 366 - window
            });
    lemma_filter_holds(daily, p);
    assert(high_if(target_date, window, day) == day.high_temp_c);
    let before = season_highs(daily, target_date, window);
    let hot = hits(before, threshold);
    if let Some(e) = out {
        assert(opt_estimate(out) == Some(e@));
        assert(e@.sample_size == e.sample_size);
    }
    let e = more->0;
    assert(opt_estimate(more) == Some(e@));
    assert(e@.sample_size == e.sample_size);
    let hotter = hits(season_highs(daily.insert(at, day), target_date, window), threshold);
    law_hits_are_highs(before, threshold);
    assert(rises_if(day.high_temp_c->0.at_least(threshold), hot as usize, hotter as usize));
}

/// The estimate by analogs is the share of the votes of the analogs with an observed high, in their
/// order, each with its distance and a hit exactly where its high reaches the threshold, five
/// hundredths being added to each distance. There is none without such an analog.
pub proof fn law_analogs_with_a_high_vote<A: Arithmetic>(
    a: &A,
    analogs: Seq<AnalogResult>,
    threshold: Reading,
    as_of_hour: Option<u8>,
    out: Option<ProbabilityEstimate>,
)
    requires
        analogs.len() <= usize::MAX,
        analogs_make(a, analog_models(analogs), threshold, as_of_hour, opt_estimate(out)),
    ensures
        ({
            let voting = analogs.filter(|m: AnalogResult| m.observed_high_c is Some);
            &&& voting.len() == 0 ==> out is None
            &&& voting.len() > 0 ==> exists|list: &Vec<Vote>, share: Option<Reading>|
                {
                    &&& #[trigger] call_ensures(A::vote_share, (a, list, 5u32), share)
                    &&& list@.len() == voting.len()
                    &&& forall|k: int|
                        0 <= k < voting.len() ==> (#[trigger] list@[k]).distance
                            == voting[k].distance && list@[k].hit
                            == voting[k].observed_high_c->0.at_least(threshold)
                    &&& out is Some <==> share is Some
                    &&& out is Some ==> out->0.probability == share->0
                }
            &&& out is Some ==> {
                &&& out->0.sample_size == analogs.len()
                &&& out->0.weight_used is None
                &&& as_of_hour is Some ==> out->0.method@ == "partial-profile-analogs"@
                &&& as_of_hour is None ==> out->0.method@ == "nearest-neighbor-analogs"@
                &&& out->0.confidence_note is Some <==> exists|k: int|
                    0 <= k < analogs.len() && (#[trigger] analogs[k]).source_mix_note is Some
                &&& out->0.note is Some
                &&& out->0.note->0@ == "weighted by inverse profile distance"@
            }
        }),
{
    let models = analog_models(analogs);
    lemma_votes(analogs, threshold);
    let voting = analogs.filter(|m: AnalogResult| m.observed_high_c is Some);
    assert(models.len() == analogs.len());
    assert forall|k: int| 0 <= k < analogs.len()
        implies ((#[trigger] models[k]).source_mix_note is Some
        <==> analogs[k].source_mix_note is Some) by {
        assert(models[k] == analogs[k]@);
    }
    if voting.len() > 0 {
        let share = choose|share: Option<Reading>| #[trigger]
            vote_share_is(a, votes(models, threshold), share) && opt_estimate(out)
                == analog_estimate(models, as_of_hour, share);
        let list = choose|list: &Vec<Vote>|
            list@ == votes(models, threshold) && #[trigger] call_ensures(
                A::vote_share,
                (a, list, crate::probability::VOTE_SOFTENING),
                share,
            );
        assert(call_ensures(A::vote_share, (a, list, 5u32), share));
        if let Some(e) = out {
            assert(opt_estimate(out) == Some(e@));
            assert(e@.sample_size == e.sample_size);
            assert(e@.confidence_note is Some <==> e.confidence_note is Some);
            if exists|k: int| 0 <= k < analogs.len()
                && (#[trigger] analogs[k]).source_mix_note is Some {
                let k = choose|k: int|
                    0 <= k < analogs.len() && (#[trigger] analogs[k]).source_mix_note is Some;
                assert(models[k].source_mix_note is Some);
            }
        }
    }
}

proof fn lemma_votes(analogs: Seq<AnalogResult>, threshold: Reading)
    ensures
        ({
            let voting = analogs.filter(|m: AnalogResult| m.observed_high_c is Some);
            let list = votes(analog_models(analogs), threshold);
            &&& list.len() == voting.len()
            &&& forall|k: int|
                0 <= k < voting.len() ==> (#[trigger] list[k]).distance == voting[k].distance
                    && list[k].hit == voting[k].observed_high_c->0.at_least(threshold)
        }),
    decreases analogs.len(),
{
    reveal(Seq::filter);
    let models = analog_models(analogs);
    let all = Seq::new(
        models.len(),
        |k: int|
            match models[k].observed_high_c {
                Some(high) => Some(
                    Vote { distance: models[k].distance, hit: high.at_least(threshold) },
                ),
                None => None,
            },
    );
    if analogs.len() > 0 {
        let front = analogs.drop_last();
        let n = analogs.len() - 1;
        lemma_votes(front, threshold);
        let others = analog_models(front);
        assert(others =~= models.drop_last());
        let rest = Seq::new(
            others.len(),
            |k: int|
                match others[k].observed_high_c {
                    Some(high) => Some(
                        Vote { distance: others[k].distance, hit: high.at_least(threshold) },
                    ),
                    None => None,
                },
        );
        assert(all.drop_last() =~= rest);
        assert(all =~= rest.push(all.last()));
        lemma_kept_push(rest, all.last());
        assert(models[n] == analogs[n]@);
        assert(models[n].observed_high_c == analogs[n].observed_high_c);
    } else {
        assert(all =~= seq![]);
    }
}

/// Two estimates are combined: that of the season weighs twenty-five, that of the analogs thirty up
/// to an hour and twenty-five for a whole day. Each is listed with its share of the weight and is
/// otherwise as it was. One estimate alone is listed as it was, and nothing is combined.
pub proof fn law_two_estimates_are_weighed<A: Arithmetic>(
    a: &A,
    season: Option<ProbabilityEstimate>,
    analogs: Option<ProbabilityEstimate>,
    as_of_hour: Option<u8>,
    methods: Seq<ProbabilityEstimate>,
    combined: Option<CombinedProbability>,
)
    requires
        combines(
            a,
            opt_estimate(season),
            opt_estimate(analogs),
            as_of_hour,
            estimate_models(methods),
            combined_model(combined),
        ),
    ensures
        combined is Some <==> season is Some && analogs is Some,
        season is Some && analogs is Some ==> {
            &&& methods.len() == 2
            &&& methods[0].method@ == season->0.method@
            &&& methods[0].probability == season->0.probability
            &&& methods[0].sample_size == season->0.sample_size
            &&& methods[1].method@ == analogs->0.method@
            &&& methods[1].probability == analogs->0.probability
            &&& methods[1].sample_size == analogs->0.sample_size
            &&& methods[0].weight_used is Some
            &&& methods[1].weight_used is Some
            &&& as_of_hour is Some ==> call_ensures(
                A::share,
                (a, 25usize, 55usize),
                methods[0].weight_used->0,
            ) && call_ensures(A::share, (a, 30usize, 55usize), methods[1].weight_used->0)
            &&& as_of_hour is None ==> call_ensures(
                A::share,
                (a, 25usize, 50usize),
                methods[0].weight_used->0,
            ) && call_ensures(A::share, (a, 25usize, 50usize), methods[1].weight_used->0)
            &&& combined->0.method_count == 2
            &&& exists|list: &Vec<Weighted>|
                {
                    &&& #[trigger] call_ensures(A::blend, (a, list), combined->0.probability)
                    &&& list@.len() == 2
                    &&& list@[0].value == season->0.probability
                    &&& list@[0].weight_hundredths == 25
                    &&& list@[1].value == analogs->0.probability
                    &&& list@[1].weight_hundredths
                        == (if as_of_hour is Some { 30u32 } else { 25u32 })
                }
        },
        season is Some && analogs is None ==> methods.len() == 1 && methods[0]@ == season->0@,
        season is None && analogs is Some ==> methods.len() == 1 && methods[0]@ == analogs->0@,
        season is None && analogs is None ==> methods.len() == 0,
{
    let models = estimate_models(methods);
    assert(models.len() == methods.len());
    assert forall|k: int| 0 <= k < methods.len() implies #[trigger] models[k] == methods[k]@ by {}
    if let (Some(left), Some(right)) = (season, analogs) {
        assert(pair_combines(a, left@, right@, as_of_hour, models, combined_model(combined)));
        let model = combined_model(combined);
        lemma_pair(a, left@, right@, as_of_hour, models, model);
        assert(models[0] == methods[0]@ && models[1] == methods[1]@);
        assert(combined is Some);
        assert(model->0.probability == combined->0.probability);
        let list = choose|list: &Vec<Weighted>|
            #[trigger] call_ensures(A::blend, (a, list), model->0.probability) && list@ == seq![
                Weighted { value: left@.probability, weight_hundredths: 25 },
                Weighted {
                    value: right@.probability,
                    weight_hundredths: if as_of_hour is Some {
                        30
                    } else {
                        25
                    },
                },
            ];
        assert(call_ensures(A::blend, (a, list), combined->0.probability));
    } else {
        if methods.len() > 0 {
            assert(models[0] == methods[0]@);
        }
    }
}

proof fn lemma_pair<A: Arithmetic>(
    a: &A,
    left: EstimateModel,
    right: EstimateModel,
    as_of_hour: Option<u8>,
    methods: Seq<EstimateModel>,
    combined: Option<CombinedModel>,
)
    requires
        pair_combines(a, left, right, as_of_hour, methods, combined),
    ensures
        methods.len() == 2,
        methods[0].weight_used is Some,
        methods[1].weight_used is Some,
        methods[0] == (EstimateModel { weight_used: methods[0].weight_used, ..left }),
        methods[1] == (EstimateModel { weight_used: methods[1].weight_used, ..right }),
        share_is(
            a,
            25,
            if as_of_hour is Some {
                55
            } else {
                50
            },
            methods[0].weight_used->0,
        ),
        share_is(
            a,
            if as_of_hour is Some {
                30
            } else {
                25
            },
            if as_of_hour is Some {
                55
            } else {
                50
            },
            methods[1].weight_used->0,
        ),
        combined is Some,
        combined->0.method_count == 2,
        exists|list: &Vec<Weighted>| #[trigger]
            call_ensures(A::blend, (a, list), combined->0.probability) && list@ == seq![
                Weighted { value: left.probability, weight_hundredths: 25 },
                Weighted {
                    value: right.probability,
                    weight_hundredths: if as_of_hour is Some {
                        30
                    } else {
                        25
                    },
                },
            ],
{
    let other = crate::probability::analog_weight(as_of_hour);
    let whole = (crate::probability::SEASON_WEIGHT + other) as nat;
    let (first, second, blend) = choose|first: Reading, second: Reading, blend: Reading|
        {
            &&& #[trigger] share_is(a, crate::probability::SEASON_WEIGHT as nat, whole, first)
            &&& #[trigger] share_is(a, other as nat, whole, second)
            &&& #[trigger] blend_is(
                a,
                weighed(left.probability, right.probability, other),
                blend,
            )
            &&& methods == seq![
                EstimateModel { weight_used: Some(first), ..left },
                EstimateModel { weight_used: Some(second), ..right },
            ]
            &&& combined == Some(
                CombinedModel {
                    probability: blend,
                    method_count: 2,
                    combination_note: crate::probability::combination_note(),
                },
            )
        };
    assert(blend_is(a, weighed(left.probability, right.probability, other), blend));
    let list = choose|list: &Vec<Weighted>|
        list@ == weighed(left.probability, right.probability, other) && #[trigger] call_ensures(
            A::blend,
            (a, list),
            blend,
        );
    assert(call_ensures(A::blend, (a, list), combined->0.probability));
}

/// The state of the data is sparse exactly where there is no target profile or it has under two
/// observed hours up to an hour, or under six for a whole day. Otherwise it is normal exactly where
/// neither the target nor the summary or profile of any other day names the hourly source, and
/// mixed where one does.
pub proof fn law_quality_states_are_told_apart(
    target_date: Date,
    target: Option<&DayProfile>,
    daily: Seq<DailySummary>,
    profiles: Seq<DayProfile>,
    as_of_hour: Option<u8>,
)
    ensures
        ({
            let state = quality_state_of(target_date, target, daily, profiles, as_of_hour);
            let sparse = target is None || target->0.observed_hour_count < (if as_of_hour is Some {
                2int
            } else {
                6int
            });
            let hourly = {
                ||| texts(target->0.source_slugs@).contains("ghcnh"@)
                ||| exists|i: int|
                    0 <= i < profiles.len() && (#[trigger] profiles[i]).local_date != target_date
                        && texts(profiles[i].source_slugs@).contains("ghcnh"@)
                ||| exists|i: int|
                    0 <= i < daily.len() && (#[trigger] daily[i]).local_date != target_date
                        && texts(
                        daily[i].source_slugs@,
                    ).contains("ghcnh"@)
            };
            &&& sparse ==> state == "sparse-current-day"@
            &&& !sparse && hourly ==> state == "mixed-cadence"@
            &&& !sparse && !hourly ==> state == "normal"@
        }),
{
    assert(has_hourly_profile(profiles, target_date) <==> exists|i: int|
        0 <= i < profiles.len() && (#[trigger] profiles[i]).local_date != target_date && texts(
            profiles[i].source_slugs@,
        ).contains("ghcnh"@));
    assert(has_hourly_summary(daily, target_date) <==> exists|i: int|
        0 <= i < daily.len() && (#[trigger] daily[i]).local_date != target_date && texts(
            daily[i].source_slugs@,
        ).contains("ghcnh"@));
}

/// A report repeats what was asked for, its combined probability is that of the methods together,
/// and the season has a part in it exactly where some day with a high is at most fifteen days from
/// the date in the year, with as many samples as there are such days.
pub proof fn law_reports_tell_of_the_days_around_the_date<A: Arithmetic>(
    a: &A,
    station: Seq<char>,
    target_date: Date,
    threshold: Reading,
    daily: Seq<DailySummary>,
    profiles: Seq<DayProfile>,
    target: Option<&DayProfile>,
    as_of_hour: Option<u8>,
    out: ProbabilityBreakdown,
)
    requires
        daily.len() <= usize::MAX,
        breakdown_is(
            a,
            station,
            target_date,
            threshold,
            daily,
            profiles,
            target,
            as_of_hour,
            out@,
        ),
    ensures
        out.station_id@ == station,
        out.target_date == target_date,
        out.threshold_high_c == threshold,
        out.quality_state@ == quality_state_of(target_date, target, daily, profiles, as_of_hour),
        out.combined is Some <==> out.combined_probability is Some,
        out.combined is Some ==> out.combined->0.probability == out.combined_probability->0,
        out.combined is Some <==> out.methods@.len() >= 2,
        ({
            let near = daily.filter(
                |s: DailySummary| s.high_temp_c is Some && ({
                        let apart = s.local_date.ordinal_of() - target_date.ordinal_of();
                        -15 <= apart <= 15 || apart <= 15 - 366 || apart >= 366 - 15
                    }),
            );
            &&& near.len() > 0 ==> out.methods@.len() > 0 && out.methods@[0].method@
                == "seasonal-climatology"@ && out.methods@[0].sample_size == near.len()
            &&& near.len() == 0 ==> forall|k: int|
                0 <= k < out.methods@.len() ==> (#[trigger] out.methods@[k]).method@
                    != "seasonal-climatology"@
        }),
        target is None ==> forall|k: int|
            0 <= k < out.methods@.len() ==> (#[trigger] out.methods@[k]).method@
                == "seasonal-climatology"@,
{
    let (season, analogs) = choose|season: Option<EstimateModel>, analogs: Option<EstimateModel>|
        {
            &&& #[trigger] climatology_makes(a, 15, target_date, threshold, daily, season)
            &&& #[trigger] best_analogs_make(
                a,
                station,
                target_date,
                threshold,
                daily,
                profiles,
                target,
                as_of_hour,
                analogs,
            )
            &&& reports(
                a,
                station,
                target_date,
                threshold,
                quality_state_of(target_date, target, daily, profiles, as_of_hour),
                season,
                analogs,
                target,
                as_of_hour,
                out@,
            )
        };
    let model = out@;
    assert(model.methods.len() == out.methods@.len());
    assert forall|k: int| 0 <= k < out.methods@.len() implies #[trigger] model.methods[k]
        == out.methods@[k]@ by {}
    if out.methods@.len() > 0 {
        assert(model.methods[0] == out.methods@[0]@);
    }
    if out.methods@.len() > 1 {
        assert(model.methods[1] == out.methods@[1]@);
    }
    lemma_season(target_date, 15, threshold, daily);
    let p = |s: DailySummary| s.high_temp_c is Some && ({
                let apart = s.local_date.ordinal_of() - target_date.ordinal_of();
                -15 <= apart <= 15 || apart <= 15 - 366 || apart >= 366 - 15
            });
    lemma_filter_holds(daily, p);
    reveal_strlit("seasonal-climatology");
    reveal_strlit("partial-profile-analogs");
    reveal_strlit("nearest-neighbor-analogs");
    assert("seasonal-climatology"@[0] == 's');
    assert("partial-profile-analogs"@[0] == 'p');
    assert("nearest-neighbor-analogs"@[0] == 'n');
}

/// The estimate by analogs counts the other days that can be compared with the target, at most
/// thirty. There is none without a target profile.
pub proof fn law_at_most_thirty_analogs_vote<A: Arithmetic>(
    a: &A,
    station: Seq<char>,
    target_date: Date,
    threshold: Reading,
    daily: Seq<DailySummary>,
    profiles: Seq<DayProfile>,
    target: Option<&DayProfile>,
    as_of_hour: Option<u8>,
    out: Option<ProbabilityEstimate>,
)
    requires
        profiles.len() <= usize::MAX,
        best_analogs_make(
            a,
            station,
            target_date,
            threshold,
            daily,
            profiles,
            target,
            as_of_hour,
            opt_estimate(out),
        ),
    ensures
        target is None ==> out is None,
        out is Some ==> ({
            let comparable = profiles.filter(
                |p: DayProfile|
                    p.local_date != target_date && !profiles_apart(
                        a,
                        target->0.hours@,
                        p.hours@,
                        as_of_hour,
                        None,
                    ),
            ).len();
            out->0.sample_size == (if comparable < 30 {
                comparable
            } else {
                30
            })
        }),
{
    if let (Some(profile), Some(estimate)) = (target, out) {
        let analogs = choose|analogs: Seq<AnalogModel>| #[trigger]
            are_top_analogs(
                a,
                station,
                target_date,
                daily,
                profiles,
                *profile,
                as_of_hour,
                30,
                analogs,
            ) && analogs_make(a, analogs, threshold, as_of_hour, opt_estimate(out));
        law_comparable_days_are_counted(
            a,
            station,
            target_date,
            daily,
            profiles,
            *profile,
            as_of_hour,
            30,
            analogs,
        );
        assert(opt_estimate(out) == Some(estimate@));
        assert(votes_make(a, analogs, threshold, as_of_hour, opt_estimate(out)));
        assert((|p: DayProfile|
            p.local_date != target_date && !profiles_apart(
                a,
                target->0.hours@,
                p.hours@,
                as_of_hour,
                None,
            )) =~= (|p: DayProfile|
            p.local_date != target_date && !profiles_apart(
                a,
                profile.hours@,
                p.hours@,
                as_of_hour,
                None,
            )));
    }
}

/// The methods that are not available are told with the reason: the season where no day with a high
/// is near, the trajectory always, the analogs of a part of a day without an hour, those of whole
/// days with one, and otherwise the analogs for want of a target, of observed hours or of
/// comparable days.
pub proof fn law_methods_that_are_missing_are_explained<A: Arithmetic>(
    a: &A,
    station: Seq<char>,
    target_date: Date,
    threshold: Reading,
    daily: Seq<DailySummary>,
    profiles: Seq<DayProfile>,
    target: Option<&DayProfile>,
    as_of_hour: Option<u8>,
    out: ProbabilityBreakdown,
    k: int,
)
    requires
        breakdown_is(
            a,
            station,
            target_date,
            threshold,
            daily,
            profiles,
            target,
            as_of_hour,
            out@,
        ),
        0 <= k < out.unavailable_methods@.len(),
    ensures
        ({
            let method = out.unavailable_methods@[k].method@;
            let reason = out.unavailable_methods@[k].reason@;
            let hours = target->0.observed_hour_count as nat;
            let fewest = if as_of_hour is Some { 2nat } else { 6nat };
            let analogs = method == "partial-profile-analogs"@ && as_of_hour is Some || method
                == "nearest-neighbor-analogs"@ && as_of_hour is None;
            &&& method == "seasonal-climatology"@ ==> reason
                == "no daily highs within +/-15 calendar days"@
            &&& method == "temperature-trajectory"@
                ==> reason == "no trajectory model is available"@
            &&& method == "partial-profile-analogs"@ && as_of_hour is None ==> reason
                == "no as-of hour is given"@
            &&& method == "nearest-neighbor-analogs"@ && as_of_hour is Some ==> reason
                == "whole days are not compared as of an hour"@
            &&& analogs && target is None ==> reason == "no target profile is available"@
            &&& analogs && target is Some && hours < fewest ==> reason == "target profile has "@
                + digits(hours) + " observed hours; "@ + digits(fewest) + " required"@
            &&& analogs && target is Some && hours >= fewest ==> reason
                == "no comparable analog days with an observed high"@
        }),
{
    let (season, analogs) = choose|season: Option<EstimateModel>, analogs: Option<EstimateModel>|
        {
            &&& #[trigger] climatology_makes(a, 15, target_date, threshold, daily, season)
            &&& #[trigger] best_analogs_make(
                a,
                station,
                target_date,
                threshold,
                daily,
                profiles,
                target,
                as_of_hour,
                analogs,
            )
            &&& reports(
                a,
                station,
                target_date,
                threshold,
                quality_state_of(target_date, target, daily, profiles, as_of_hour),
                season,
                analogs,
                target,
                as_of_hour,
                out@,
            )
        };
    let list = out@.unavailable_methods;
    assert(list.len() == out.unavailable_methods@.len());
    let item = list[k];
    assert(item == (out.unavailable_methods@[k].method@, out.unavailable_methods@[k].reason@));
    lemma_listed(season, analogs, target, as_of_hour, k);
}

proof fn lemma_listed(
    season: Option<EstimateModel>,
    analogs: Option<EstimateModel>,
    target: Option<&DayProfile>,
    as_of_hour: Option<u8>,
    k: int,
)
    requires
        0 <= k < unavailable(season, analogs, target, as_of_hour).len(),
    ensures
        ({
            let (method, reason) = unavailable(season, analogs, target, as_of_hour)[k];
            &&& method == "seasonal-climatology"@ ==> reason
                == "no daily highs within +/-15 calendar days"@
            &&& method == "temperature-trajectory"@
                ==> reason == "no trajectory model is available"@
            &&& method == "partial-profile-analogs"@ ==> reason == (if as_of_hour is None {
                "no as-of hour is given"@
            } else {
                analog_reason(target, as_of_hour)
            })
            &&& method == "nearest-neighbor-analogs"@ ==> reason == (if as_of_hour is Some {
                "whole days are not compared as of an hour"@
            } else {
                analog_reason(target, as_of_hour)
            })
        }),
{
    reveal_strlit("seasonal-climatology");
    reveal_strlit("temperature-trajectory");
    reveal_strlit("partial-profile-analogs");
    reveal_strlit("nearest-neighbor-analogs");
    assert("seasonal-climatology"@[0] == 's');
    assert("temperature-trajectory"@[0] == 't');
    assert("partial-profile-analogs"@[0] == 'p');
    assert("nearest-neighbor-analogs"@[0] == 'n');
}

} // verus!
