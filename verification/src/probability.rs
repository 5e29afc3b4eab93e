//! How likely a day is to reach a high, by its season and by its analogs.
use vstd::prelude::*;
use crate::analogs::{
    analog_models, are_top_analogs, fewest_hours, has_hourly, is_hourly, minimum_analog_hours,
    top_analogs,
};
use crate::calendar::Date;
use crate::domain::{
    kept, lemma_kept_push, opt_estimate, AnalogModel, AnalogResult, BreakdownModel, CombinedModel,
    CombinedProbability, DailySummary, DayProfile, EstimateModel, Failure, MethodAvailability,
    ProbabilityBreakdown, ProbabilityEstimate, StationId,
};
use crate::numeral::{decimal, digits};
use crate::reading::{Arithmetic, Reading, Vote, Weighted};
use crate::text::texts;

verus! {

/// A way to estimate the probability that a day reaches a high.
pub trait ProbabilityMethod {
    fn name(&self) -> &'static str;

    fn estimate<A: Arithmetic>(
        &self,
        a: &A,
        station_id: &StationId,
        target_date: Date,
        threshold_high_c: Reading,
        daily: &Vec<DailySummary>,
        profiles: &Vec<DayProfile>,
        target_profile: Option<&DayProfile>,
        as_of_hour: Option<u8>,
    ) -> Option<ProbabilityEstimate>;
}

/// The date that is asked for: a given one, or today, but not both.
pub fn target_date_or_today(date: Option<Date>, today: bool, local_today: Date) -> (r: Result<
    Date,
    Failure,
>)
    ensures
        match r {
            Ok(target) => match date {
                Some(given) => !today && target == given,
                None => today && target == local_today,
            },
            Err(failure) => match date {
                Some(_) => today && failure.message@ == "--date and --today are mutually exclusive"@,
                None => !today && failure.message@ == "pass either --date YYYY-MM-DD or --today"@,
            },
        },
{
    match (date, today) {
        (Some(date), false) => Ok(date),
        (None, true) => Ok(local_today),
        (None, false) => Err(Failure::new("pass either --date YYYY-MM-DD or --today")),
        (Some(_), true) => Err(Failure::new("--date and --today are mutually exclusive")),
    }
}

/// The days between two days of the year, over the turn of the year where that is shorter.
pub open spec fn season_gap(left: int, right: int) -> int {
    let apart = if left < right {
        right - left
    } else {
        left - right
    };
    if apart < 366 - apart {
        apart
    } else {
        366 - apart
    }
}

/// The days between two days of the year, over the turn of the year where that is shorter.
pub fn seasonal_distance(left: i32, right: i32) -> (r: i32)
    requires
        i32::MIN < left - right <= i32::MAX,
    ensures
        r == season_gap(left as int, right as int),
{
    let delta: i32 = if left < right {
        right - left
    } else {
        left - right
    };
    let around: i32 = 366 - delta;
    if delta < around {
        delta
    } else {
        around
    }
}

/// The season gap is the same both ways, and of two days of a year it is at most half a year.
pub proof fn law_season_gap(left: int, right: int)
    requires
        1 <= left <= 366,
        1 <= right <= 366,
    ensures
        season_gap(left, right) == season_gap(right, left),
        0 <= season_gap(left, right) <= 183,
        season_gap(left, left) == 0,
{
}

/// The highs of the days within `window` days of the season of the target.
pub open spec fn season_highs(daily: Seq<DailySummary>, target: Date, window: int) -> Seq<Reading> {
    kept(
        Seq::new(
            daily.len(),
            |i: int|
                if season_gap(target.ordinal_of(), daily[i].local_date.ordinal_of()) <= window {
                    daily[i].high_temp_c
                } else {
                    None
                },
        ),
    )
}

/// The number of highs that reach the threshold.
pub open spec fn hits(highs: Seq<Reading>, threshold: Reading) -> nat
    decreases highs.len(),
{
    if highs.len() == 0 {
        0
    } else {
        hits(highs.drop_last(), threshold) + (if highs.last().at_least(threshold) {
            1nat
        } else {
            0nat
        })
    }
}

/// At most all highs reach the threshold.
pub proof fn law_hits_are_highs(highs: Seq<Reading>, threshold: Reading)
    ensures
        hits(highs, threshold) <= highs.len(),
    decreases highs.len(),
{
    if highs.len() > 0 {
        law_hits_are_highs(highs.drop_last(), threshold);
    }
}

/// The arithmetic makes this the share of the hits.
pub open spec fn share_is<A: Arithmetic>(a: &A, part: nat, whole: nat, share: Reading) -> bool {
    call_ensures(A::share, (a, part as usize, whole as usize), share)
}

pub open spec fn window_note(window: int) -> Seq<char> {
    "window=+/-"@ + digits(window as nat) + " calendar days"@
}

/// What the season makes of the probability: the share of the highs that reach the threshold;
/// nothing where there are no highs.
pub open spec fn climatology_makes<A: Arithmetic>(
    a: &A,
    window: int,
    target_date: Date,
    threshold: Reading,
    daily: Seq<DailySummary>,
    out: Option<EstimateModel>,
) -> bool {
    let highs = season_highs(daily, target_date, window);
    match out {
        None => highs.len() == 0,
        Some(estimate) => {
            &&& highs.len() > 0
            &&& share_is(a, hits(highs, threshold), highs.len(), estimate.probability)
            &&& estimate == EstimateModel {
                method: "seasonal-climatology"@,
                probability: estimate.probability,
                sample_size: highs.len() as usize,
                weight_used: None,
                confidence_note: None,
                note: Some(window_note(window)),
            }
        },
    }
}

/// Estimates by the days of the same season, at most `window_days` away in the year.
#[derive(Debug, Clone, Copy)]
pub struct ClimatologyMethod {
    pub window_days: u16,
}

fn count_season(daily: &Vec<DailySummary>, target: Date, threshold: Reading, window: u16) -> (r: (
    usize,
    usize,
))
    ensures
        r.0 == hits(season_highs(daily@, target, window as int), threshold),
        r.1 == season_highs(daily@, target, window as int).len(),
{
    let target_ordinal: i32 = target.ordinal() as i32;
    let ghost all = Seq::new(
        daily@.len(),
        |i: int|
            if season_gap(target.ordinal_of(), daily@[i].local_date.ordinal_of()) <= window as int {
                daily@[i].high_temp_c
            } else {
                None
            },
    );
    let mut matched: usize = 0;
    let mut hit: usize = 0;
    let mut i: usize = 0;
    assert(all.take(0) =~= seq![]);
    while i < daily.len()
        invariant
            i <= daily@.len(),
            target_ordinal == target.ordinal_of(),
            1 <= target_ordinal <= 366,
            all == Seq::new(
                daily@.len(),
                |i: int|
                    if season_gap(target.ordinal_of(), daily@[i].local_date.ordinal_of())
                        <= window as int {
                        daily@[i].high_temp_c
                    } else {
                        None
                    },
            ),
            hit <= matched <= i,
            matched == kept(all.take(i as int)).len(),
            hit == hits(kept(all.take(i as int)), threshold),
        decreases daily@.len() - i,
    {
        proof {
            lemma_kept_push(all.take(i as int), all[i as int]);
            assert(all.take(i as int).push(all[i as int]) =~= all.take(i + 1));
        }
        let ordinal: i32 = daily[i].local_date.ordinal() as i32;
        if seasonal_distance(target_ordinal, ordinal) <= window as i32 {
            if let Some(high) = daily[i].high_temp_c {
                proof {
                    let before = kept(all.take(i as int));
                    assert(before.push(high).drop_last() =~= before);
                }
                matched += 1;
                if high.reaches(threshold) {
                    hit += 1;
                }
            }
        }
        i += 1;
    }
    assert(all.take(i as int) =~= all);
    (hit, matched)
}

impl ProbabilityMethod for ClimatologyMethod {
    fn name(&self) -> (r: &'static str)
        ensures
            r@ == "seasonal-climatology"@,
    {
        "seasonal-climatology"
    }

    /// The share of the days of the season whose high reached the threshold; none where no day of
    /// the season has a high.
    fn estimate<A: Arithmetic>(
        &self,
        a: &A,
        station_id: &StationId,
        target_date: Date,
        threshold_high_c: Reading,
        daily: &Vec<DailySummary>,
        profiles: &Vec<DayProfile>,
        target_profile: Option<&DayProfile>,
        as_of_hour: Option<u8>,
    ) -> (r: Option<ProbabilityEstimate>)
        ensures
            climatology_makes(
                a,
                self.window_days as int,
                target_date,
                threshold_high_c,
                daily@,
                opt_estimate(r),
            ),
    {
        let (hit, matched) = count_season(daily, target_date, threshold_high_c, self.window_days);
        if matched == 0 {
            return None;
        }
        let mut note: String = "window=+/-".to_string();
        note.append(&decimal(self.window_days as u128));
        note.append(" calendar days");
        Some(
            ProbabilityEstimate {
                method: self.name().to_string(),
                probability: a.share(hit, matched),
                sample_size: matched,
                weight_used: None,
                confidence_note: None,
                note: Some(note),
            },
        )
    }
}

/// The analogs with a high, each with its distance and whether its high reached the threshold.
pub open spec fn votes(analogs: Seq<AnalogModel>, threshold: Reading) -> Seq<Vote> {
    kept(
        Seq::new(
            analogs.len(),
            |k: int|
                match analogs[k].observed_high_c {
                    Some(high) => Some(
                        Vote { distance: analogs[k].distance, hit: high.at_least(threshold) },
                    ),
                    None => None,
                },
        ),
    )
}

/// What is added to the distance of a vote before it is weighed, in hundredths.
pub const VOTE_SOFTENING: u32 = 5;

/// The arithmetic makes this the share of the votes.
pub open spec fn vote_share_is<A: Arithmetic>(
    a: &A,
    votes: Seq<Vote>,
    share: Option<Reading>,
) -> bool {
    exists|list: &Vec<Vote>|
        list@ == votes && #[trigger] call_ensures(
            A::vote_share,
            (a, list, VOTE_SOFTENING),
            share,
        )
}

/// The name of the estimate by analogs: of a part of a day, or of a whole day.
pub open spec fn analog_method(as_of_hour: Option<u8>) -> Seq<char> {
    match as_of_hour {
        Some(_) => "partial-profile-analogs"@,
        None => "nearest-neighbor-analogs"@,
    }
}

/// One of the analogs has observations of the hourly source.
pub open spec fn is_mixed_pool(analogs: Seq<AnalogModel>) -> bool {
    exists|k: int| 0 <= k < analogs.len() && (#[trigger] analogs[k]).source_mix_note is Some
}

/// What is said of a pool of analogs with observations of the hourly source.
pub open spec fn pool_note(analogs: Seq<AnalogModel>) -> Option<Seq<char>> {
    if is_mixed_pool(analogs) {
        Some("mixed-cadence candidate pool includes ghcnh"@)
    } else {
        None
    }
}

/// The estimate by analogs whose share of votes is this.
pub open spec fn analog_estimate(
    analogs: Seq<AnalogModel>,
    as_of_hour: Option<u8>,
    share: Option<Reading>,
) -> Option<EstimateModel> {
    match share {
        Some(probability) => Some(
            EstimateModel {
                method: analog_method(as_of_hour),
                probability,
                sample_size: analogs.len() as usize,
                weight_used: None,
                confidence_note: pool_note(analogs),
                note: Some("weighted by inverse profile distance"@),
            },
        ),
        None => None,
    }
}

/// What these analogs make of the probability; nothing where none of them has an observed high.
pub open spec fn analogs_make<A: Arithmetic>(
    a: &A,
    analogs: Seq<AnalogModel>,
    threshold: Reading,
    as_of_hour: Option<u8>,
    out: Option<EstimateModel>,
) -> bool {
    if votes(analogs, threshold).len() == 0 {
        out is None
    } else {
        votes_make(a, analogs, threshold, as_of_hour, out)
    }
}

pub open spec fn votes_make<A: Arithmetic>(
    a: &A,
    analogs: Seq<AnalogModel>,
    threshold: Reading,
    as_of_hour: Option<u8>,
    out: Option<EstimateModel>,
) -> bool {
    exists|share: Option<Reading>| #[trigger]
        vote_share_is(a, votes(analogs, threshold), share) && out == analog_estimate(
            analogs,
            as_of_hour,
            share,
        )
}

fn collect_votes(analogs: &Vec<AnalogResult>, threshold: Reading) -> (r: Vec<Vote>)
    ensures
        r@ == votes(analog_models(analogs@), threshold),
{
    let ghost models = analog_models(analogs@);
    let ghost all = Seq::new(
        models.len(),
        |k: int|
            match models[k].observed_high_c {
                Some(high) => Some(
                    Vote { distance: models[k].distance, hit: high.at_least(threshold) },
                ),
                None => None,
            },
    );
    let mut list: Vec<Vote> = Vec::new();
    let mut i: usize = 0;
    assert(all.take(0) =~= seq![]);
    while i < analogs.len()
        invariant
            i <= analogs@.len(),
            models == analog_models(analogs@),
            all == Seq::new(
                models.len(),
                |k: int|
                    match models[k].observed_high_c {
                        Some(high) => Some(
                            Vote { distance: models[k].distance, hit: high.at_least(threshold) },
                        ),
                        None => None,
                    },
            ),
            list@ == kept(all.take(i as int)),
        decreases analogs@.len() - i,
    {
        proof {
            assert(models[i as int] == analogs@[i as int]@);
            lemma_kept_push(all.take(i as int), all[i as int]);
            assert(all.take(i as int).push(all[i as int]) =~= all.take(i + 1));
        }
        if let Some(high) = analogs[i].observed_high_c {
            list.push(Vote { distance: analogs[i].distance, hit: high.reaches(threshold) });
        }
        i += 1;
    }
    assert(all.take(i as int) =~= all);
    list
}

fn any_mixed(analogs: &Vec<AnalogResult>) -> (r: bool)
    ensures
        r == is_mixed_pool(analog_models(analogs@)),
{
    let ghost models = analog_models(analogs@);
    let mut i: usize = 0;
    while i < analogs.len()
        invariant
            i <= analogs@.len(),
            models == analog_models(analogs@),
            forall|k: int| 0 <= k < i ==> (#[trigger] models[k]).source_mix_note is None,
        decreases analogs@.len() - i,
    {
        assert(models[i as int] == analogs@[i as int]@);
        if analogs[i].source_mix_note.is_some() {
            assert(models[i as int].source_mix_note is Some);
            return true;
        }
        i += 1;
    }
    false
}

/// What analogs make of the probability: the share of those whose high reached the threshold, the
/// closer weighing the more; nothing where none of them has an observed high.
pub fn estimate_from_analogs<A: Arithmetic>(
    a: &A,
    analogs: &Vec<AnalogResult>,
    threshold_high_c: Reading,
    as_of_hour: Option<u8>,
) -> (r: Option<ProbabilityEstimate>)
    ensures
        analogs_make(
            a,
            analog_models(analogs@),
            threshold_high_c,
            as_of_hour,
            opt_estimate(r),
        ),
{
    let list = collect_votes(analogs, threshold_high_c);
    if list.len() == 0 {
        return None;
    }
    let borrowed = &list;
    let share = a.vote_share(borrowed, VOTE_SOFTENING);
    let ghost models = analog_models(analogs@);
    assert(vote_share_is(a, votes(models, threshold_high_c), share)) by {
        assert(borrowed@ == votes(models, threshold_high_c));
    }
    let r = match share {
        Some(probability) => {
            let method: String = if as_of_hour.is_some() {
                "partial-profile-analogs".to_string()
            } else {
                "nearest-neighbor-analogs".to_string()
            };
            let confidence_note = if any_mixed(analogs) {
                Some("mixed-cadence candidate pool includes ghcnh".to_string())
            } else {
                None
            };
            Some(
                ProbabilityEstimate {
                    method,
                    probability,
                    sample_size: analogs.len(),
                    weight_used: None,
                    confidence_note,
                    note: Some("weighted by inverse profile distance".to_string()),
                },
            )
        },
        None => None,
    };
    assert(opt_estimate(r) == analog_estimate(models, as_of_hour, share));
    assert(votes_make(a, models, threshold_high_c, as_of_hour, opt_estimate(r)));
    r
}

/// What the thirty best analogs make of the probability; nothing without a target profile.
pub open spec fn best_analogs_make<A: Arithmetic>(
    a: &A,
    station: Seq<char>,
    target_date: Date,
    threshold: Reading,
    daily: Seq<DailySummary>,
    profiles: Seq<DayProfile>,
    target: Option<&DayProfile>,
    as_of_hour: Option<u8>,
    out: Option<EstimateModel>,
) -> bool {
    match target {
        Some(profile) => pool_makes(
            a,
            station,
            target_date,
            threshold,
            daily,
            profiles,
            *profile,
            as_of_hour,
            out,
        ),
        None => out is None,
    }
}

pub open spec fn pool_makes<A: Arithmetic>(
    a: &A,
    station: Seq<char>,
    target_date: Date,
    threshold: Reading,
    daily: Seq<DailySummary>,
    profiles: Seq<DayProfile>,
    target: DayProfile,
    as_of_hour: Option<u8>,
    out: Option<EstimateModel>,
) -> bool {
    exists|analogs: Seq<AnalogModel>| #[trigger]
        are_top_analogs(
            a,
            station,
            target_date,
            daily,
            profiles,
            target,
            as_of_hour,
            30,
            analogs,
        ) && analogs_make(a, analogs, threshold, as_of_hour, out)
}

/// What the thirty best analogs make of the probability.
pub fn analog_probability_estimate<A: Arithmetic>(
    a: &A,
    station_id: &StationId,
    target_date: Date,
    threshold_high_c: Reading,
    daily: &Vec<DailySummary>,
    profiles: &Vec<DayProfile>,
    target_profile: Option<&DayProfile>,
    as_of_hour: Option<u8>,
) -> (r: Option<ProbabilityEstimate>)
    ensures
        best_analogs_make(
            a,
            station_id@,
            target_date,
            threshold_high_c,
            daily@,
            profiles@,
            target_profile,
            as_of_hour,
            opt_estimate(r),
        ),
{
    match target_profile {
        Some(profile) => {
            let analogs = top_analogs(
                a,
                station_id,
                target_date,
                daily,
                profiles,
                profile,
                as_of_hour,
                30,
            );
            let r = estimate_from_analogs(a, &analogs, threshold_high_c, as_of_hour);
            assert(pool_makes(
                a,
                station_id@,
                target_date,
                threshold_high_c,
                daily@,
                profiles@,
                *profile,
                as_of_hour,
                opt_estimate(r),
            ));
            r
        },
        None => None,
    }
}

/// One of the profiles of other days has observations of the hourly source.
pub open spec fn has_hourly_profile(profiles: Seq<DayProfile>, target_date: Date) -> bool {
    exists|i: int|
        0 <= i < profiles.len() && (#[trigger] profiles[i]).local_date != target_date && is_hourly(
            texts(profiles[i].source_slugs@),
        )
}

/// One of the summaries of other days has observations of the hourly source.
pub open spec fn has_hourly_summary(daily: Seq<DailySummary>, target_date: Date) -> bool {
    exists|i: int|
        0 <= i < daily.len() && (#[trigger] daily[i]).local_date != target_date && is_hourly(
            texts(daily[i].source_slugs@),
        )
}

/// The state of the data: sparse where the target has too few hours, mixed where observations of
/// the hourly source are among them, normal otherwise.
pub open spec fn quality_state_of(
    target_date: Date,
    target: Option<&DayProfile>,
    daily: Seq<DailySummary>,
    profiles: Seq<DayProfile>,
    as_of_hour: Option<u8>,
) -> Seq<char> {
    match target {
        None => "sparse-current-day"@,
        Some(profile) => if profile.observed_hour_count < fewest_hours(as_of_hour) {
            "sparse-current-day"@
        } else if is_hourly(texts(profile.source_slugs@)) || has_hourly_profile(
            profiles,
            target_date,
        ) || has_hourly_summary(daily, target_date) {
            "mixed-cadence"@
        } else {
            "normal"@
        },
    }
}

fn any_hourly_profile(profiles: &Vec<DayProfile>, target_date: Date) -> (r: bool)
    ensures
        r == has_hourly_profile(profiles@, target_date),
{
    let mut i: usize = 0;
    while i < profiles.len()
        invariant
            i <= profiles@.len(),
            forall|k: int|
                0 <= k < i ==> (#[trigger] profiles@[k]).local_date == target_date || !is_hourly(
                    texts(profiles@[k].source_slugs@),
                ),
        decreases profiles@.len() - i,
    {
        if !profiles[i].local_date.same(target_date) && has_hourly(&profiles[i].source_slugs) {
            assert(profiles@[i as int].local_date != target_date);
            return true;
        }
        i += 1;
    }
    false
}

fn any_hourly_summary(daily: &Vec<DailySummary>, target_date: Date) -> (r: bool)
    ensures
        r == has_hourly_summary(daily@, target_date),
{
    let mut i: usize = 0;
    while i < daily.len()
        invariant
            i <= daily@.len(),
            forall|k: int|
                0 <= k < i ==> (#[trigger] daily@[k]).local_date == target_date || !is_hourly(
                    texts(daily@[k].source_slugs@),
                ),
        decreases daily@.len() - i,
    {
        if !daily[i].local_date.same(target_date) && has_hourly(&daily[i].source_slugs) {
            assert(daily@[i as int].local_date != target_date);
            return true;
        }
        i += 1;
    }
    false
}

/// The state of the data behind a probability or a search for analogs.
pub fn probability_quality_state(
    target_date: Date,
    target_profile: Option<&DayProfile>,
    daily: &Vec<DailySummary>,
    profiles: &Vec<DayProfile>,
    as_of_hour: Option<u8>,
) -> (r: String)
    ensures
        r@ == quality_state_of(target_date, target_profile, daily@, profiles@, as_of_hour),
{
    match target_profile {
        None => "sparse-current-day".to_string(),
        Some(profile) => {
            if profile.observed_hour_count < minimum_analog_hours(as_of_hour) {
                "sparse-current-day".to_string()
            } else if has_hourly(&profile.source_slugs) || any_hourly_profile(profiles, target_date)
                || any_hourly_summary(daily, target_date) {
                "mixed-cadence".to_string()
            } else {
                "normal".to_string()
            }
        },
    }
}

/// The weight of the estimate by season, in hundredths.
pub const SEASON_WEIGHT: u32 = 25;

/// The weight of an estimate by analogs, in hundredths.
pub open spec fn analog_weight(as_of_hour: Option<u8>) -> u32 {
    match as_of_hour {
        Some(_) => 30,
        None => 25,
    }
}

/// The arithmetic makes this the mean of the values under their weights.
pub open spec fn blend_is<A: Arithmetic>(a: &A, values: Seq<Weighted>, blend: Reading) -> bool {
    exists|list: &Vec<Weighted>| list@ == values && #[trigger] call_ensures(A::blend, (a, list), blend)
}

pub open spec fn combination_note() -> Seq<char> {
    "fixed weights renormalized across available methods"@
}

/// The estimates together: both are weighed, the weights summing up to the whole; where only one
/// is there, or none, nothing is combined.
pub open spec fn combines<A: Arithmetic>(
    a: &A,
    season: Option<EstimateModel>,
    analogs: Option<EstimateModel>,
    as_of_hour: Option<u8>,
    methods: Seq<EstimateModel>,
    combined: Option<CombinedModel>,
) -> bool {
    match (season, analogs) {
        (Some(left), Some(right)) => pair_combines(a, left, right, as_of_hour, methods, combined),
        (Some(only), None) => methods == seq![only] && combined is None,
        (None, Some(only)) => methods == seq![only] && combined is None,
        (None, None) => methods == Seq::<EstimateModel>::empty() && combined is None,
    }
}

/// The estimates by season and by analogs, each with its weight.
pub open spec fn weighed(season: Reading, analogs: Reading, analog_weight: u32) -> Seq<Weighted> {
    seq![
        Weighted { value: season, weight_hundredths: SEASON_WEIGHT },
        Weighted { value: analogs, weight_hundredths: analog_weight },
    ]
}

pub open spec fn pair_combines<A: Arithmetic>(
    a: &A,
    left: EstimateModel,
    right: EstimateModel,
    as_of_hour: Option<u8>,
    methods: Seq<EstimateModel>,
    combined: Option<CombinedModel>,
) -> bool {
    let other = analog_weight(as_of_hour);
    let whole = (SEASON_WEIGHT + other) as nat;
    exists|first: Reading, second: Reading, blend: Reading|
        {
            &&& #[trigger] share_is(a, SEASON_WEIGHT as nat, whole, first)
            &&& #[trigger] share_is(a, other as nat, whole, second)
            &&& #[trigger] blend_is(
                a,
                weighed(left.probability, right.probability, other),
                blend,
            )
            &&& methods == seq![
                EstimateModel { weight_used: Some(first), ..left },
                EstimateModel { weight_used: Some(second), ..right },
            ]
            &&& combined == Some(
                CombinedModel {
                    probability: blend,
                    method_count: 2,
                    combination_note: combination_note(),
                },
            )
        }
}

/// A method that made nothing of the probability.
pub open spec fn unavailable_if(missing: bool, method: Seq<char>, reason: Seq<char>) -> Seq<
    (Seq<char>, Seq<char>),
> {
    if missing {
        seq![(method, reason)]
    } else {
        seq![]
    }
}

/// Why there is no estimate by analogs.
pub open spec fn analog_reason(target: Option<&DayProfile>, as_of_hour: Option<u8>) -> Seq<char> {
    match target {
        None => "no target profile is available"@,
        Some(profile) => if profile.observed_hour_count < fewest_hours(as_of_hour) {
            "target profile has "@ + digits(profile.observed_hour_count as nat)
                + " observed hours; "@ + digits(fewest_hours(as_of_hour) as nat) + " required"@
        } else {
            "no comparable analog days with an observed high"@
        },
    }
}

/// The methods that made nothing of the probability, and why.
pub open spec fn unavailable(
    season: Option<EstimateModel>,
    analogs: Option<EstimateModel>,
    target: Option<&DayProfile>,
    as_of_hour: Option<u8>,
) -> Seq<(Seq<char>, Seq<char>)> {
    unavailable_if(
        season is None,
        "seasonal-climatology"@,
        "no daily highs within +/-15 calendar days"@,
    ) + unavailable_if(
        true,
        "temperature-trajectory"@,
        "no trajectory model is available"@,
    ) + unavailable_if(
        as_of_hour is None || analogs is None,
        "partial-profile-analogs"@,
        if as_of_hour is None {
            "no as-of hour is given"@
        } else {
            analog_reason(target, as_of_hour)
        },
    ) + unavailable_if(
        as_of_hour is Some || analogs is None,
        "nearest-neighbor-analogs"@,
        if as_of_hour is Some {
            "whole days are not compared as of an hour"@
        } else {
            analog_reason(target, as_of_hour)
        },
    )
}

/// The report on these estimates.
pub open spec fn reports<A: Arithmetic>(
    a: &A,
    station: Seq<char>,
    target_date: Date,
    threshold: Reading,
    quality_state: Seq<char>,
    season: Option<EstimateModel>,
    analogs: Option<EstimateModel>,
    target: Option<&DayProfile>,
    as_of_hour: Option<u8>,
    out: BreakdownModel,
) -> bool {
    &&& combines(a, season, analogs, as_of_hour, out.methods, out.combined)
    &&& out == BreakdownModel {
        station,
        target_date,
        threshold_high_c: threshold,
        quality_state,
        methods: out.methods,
        unavailable_methods: unavailable(season, analogs, target, as_of_hour),
        combined: out.combined,
        combined_probability: match out.combined {
            Some(combined) => Some(combined.probability),
            None => None,
        },
    }
}

/// A combined probability is given exactly where at least two methods are there.
pub proof fn law_combined_needs_two_methods<A: Arithmetic>(
    a: &A,
    season: Option<EstimateModel>,
    analogs: Option<EstimateModel>,
    as_of_hour: Option<u8>,
    methods: Seq<EstimateModel>,
    combined: Option<CombinedModel>,
)
    requires
        combines(a, season, analogs, as_of_hour, methods, combined),
    ensures
        combined is Some <==> methods.len() >= 2,
        combined matches Some(c) ==> c.method_count == methods.len(),
{
}

fn push_unavailable_if(
    list: &mut Vec<MethodAvailability>,
    missing: bool,
    method: String,
    reason: String,
)
    ensures
        availability(final(list)@) == availability(old(list)@) + unavailable_if(
            missing,
            method@,
            reason@,
        ),
{
    let ghost before = list@;
    if missing {
        let item = MethodAvailability { method, reason };
        list.push(item);
        assert(availability(list@) =~= availability(before) + unavailable_if(
            missing,
            item.method@,
            item.reason@,
        ));
    } else {
        assert(availability(list@) =~= availability(before) + unavailable_if(
            missing,
            method@,
            reason@,
        ));
    }
}

pub open spec fn availability(list: Seq<MethodAvailability>) -> Seq<(Seq<char>, Seq<char>)> {
    list.map_values(|method: MethodAvailability| (method.method@, method.reason@))
}

fn explain_analogs(target: Option<&DayProfile>, as_of_hour: Option<u8>) -> (r: String)
    ensures
        r@ == analog_reason(target, as_of_hour),
{
    match target {
        None => "no target profile is available".to_string(),
        Some(profile) => {
            let fewest: usize = minimum_analog_hours(as_of_hour);
            if profile.observed_hour_count < fewest {
                let mut reason: String = "target profile has ".to_string();
                reason.append(&decimal(profile.observed_hour_count as u128));
                reason.append(" observed hours; ");
                reason.append(&decimal(fewest as u128));
                reason.append(" required");
                reason
            } else {
                "no comparable analog days with an observed high".to_string()
            }
        },
    }
}

fn explain_missing(
    season_missing: bool,
    analogs_missing: bool,
    target: Option<&DayProfile>,
    as_of_hour: Option<u8>,
    Ghost(season): Ghost<Option<EstimateModel>>,
    Ghost(analogs): Ghost<Option<EstimateModel>>,
) -> (r: Vec<MethodAvailability>)
    requires
        season_missing == (season is None),
        analogs_missing == (analogs is None),
    ensures
        availability(r@) == unavailable(season, analogs, target, as_of_hour),
{
    let mut list: Vec<MethodAvailability> = Vec::new();
    assert(availability(list@) =~= seq![]);
    push_unavailable_if(
        &mut list,
        season_missing,
        "seasonal-climatology".to_string(),
        "no daily highs within +/-15 calendar days".to_string(),
    );
    push_unavailable_if(
        &mut list,
        true,
        "temperature-trajectory".to_string(),
        "no trajectory model is available".to_string(),
    );
    let partial: String = if as_of_hour.is_none() {
        "no as-of hour is given".to_string()
    } else {
        explain_analogs(target, as_of_hour)
    };
    push_unavailable_if(
        &mut list,
        as_of_hour.is_none() || analogs_missing,
        "partial-profile-analogs".to_string(),
        partial,
    );
    let whole: String = if as_of_hour.is_some() {
        "whole days are not compared as of an hour".to_string()
    } else {
        explain_analogs(target, as_of_hour)
    };
    push_unavailable_if(
        &mut list,
        as_of_hour.is_some() || analogs_missing,
        "nearest-neighbor-analogs".to_string(),
        whole,
    );
    assert(availability(list@) =~= unavailable(season, analogs, target, as_of_hour));
    list
}

/// Estimates, with their views.
pub open spec fn estimate_models(estimates: Seq<ProbabilityEstimate>) -> Seq<EstimateModel> {
    estimates.map_values(|estimate: ProbabilityEstimate| estimate@)
}

pub open spec fn combined_model(combined: Option<CombinedProbability>) -> Option<CombinedModel> {
    match combined {
        Some(c) => Some(
            CombinedModel {
                probability: c.probability,
                method_count: c.method_count,
                combination_note: c.combination_note@,
            },
        ),
        None => None,
    }
}

/// The estimates together: both are weighed, the weights summing up to the whole; where only one
/// is there, or none, nothing is combined.
pub fn combine_estimates<A: Arithmetic>(
    a: &A,
    season: Option<ProbabilityEstimate>,
    analogs: Option<ProbabilityEstimate>,
    as_of_hour: Option<u8>,
) -> (r: (Vec<ProbabilityEstimate>, Option<CombinedProbability>))
    ensures
        combines(
            a,
            opt_estimate(season),
            opt_estimate(analogs),
            as_of_hour,
            estimate_models(r.0@),
            combined_model(r.1),
        ),
{
    let mut methods: Vec<ProbabilityEstimate> = Vec::new();
    match (season, analogs) {
        (Some(left), Some(right)) => {
            let other: u32 = if as_of_hour.is_some() {
                30
            } else {
                25
            };
            let whole: usize = (SEASON_WEIGHT + other) as usize;
            let first = a.share(SEASON_WEIGHT as usize, whole);
            let second = a.share(other as usize, whole);
            let mut list: Vec<Weighted> = Vec::new();
            list.push(Weighted { value: left.probability, weight_hundredths: SEASON_WEIGHT });
            list.push(Weighted { value: right.probability, weight_hundredths: other });
            let borrowed = &list;
            let blend = a.blend(borrowed);
            let ghost weighted = weighed(left.probability, right.probability, other);
            assert(blend_is(a, weighted, blend)) by {
                assert(borrowed@ =~= weighted);
            }
            let ghost left_model = left@;
            let ghost right_model = right@;
            let mut left = left;
            let mut right = right;
            left.weight_used = Some(first);
            right.weight_used = Some(second);
            methods.push(left);
            methods.push(right);
            let combined = Some(
                CombinedProbability {
                    probability: blend,
                    method_count: 2,
                    combination_note: "fixed weights renormalized across available methods".to_string(),
                },
            );
            proof {
                let heavy = analog_weight(as_of_hour);
                let total = (SEASON_WEIGHT + heavy) as nat;
                assert(other == heavy && whole == total);
                assert(share_is(a, SEASON_WEIGHT as nat, total, first));
                assert(share_is(a, heavy as nat, total, second));
                assert(blend_is(
                    a,
                    weighed(left_model.probability, right_model.probability, heavy),
                    blend,
                ));
                assert(estimate_models(methods@) =~= seq![
                    EstimateModel { weight_used: Some(first), ..left_model },
                    EstimateModel { weight_used: Some(second), ..right_model },
                ]);
                assert(pair_combines(
                    a,
                    left_model,
                    right_model,
                    as_of_hour,
                    estimate_models(methods@),
                    combined_model(combined),
                ));
            }
            (methods, combined)
        },
        (Some(only), None) => {
            methods.push(only);
            assert(estimate_models(methods@) =~= seq![only@]);
            (methods, None)
        },
        (None, Some(only)) => {
            methods.push(only);
            assert(estimate_models(methods@) =~= seq![only@]);
            (methods, None)
        },
        (None, None) => {
            assert(estimate_models(methods@) =~= Seq::empty());
            (methods, None)
        },
    }
}

/// The report of the probability: the estimate by the season, fifteen days around, that by the
/// thirty best analogs, and both together.
pub open spec fn breakdown_is<A: Arithmetic>(
    a: &A,
    station: Seq<char>,
    target_date: Date,
    threshold: Reading,
    daily: Seq<DailySummary>,
    profiles: Seq<DayProfile>,
    target: Option<&DayProfile>,
    as_of_hour: Option<u8>,
    out: BreakdownModel,
) -> bool {
    exists|season: Option<EstimateModel>, analogs: Option<EstimateModel>|
        {
            &&& #[trigger] climatology_makes(a, 15, target_date, threshold, daily, season)
            &&& #[trigger] best_analogs_make(
                a,
                station,
                target_date,
                threshold,
                daily,
                profiles,
                target,
                as_of_hour,
                analogs,
            )
            &&& reports(
                a,
                station,
                target_date,
                threshold,
                quality_state_of(target_date, target, daily, profiles, as_of_hour),
                season,
                analogs,
                target,
                as_of_hour,
                out,
            )
        }
}

/// What the methods make of the probability that a day reaches a high, each and together.
pub fn build_probability_breakdown<A: Arithmetic>(
    a: &A,
    station_id: StationId,
    target_date: Date,
    threshold_high_c: Reading,
    daily: &Vec<DailySummary>,
    profiles: &Vec<DayProfile>,
    target_profile: Option<&DayProfile>,
    as_of_hour: Option<u8>,
) -> (r: ProbabilityBreakdown)
    ensures
        breakdown_is(
            a,
            station_id@,
            target_date,
            threshold_high_c,
            daily@,
            profiles@,
            target_profile,
            as_of_hour,
            r@,
        ),
{
    let method = ClimatologyMethod { window_days: 15 };
    let season = method.estimate(
        a,
        &station_id,
        target_date,
        threshold_high_c,
        daily,
        profiles,
        target_profile,
        as_of_hour,
    );
    let analogs = analog_probability_estimate(
        a,
        &station_id,
        target_date,
        threshold_high_c,
        daily,
        profiles,
        target_profile,
        as_of_hour,
    );
    let quality_state = probability_quality_state(
        target_date,
        target_profile,
        daily,
        profiles,
        as_of_hour,
    );
    let ghost season_model = opt_estimate(season);
    let ghost analog_model = opt_estimate(analogs);
    let unavailable_methods = explain_missing(
        season.is_none(),
        analogs.is_none(),
        target_profile,
        as_of_hour,
        Ghost(season_model),
        Ghost(analog_model),
    );
    let (methods, combined) = combine_estimates(a, season, analogs, as_of_hour);
    let combined_probability = match &combined {
        Some(c) => Some(c.probability),
        None => None,
    };
    let r = ProbabilityBreakdown {
        station_id,
        target_date,
        threshold_high_c,
        quality_state,
        methods,
        unavailable_methods,
        combined,
        combined_probability,
    };
    proof {
        assert(r@.methods =~= estimate_models(methods@));
        assert(r@.unavailable_methods =~= availability(unavailable_methods@));
        assert(r@.combined == combined_model(combined));
        assert(reports(
            a,
            station_id@,
            target_date,
            threshold_high_c,
            quality_state@,
            season_model,
            analog_model,
            target_profile,
            as_of_hour,
            r@,
        ));
    }
    r
}

/// A method of this name gave an estimate.
pub open spec fn is_estimated(out: BreakdownModel, name: Seq<char>) -> bool {
    exists|k: int| 0 <= k < out.methods.len() && (#[trigger] out.methods[k]).method == name
}

/// A method of this name is listed with the reason why it gave none.
pub open spec fn is_explained(out: BreakdownModel, name: Seq<char>) -> bool {
    exists|k: int|
        {
            &&& 0 <= k < out.unavailable_methods.len()
            &&& (#[trigger] out.unavailable_methods[k]).0 == name
            &&& out.unavailable_methods[k].1.len() > 0
        }
}

/// The names of the four methods are different.
proof fn lemma_method_names()
    ensures
        "seasonal-climatology"@ != "temperature-trajectory"@,
        "seasonal-climatology"@ != "partial-profile-analogs"@,
        "seasonal-climatology"@ != "nearest-neighbor-analogs"@,
        "temperature-trajectory"@ != "partial-profile-analogs"@,
        "temperature-trajectory"@ != "nearest-neighbor-analogs"@,
        "partial-profile-analogs"@ != "nearest-neighbor-analogs"@,
{
    reveal_strlit("seasonal-climatology");
    reveal_strlit("temperature-trajectory");
    reveal_strlit("partial-profile-analogs");
    reveal_strlit("nearest-neighbor-analogs");
    assert("seasonal-climatology"@[0] == 's');
    assert("temperature-trajectory"@[0] == 't');
    assert("partial-profile-analogs"@[0] == 'p');
    assert("nearest-neighbor-analogs"@[0] == 'n');
}

proof fn lemma_reasons_are_said(target: Option<&DayProfile>, as_of_hour: Option<u8>)
    ensures
        "no daily highs within +/-15 calendar days"@.len() > 0,
        "no trajectory model is available"@.len() > 0,
        "no as-of hour is given"@.len() > 0,
        "whole days are not compared as of an hour"@.len() > 0,
        analog_reason(target, as_of_hour).len() > 0,
{
    reveal_strlit("no daily highs within +/-15 calendar days");
    reveal_strlit("no trajectory model is available");
    reveal_strlit("no as-of hour is given");
    reveal_strlit("whole days are not compared as of an hour");
    reveal_strlit("no target profile is available");
    reveal_strlit("target profile has ");
    reveal_strlit("no comparable analog days with an observed high");
}

/// Each of the four methods gave an estimate or is listed with the reason why not, none did both,
/// and there are no others.
pub proof fn law_methods_are_accounted_for<A: Arithmetic>(
    a: &A,
    station: Seq<char>,
    target_date: Date,
    threshold: Reading,
    daily: Seq<DailySummary>,
    profiles: Seq<DayProfile>,
    target: Option<&DayProfile>,
    as_of_hour: Option<u8>,
    out: BreakdownModel,
)
    requires
        breakdown_is(
            a,
            station,
            target_date,
            threshold,
            daily,
            profiles,
            target,
            as_of_hour,
            out,
        ),
    ensures
        is_estimated(out, "seasonal-climatology"@) != is_explained(out, "seasonal-climatology"@),
        is_estimated(out, "temperature-trajectory"@) != is_explained(
            out,
            "temperature-trajectory"@,
        ),
        is_estimated(out, "partial-profile-analogs"@) != is_explained(
            out,
            "partial-profile-analogs"@,
        ),
        is_estimated(out, "nearest-neighbor-analogs"@) != is_explained(
            out,
            "nearest-neighbor-analogs"@,
        ),
        out.methods.len() + out.unavailable_methods.len() == 4,
{
    let (season, analogs) = choose|season: Option<EstimateModel>, analogs: Option<EstimateModel>|
        {
            &&& #[trigger] climatology_makes(a, 15, target_date, threshold, daily, season)
            &&& #[trigger] best_analogs_make(
                a,
                station,
                target_date,
                threshold,
                daily,
                profiles,
                target,
                as_of_hour,
                analogs,
            )
            &&& reports(
                a,
                station,
                target_date,
                threshold,
                quality_state_of(target_date, target, daily, profiles, as_of_hour),
                season,
                analogs,
                target,
                as_of_hour,
                out,
            )
        };
    lemma_method_names();
    lemma_reasons_are_said(target, as_of_hour);
    let listed = out.unavailable_methods;
    assert(listed == unavailable(season, analogs, target, as_of_hour));
    let second = if season is None {
        1int
    } else {
        0int
    };
    assert(listed[second].0 == "temperature-trajectory"@);
    if season is None {
        assert(listed[0].0 == "seasonal-climatology"@);
    } else {
        assert(out.methods[0].method == "seasonal-climatology"@);
    }
    if analogs is None {
        assert(listed[second + 1].0 == "partial-profile-analogs"@);
        assert(listed[second + 2].0 == "nearest-neighbor-analogs"@);
    } else {
        let last = out.methods.len() - 1;
        assert(out.methods[last].method == analog_method(as_of_hour));
        if as_of_hour is None {
            assert(listed[second + 1].0 == "partial-profile-analogs"@);
        } else {
            assert(listed[second + 1].0 == "nearest-neighbor-analogs"@);
        }
    }
}

} // verus!
