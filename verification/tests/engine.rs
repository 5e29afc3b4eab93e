use wxmatch::analogs::{
    compare_hours, has_hourly, hourly_distance, minimum_analog_hours, observed_high,
    profile_distance, top_analogs,
};
use wxmatch::calendar::{Date, LocalTime};
use wxmatch::dataset::{
    collect_years, current_day_freshness_note, describe_age, group_daily_by_year,
    group_observations_by_year, group_profiles_by_year, latest_instant, merge_observations,
    observations_for_date, profile_on, quality_note_for_day, quality_state_for_day,
    resolve_target_profile, sort_daily, sort_profiles, station_daily, station_observations,
    station_profiles, summary_on, TargetProfile,
};
use wxmatch::domain::{
    DailySummary, DayProfile, ObservationRecord, ProbabilityEstimate, QualityFlag, StationId,
};
use wxmatch::engine::{
    dedupe_observations, mean, source_priority, sum, DailySummaryBuilder, DayProfileBuilder,
    DerivedDatasetBuilder,
};
use wxmatch::manifest::normalized_manifest_warnings;
use wxmatch::probability::{
    build_probability_breakdown, combine_estimates, estimate_from_analogs,
    probability_quality_state, seasonal_distance, target_date_or_today, ClimatologyMethod,
    ProbabilityMethod,
};
use wxmatch::reading::{Arithmetic, Contrast, Reading, Vote, Weighted};
use wxmatch::source::DataSource;

struct Floats;

fn value(reading: Reading) -> f64 {
    f64::from_bits(reading.bits)
}

fn reading(value: f64) -> Reading {
    Reading { bits: value.to_bits() }
}

impl Arithmetic for Floats {
    fn number(&self, text: &str) -> Option<Reading> {
        text.parse::<f64>().ok().map(reading)
    }

    fn fahrenheit_to_celsius(&self, v: Reading) -> Reading {
        reading((value(v) - 32.0) * 5.0 / 9.0)
    }

    fn inches_hg_to_hpa(&self, v: Reading) -> Reading {
        reading(value(v) * 33.8638866667)
    }

    fn kmh_to_knots(&self, v: Reading) -> Reading {
        reading(value(v) / 1.852)
    }

    fn pa_to_hpa(&self, v: Reading) -> Reading {
        reading(value(v) / 100.0)
    }

    fn meters_to_km(&self, v: Reading) -> Reading {
        reading(value(v) / 1000.0)
    }

    fn inches_to_mm(&self, v: Reading) -> Reading {
        reading(value(v) * 25.4)
    }

    fn miles_to_km(&self, v: Reading) -> Reading {
        reading(value(v) * 1.60934)
    }

    fn hundredths_to_mm(&self, v: Reading) -> Reading {
        reading(value(v) * 0.254)
    }

    fn hundredths_hg_to_hpa(&self, v: Reading) -> Reading {
        reading(value(v) / 100.0 * 33.8638866667)
    }

    fn plus(&self, left: Reading, right: Reading) -> Reading {
        reading(value(left) + value(right))
    }

    fn over(&self, left: Reading, right: Reading) -> Reading {
        reading(value(left) / value(right))
    }

    fn relative_humidity_from_celsius(&self, temp_c: Reading, dewpoint_c: Reading) -> Reading {
        let (t, d) = (value(temp_c), value(dewpoint_c));
        let saturation = ((17.625 * t) / (243.04 + t)).exp();
        let actual = ((17.625 * d) / (243.04 + d)).exp();
        reading((100.0 * actual / saturation).clamp(0.0, 100.0))
    }

    fn wind_components_knots(&self, direction_deg: Reading, speed_kt: Reading) -> (Reading, Reading) {
        let theta = value(direction_deg).to_radians();
        let speed = value(speed_kt);
        (reading(-speed * theta.sin()), reading(-speed * theta.cos()))
    }

    fn mean(&self, values: &Vec<Reading>) -> Reading {
        reading(values.iter().map(|v| value(*v)).sum::<f64>() / values.len() as f64)
    }

    fn total(&self, values: &Vec<Reading>) -> Reading {
        reading(values.iter().map(|v| value(*v)).sum())
    }

    fn share(&self, hits: usize, matches: usize) -> Reading {
        reading(hits as f64 / matches as f64)
    }

    fn separation(&self, contrasts: &Vec<Contrast>) -> Reading {
        let mut total = 0.0;
        for contrast in contrasts {
            let scale = contrast.scale_tenths as f64 / 10.0;
            let delta = (value(contrast.greater) - value(contrast.lesser)) / scale;
            total += delta * delta;
        }
        reading((total / contrasts.len() as f64).sqrt())
    }

    fn vote_share(&self, votes: &Vec<Vote>, softening_hundredths: u32) -> Option<Reading> {
        let softening = f64::from(softening_hundredths) / 100.0;
        let mut hits = 0.0;
        let mut total = 0.0;
        for vote in votes {
            let weight = 1.0 / (value(vote.distance) + softening);
            total += weight;
            if vote.hit {
                hits += weight;
            }
        }
        if total <= f64::EPSILON {
            None
        } else {
            Some(reading(hits / total))
        }
    }

    fn blend(&self, values: &Vec<Weighted>) -> Reading {
        let mut sum = 0.0;
        let mut weights = 0.0;
        for item in values {
            let weight = item.weight_hundredths as f64 / 100.0;
            sum += value(item.value) * weight;
            weights += weight;
        }
        reading(sum / weights)
    }
}

fn day(year: i32, month: u32, day: u32) -> Date {
    Date::new(year, month, day).unwrap()
}

fn local(date: &str) -> LocalTime {
    LocalTime::parse_rfc3339(&format!("{}:00-06:00", date.replace(' ', "T"))).unwrap()
}

fn observation(station: &str, date: &str, temp: f64) -> ObservationRecord {
    let mut observation = ObservationRecord::from_parts(
        StationId::new(station),
        DataSource::IemAsosOneMinute,
        "DSM".to_owned(),
        local(date),
        "raw.csv".to_owned(),
    );
    observation.temperature_c = Some(reading(temp));
    observation.dewpoint_c = Some(reading(temp - 5.0));
    observation.relative_humidity_pct = Some(reading(50.0));
    observation.wind_u_kt = Some(reading(1.0));
    observation.wind_v_kt = Some(reading(1.0));
    observation
}

fn observed(source: DataSource) -> ObservationRecord {
    ObservationRecord::from_parts(
        StationId::new("KDSM"),
        source,
        "KDSM".to_owned(),
        local("2026-05-14 00:00"),
        "raw".to_owned(),
    )
}

fn summaries(observations: &Vec<ObservationRecord>) -> Vec<DailySummary> {
    DailySummaryBuilder.build(&Floats, observations).unwrap()
}

fn profiles(observations: &Vec<ObservationRecord>) -> Vec<DayProfile> {
    DayProfileBuilder.build(&Floats, observations).unwrap()
}

#[test]
fn aggregates_daily_summaries() {
    let observations = vec![
        observation("KDSM", "2026-05-14 00:00", 20.0),
        observation("KDSM", "2026-05-14 01:00", 24.0),
        observation("KDSM", "2026-05-14 02:00", 18.0),
    ];
    let summaries = DailySummaryBuilder.build(&Floats, &observations).unwrap();
    assert_eq!(summaries.len(), 1);
    assert_eq!(summaries[0].high_temp_c, Some(reading(24.0)));
    assert_eq!(summaries[0].low_temp_c, Some(reading(18.0)));
}

#[test]
fn builds_profiles() {
    let observations = vec![
        observation("KDSM", "2026-05-14 00:00", 20.0),
        observation("KDSM", "2026-05-14 00:30", 22.0),
        observation("KDSM", "2026-05-14 01:00", 24.0),
    ];
    let profiles = DayProfileBuilder.build(&Floats, &observations).unwrap();
    assert_eq!(profiles.len(), 1);
    assert_eq!(profiles[0].observed_hour_count, 2);
    assert_eq!(profiles[0].hours[0].temperature_c, Some(reading(21.0)));
}

#[test]
fn dedupes_observations_by_source_station_and_time() {
    let left = observation("KDSM", "2026-05-14 00:00", 20.0);
    let right = observation("KDSM", "2026-05-14 00:00", 22.0);
    let deduped = dedupe_observations(vec![left.clone(), right]);
    assert_eq!(deduped.len(), 1);
    assert_eq!(deduped[0].temperature_c, left.temperature_c);
}

#[test]
fn prefers_ncei_over_iem_for_same_timestamp() {
    let mut iem = observation("KDSM", "2026-05-14 00:00", 20.0);
    let mut ncei = observation("KDSM", "2026-05-14 00:00", 19.0);
    ncei.source = DataSource::NceiAsosFiveMinute;
    let deduped = dedupe_observations(vec![iem.clone(), ncei.clone()]);
    assert_eq!(deduped.len(), 1);
    assert_eq!(deduped[0].source, DataSource::NceiAsosFiveMinute);
    assert_eq!(deduped[0].temperature_c, ncei.temperature_c);
    iem.source = DataSource::Ghcnh;
    let deduped = dedupe_observations(vec![iem, ncei.clone()]);
    assert_eq!(deduped[0].source, DataSource::NceiAsosFiveMinute);
}

#[test]
fn climatology_estimate_counts_hits() {
    let observations = vec![
        observation("KDSM", "2024-05-14 00:00", 25.0),
        observation("KDSM", "2025-05-14 00:00", 28.0),
        observation("KDSM", "2026-05-14 00:00", 18.0),
    ];
    let daily = DailySummaryBuilder.build(&Floats, &observations).unwrap();
    let method = ClimatologyMethod { window_days: 1 };
    let estimate = method
        .estimate(
            &Floats,
            &StationId::new("KDSM"),
            day(2026, 5, 14),
            reading(24.0),
            &daily,
            &vec![],
            None,
            None,
        )
        .unwrap();
    assert_eq!(estimate.sample_size, 3);
    assert!((value(estimate.probability) - (2.0 / 3.0)).abs() < 1e-9);
}

#[test]
fn produces_analogs_and_combined_probability() {
    let observations = vec![
        observation("KDSM", "2024-05-14 00:00", 25.0),
        observation("KDSM", "2024-05-14 01:00", 26.0),
        observation("KDSM", "2025-05-14 00:00", 25.0),
        observation("KDSM", "2025-05-14 01:00", 26.0),
        observation("KDSM", "2026-05-14 00:00", 25.0),
        observation("KDSM", "2026-05-14 01:00", 26.0),
    ];
    let daily = DailySummaryBuilder.build(&Floats, &observations).unwrap();
    let profiles = DayProfileBuilder.build(&Floats, &observations).unwrap();
    let target_date = day(2026, 5, 14);
    let target_profile =
        profiles.iter().find(|profile| profile.local_date == target_date).unwrap();

    let analogs = top_analogs(
        &Floats,
        &StationId::new("KDSM"),
        target_date,
        &daily,
        &profiles,
        target_profile,
        Some(1),
        5,
    );
    assert_eq!(analogs.len(), 2);

    let breakdown = build_probability_breakdown(
        &Floats,
        StationId::new("KDSM"),
        target_date,
        reading(24.0),
        &daily,
        &profiles,
        Some(target_profile),
        Some(1),
    );
    assert!(breakdown.methods.len() >= 2);
    assert!(breakdown.combined_probability.is_some());
}

#[test]
fn query_quality_helpers_mark_sparse_and_low_history_days() {
    assert_eq!(quality_state_for_day(1, &vec!["nws-api".to_owned()]), "sparse-current-day");
    assert_eq!(
        quality_note_for_day(1, &vec!["nws-api".to_owned()]).as_deref(),
        Some("low-history / partial-day target currently relies only on NWS API observations")
    );
    assert_eq!(quality_state_for_day(12, &vec!["ghcnh".to_owned()]), "mixed-cadence");
    assert_eq!(quality_state_for_day(12, &vec!["iem-asos-1min".to_owned()]), "normal");
}

#[test]
fn manifest_warnings_distinguish_cadence_and_field_coverage() {
    let mut ghcnh = observed(DataSource::Ghcnh);
    ghcnh.quality_flags.push(QualityFlag::SourceFieldMissing("relative_humidity".to_owned()));
    let warnings = normalized_manifest_warnings(DataSource::Ghcnh, &vec![ghcnh]);
    assert!(warnings.iter().any(|warning| warning.contains("hourly fallback cadence")));
    assert!(warnings
        .iter()
        .any(|warning| warning.contains("source availability or parser coverage")));
}

#[test]
fn ranks_the_sources() {
    assert_eq!(source_priority(DataSource::NceiAsosFiveMinute), 0);
    assert_eq!(source_priority(DataSource::IemAsosOneMinute), 1);
    assert_eq!(source_priority(DataSource::NwsApi), 2);
    assert_eq!(source_priority(DataSource::Ghcnh), 3);
}

#[test]
fn keeps_each_moment_of_a_station_once() {
    let mut rows = Vec::new();
    for (i, date) in
        ["2026-05-14 02:00", "2026-05-14 00:00", "2026-05-14 02:00", "2026-05-14 01:00"]
            .iter()
            .enumerate()
    {
        rows.push(observation("KDSM", date, i as f64));
    }
    rows.push(observation("KORD", "2026-05-14 01:00", 9.0));
    let deduped = dedupe_observations(rows);
    assert_eq!(deduped.len(), 4);
    for pair in deduped.windows(2) {
        assert!(pair[0].observed_at_utc.is_not_after(pair[1].observed_at_utc));
    }
    assert_eq!(deduped[3].temperature_c, Some(reading(0.0)));
    let again = dedupe_observations(deduped.clone());
    assert_eq!(again.len(), deduped.len());
}

#[test]
fn keeps_the_same_observations_in_any_order() {
    let mut other = observation("KDSM", "2026-05-14 00:00", 7.0);
    other.source = DataSource::NceiAsosFiveMinute;
    let rows = vec![
        observation("KDSM", "2026-05-14 02:00", 1.0),
        observation("KDSM", "2026-05-14 00:00", 2.0),
        other,
        observation("KDSM", "2026-05-14 01:00", 3.0),
    ];
    let temps = |rows: Vec<ObservationRecord>| -> Vec<f64> {
        rows.iter().map(|row| value(row.temperature_c.unwrap())).collect()
    };
    let kept = dedupe_observations(rows.clone());
    assert_eq!(temps(kept.clone()), vec![7.0, 3.0, 1.0]);
    assert_eq!(temps(dedupe_observations(kept)), vec![7.0, 3.0, 1.0]);
    let turned: Vec<ObservationRecord> = rows.into_iter().rev().collect();
    assert_eq!(temps(dedupe_observations(turned)), vec![7.0, 3.0, 1.0]);
}

#[test]
fn summarizes_all_values_of_a_day() {
    let mut first = observation("KDSM", "2026-05-14 00:00", 20.0);
    first.wind_speed_kt = Some(reading(7.0));
    first.precipitation_mm = Some(reading(0.5));
    first.cloud_cover_fraction = Some(reading(0.25));
    let mut second = observation("KDSM", "2026-05-14 23:59", 10.0);
    second.source = DataSource::Ghcnh;
    second.precipitation_mm = Some(reading(1.5));
    second.wind_u_kt = Some(reading(3.0));
    let bare = observed(DataSource::NwsApi);
    let other = observation("KDSM", "2026-05-15 00:00", 5.0);
    let daily = summaries(&vec![other, first, second, bare]);
    assert_eq!(daily.len(), 2);
    let summary = &daily[0];
    assert_eq!(summary.local_date, day(2026, 5, 14));
    assert_eq!(summary.observation_count, 3);
    assert_eq!(summary.mean_temp_c, Some(reading(15.0)));
    assert_eq!(summary.mean_dewpoint_c, Some(reading(10.0)));
    assert_eq!(summary.mean_relative_humidity_pct, Some(reading(50.0)));
    assert_eq!(summary.max_wind_speed_kt, Some(reading(7.0)));
    assert_eq!(summary.mean_wind_u_kt, Some(reading(2.0)));
    assert_eq!(summary.mean_wind_v_kt, Some(reading(1.0)));
    assert_eq!(summary.total_precipitation_mm, Some(reading(2.0)));
    assert_eq!(summary.mean_cloud_cover_fraction, Some(reading(0.25)));
    assert_eq!(summary.source_slugs, vec!["ghcnh", "iem-asos-1min", "nws-api"]);
    assert_eq!(daily[1].total_precipitation_mm, None);
}

#[test]
fn profiles_have_all_hours() {
    let built = profiles(&vec![observation("KDSM", "2026-05-14 23:30", 8.0)]);
    assert_eq!(built[0].hours.len(), 24);
    for (i, hour) in built[0].hours.iter().enumerate() {
        assert_eq!(hour.hour as usize, i);
        assert_eq!(hour.sample_count, if i == 23 { 1 } else { 0 });
        assert_eq!(hour.temperature_c.is_some(), i == 23);
    }
    assert_eq!(built[0].observed_hour_count, 1);
    assert!(summaries(&Vec::new()).is_empty() && profiles(&Vec::new()).is_empty());
}

#[test]
fn averages_and_sums() {
    assert_eq!(mean(&Floats, &vec![reading(1.0), reading(2.0)]), Some(reading(1.5)));
    assert_eq!(mean(&Floats, &Vec::new()), None);
    assert_eq!(sum(&Floats, &vec![reading(1.0), reading(2.0)]), Some(reading(3.0)));
    assert_eq!(sum(&Floats, &Vec::new()), None);
}

#[test]
fn measures_how_far_hours_are_apart() {
    let built = profiles(&vec![
        observation("KDSM", "2026-05-14 00:00", 20.0),
        observation("KDSM", "2026-05-15 00:00", 30.0),
    ]);
    let (left, right) = (&built[0].hours[0], &built[1].hours[0]);
    assert_eq!(compare_hours(left, right).len(), 5);
    let distance = value(hourly_distance(&Floats, left, right).unwrap());
    assert!((distance - (2.0f64 / 5.0).sqrt()).abs() < 1e-12);
    assert_eq!(hourly_distance(&Floats, left, &built[1].hours[1]), None);
    assert_eq!(value(hourly_distance(&Floats, left, left).unwrap()), 0.0);
    assert_eq!(compare_hours(left, right), compare_hours(right, left));
    assert_eq!(hourly_distance(&Floats, left, right), hourly_distance(&Floats, right, left));
    let mut cloudy = left.clone();
    cloudy.cloud_cover_fraction = Some(reading(0.5));
    assert_eq!(hourly_distance(&Floats, &cloudy, right), hourly_distance(&Floats, left, right));
}

#[test]
fn profiles_need_enough_hours_in_common() {
    assert_eq!(minimum_analog_hours(None), 6);
    assert_eq!(minimum_analog_hours(Some(3)), 2);
    let mut rows = Vec::new();
    for hour in 0..7 {
        rows.push(observation("KDSM", &format!("2026-05-14 0{hour}:00"), 20.0));
        rows.push(observation("KDSM", &format!("2026-05-15 0{hour}:00"), 20.0));
    }
    let built = profiles(&rows);
    let compare = |limit: Option<u8>| profile_distance(&Floats, &built[0], &built[1], limit);
    assert_eq!(compare(None), Some((reading(0.0), 7)));
    assert_eq!(compare(Some(1)), Some((reading(0.0), 2)));
    assert_eq!(compare(Some(0)), None);
}

#[test]
fn analogs_come_near_first_and_from_other_days() {
    let mut rows = Vec::new();
    for (date, temp) in [("2024-05-14", 28.0), ("2025-05-14", 25.5), ("2026-05-14", 25.0)] {
        rows.push(observation("KDSM", &format!("{date} 00:00"), temp));
        rows.push(observation("KDSM", &format!("{date} 01:00"), temp));
    }
    for hour in 0..2 {
        let mut row = observation("KDSM", &format!("2023-05-14 0{hour}:00"), 25.0);
        row.source = DataSource::Ghcnh;
        rows.push(row);
    }
    let daily = summaries(&rows);
    let built = profiles(&rows);
    let target = built.last().unwrap();
    let analogs = top_analogs(
        &Floats,
        &StationId::new("KDSM"),
        day(2026, 5, 14),
        &daily,
        &built,
        target,
        Some(1),
        3,
    );
    let years: Vec<i32> = analogs.iter().map(|a| a.analog_date.year()).collect();
    assert_eq!(years, vec![2025, 2024, 2023]);
    for top in [0, 1, 2, 9] {
        let some = top_analogs(
            &Floats,
            &StationId::new("KDSM"),
            day(2026, 5, 14),
            &daily,
            &built,
            target,
            Some(1),
            top,
        );
        let first: Vec<i32> = some.iter().map(|a| a.analog_date.year()).collect();
        assert_eq!(first, years[..top.min(3)].to_vec());
    }
    assert_eq!(analogs[0].observed_high_c, Some(reading(25.5)));
    assert_eq!(analogs[0].compared_hours, 2);
    assert!(analogs[0].source_mix_note.is_none());
    assert!(analogs[2].source_mix_note.is_some());
    assert_eq!(analogs[2].candidate_source_summary, "ghcnh");
    let estimate =
        estimate_from_analogs(&Floats, &analogs, reading(26.0), Some(1)).unwrap();
    assert_eq!(estimate.method, "partial-profile-analogs");
    assert_eq!(estimate.sample_size, 3);
    let weights: Vec<f64> =
        analogs.iter().map(|a| 1.0 / (value(a.distance) + 0.05)).collect();
    let wanted = weights[1] / (weights[0] + weights[1] + weights[2]);
    assert!((value(estimate.probability) - wanted).abs() < 1e-12);
    assert!(estimate_from_analogs(&Floats, &Vec::new(), reading(26.0), None).is_none());
    let mut unknown = analogs.clone();
    for analog in unknown.iter_mut() {
        analog.observed_high_c = None;
    }
    assert!(estimate_from_analogs(&Floats, &unknown, reading(26.0), Some(1)).is_none());
    assert!(has_hourly(&vec!["ghcnh".to_owned()]) && !has_hourly(&vec!["nws-api".to_owned()]));
    assert_eq!(observed_high(&daily, day(2024, 5, 14)), Some(reading(28.0)));
    assert_eq!(observed_high(&daily, day(2022, 5, 14)), None);
}

#[test]
fn seasons_wrap_around_the_year() {
    assert_eq!(seasonal_distance(1, 366), 1);
    assert_eq!(seasonal_distance(10, 20), 10);
    assert_eq!(seasonal_distance(200, 200), 0);
    assert_eq!(seasonal_distance(1, 184), 183);
}

#[test]
fn takes_a_date_or_today() {
    let today = day(2026, 5, 14);
    let given = day(2025, 1, 1);
    assert_eq!(target_date_or_today(Some(given), false, today).unwrap(), given);
    assert_eq!(target_date_or_today(None, true, today).unwrap(), today);
    assert_eq!(
        target_date_or_today(None, false, today).unwrap_err().message,
        "pass either --date YYYY-MM-DD or --today"
    );
    assert_eq!(
        target_date_or_today(Some(given), true, today).unwrap_err().message,
        "--date and --today are mutually exclusive"
    );
}

fn estimate(method: &str, probability: f64) -> ProbabilityEstimate {
    ProbabilityEstimate {
        method: method.to_owned(),
        probability: reading(probability),
        sample_size: 3,
        weight_used: None,
        confidence_note: None,
        note: None,
    }
}

#[test]
fn combines_two_methods_by_weight() {
    let season = estimate("seasonal-climatology", 0.5);
    let analogs = estimate("partial-profile-analogs", 1.0);
    let (methods, combined) =
        combine_estimates(&Floats, Some(season.clone()), Some(analogs), Some(12));
    assert_eq!(methods.len(), 2);
    let combined = combined.unwrap();
    let wanted = (0.5 * 0.25 + 1.0 * 0.30) / (0.25 + 0.30);
    assert!((value(combined.probability) - wanted).abs() < 1e-12);
    assert_eq!(combined.method_count, 2);
    assert!((value(methods[0].weight_used.unwrap()) - 25.0 / 55.0).abs() < 1e-12);
    let (methods, combined) = combine_estimates(&Floats, Some(season), None, None);
    assert_eq!(methods.len(), 1);
    assert!(methods[0].weight_used.is_none());
    assert!(combined.is_none());
}

#[test]
fn accounts_for_every_method() {
    let rows = vec![observation("KDSM", "2025-05-14 00:00", 25.0)];
    let daily = summaries(&rows);
    let breakdown = build_probability_breakdown(
        &Floats,
        StationId::new("KDSM"),
        day(2026, 5, 14),
        reading(24.0),
        &daily,
        &Vec::new(),
        None,
        None,
    );
    assert_eq!(breakdown.methods.len(), 1);
    assert_eq!(breakdown.methods[0].method, "seasonal-climatology");
    assert_eq!(breakdown.methods[0].probability, reading(1.0));
    assert!(breakdown.combined_probability.is_none());
    let missing: Vec<&str> =
        breakdown.unavailable_methods.iter().map(|m| m.method.as_str()).collect();
    assert_eq!(
        missing,
        vec!["temperature-trajectory", "partial-profile-analogs", "nearest-neighbor-analogs"]
    );
    let reasons: Vec<&str> =
        breakdown.unavailable_methods.iter().map(|m| m.reason.as_str()).collect();
    assert_eq!(
        reasons,
        vec![
            "no trajectory model is available",
            "no as-of hour is given",
            "no target profile is available",
        ]
    );
    let built = profiles(&rows);
    let sparse = build_probability_breakdown(
        &Floats,
        StationId::new("KDSM"),
        day(2025, 5, 14),
        reading(24.0),
        &Vec::new(),
        &built,
        built.first(),
        Some(12),
    );
    assert!(sparse.methods.is_empty());
    let told: Vec<(&str, &str)> = sparse
        .unavailable_methods
        .iter()
        .map(|m| (m.method.as_str(), m.reason.as_str()))
        .collect();
    assert_eq!(
        told,
        vec![
            ("seasonal-climatology", "no daily highs within +/-15 calendar days"),
            ("temperature-trajectory", "no trajectory model is available"),
            (
                "partial-profile-analogs",
                "target profile has 1 observed hours; 2 required"
            ),
            ("nearest-neighbor-analogs", "whole days are not compared as of an hour"),
        ]
    );
    assert_eq!(
        breakdown.quality_state,
        probability_quality_state(day(2026, 5, 14), None, &daily, &Vec::new(), None)
    );
}

#[test]
fn groups_by_year() {
    let rows = vec![
        observation("KDSM", "2026-01-01 00:00", 1.0),
        observation("KDSM", "2025-12-31 23:59", 2.0),
        observation("KDSM", "2026-05-14 00:00", 3.0),
    ];
    let daily = group_daily_by_year(summaries(&rows));
    let built = group_profiles_by_year(profiles(&rows));
    assert_eq!(daily.len(), 2);
    assert_eq!(built.len(), 2);
    let grouped = group_observations_by_year(rows);
    let sizes: Vec<(i32, usize)> = grouped.iter().map(|(y, g)| (*y, g.len())).collect();
    assert_eq!(sizes, vec![(2025, 1), (2026, 2)]);
    assert_eq!(grouped[1].1[1].temperature_c, Some(reading(3.0)));
    assert_eq!(collect_years(grouped.clone(), Some(2026)).unwrap().len(), 1);
    assert_eq!(collect_years(grouped, None).unwrap().len(), 2);
    let empty = collect_years(daily, Some(1999)).unwrap();
    assert_eq!(empty[0].0, 1999);
    assert!(empty[0].1.is_empty());
    assert_eq!(
        collect_years(group_daily_by_year(Vec::new()), None).unwrap_err().message,
        "no derived data was produced"
    );
}

#[test]
fn merging_again_adds_nothing() {
    let rows = vec![
        observation("KDSM", "2026-05-14 00:00", 1.0),
        observation("KDSM", "2026-05-14 01:00", 2.0),
    ];
    let (merged, added) = merge_observations(Vec::new(), rows.clone());
    assert_eq!((merged.len(), added), (2, 2));
    let temps = |rows: &Vec<ObservationRecord>| -> Vec<Option<Reading>> {
        rows.iter().map(|row| row.temperature_c).collect()
    };
    let before = temps(&merged);
    let (again, added) = merge_observations(merged, rows);
    assert_eq!((again.len(), added), (2, 0));
    assert_eq!(temps(&again), before);
}

#[test]
fn finds_days() {
    let rows = vec![
        observation("KDSM", "2026-05-15 00:00", 1.0),
        observation("KDSM", "2026-05-14 01:00", 2.0),
    ];
    let daily = sort_daily(summaries(&rows));
    let built = sort_profiles(profiles(&rows));
    assert_eq!(summary_on(&daily, day(2026, 5, 15)), Some(1));
    assert_eq!(profile_on(&built, day(2026, 5, 14)), Some(0));
    assert_eq!(profile_on(&built, day(2026, 5, 16)), None);
    let latest = latest_instant(&rows).unwrap();
    assert_eq!(latest, local("2026-05-15 00:00").utc());
    assert_eq!(latest_instant(&Vec::new()), None);
    assert_eq!(observations_for_date(rows, day(2026, 5, 14)).len(), 1);
}

#[test]
fn refuses_a_station_without_data() {
    let station = StationId::new("dsm");
    let rows = vec![
        observation("KDSM", "2026-05-15 00:00", 1.0),
        observation("KDSM", "2026-05-14 01:00", 2.0),
        observation("KDSM", "2026-05-15 00:00", 3.0),
    ];
    let kept = station_observations(rows.clone(), &station).unwrap();
    let shown: Vec<Option<f64>> = kept.iter().map(|row| row.temperature_c.map(value)).collect();
    assert_eq!(shown, vec![Some(2.0), Some(1.0)]);
    let daily = station_daily(summaries(&kept), &station).unwrap();
    assert_eq!(daily[0].local_date, day(2026, 5, 14));
    let built = station_profiles(profiles(&kept), &station).unwrap();
    assert_eq!(built[1].local_date, day(2026, 5, 15));
    assert_eq!(
        station_observations(Vec::new(), &station).unwrap_err().message,
        "no normalized observations found for station KDSM"
    );
    assert_eq!(
        station_daily(Vec::new(), &station).unwrap_err().message,
        "no daily summaries found for station KDSM"
    );
    assert_eq!(
        station_profiles(Vec::new(), &station).unwrap_err().message,
        "no day profiles found for station KDSM"
    );
}

#[test]
fn tells_how_old_the_data_are() {
    let today = day(2026, 5, 14);
    let rows = vec![observation("KDSM", "2026-05-14 00:00", 1.0)];
    let now = local("2026-05-14 00:10").utc();
    let fresh = "latest NWS observation age: 10 minutes (2026-05-14 06:00:00 UTC)";
    assert_eq!(describe_age(latest_instant(&rows), now), fresh);
    let note = current_day_freshness_note(today, today, rows.clone(), now);
    assert_eq!(note.as_deref(), Some(fresh));
    assert_eq!(
        describe_age(latest_instant(&rows), local("2026-05-14 01:31").utc()),
        "stale current-day data: latest NWS observation is 91 minutes old (2026-05-14 06:00:00 UTC)"
    );
    assert_eq!(
        current_day_freshness_note(today, today, Vec::new(), now).as_deref(),
        Some("no same-day NWS observation has been normalized yet")
    );
    assert_eq!(current_day_freshness_note(day(2026, 5, 13), today, rows, now), None);
}

#[test]
fn builds_the_profile_of_today_from_current_observations() {
    let today = day(2026, 5, 14);
    let old = profiles(&vec![observation("KDSM", "2025-05-14 00:00", 1.0)]);
    let current = vec![observation("KDSM", "2026-05-14 00:00", 7.0)];
    match resolve_target_profile(&Floats, today, today, &old, Some(current)) {
        TargetProfile::Built(profile) => {
            assert_eq!(profile.hours[0].temperature_c, Some(reading(7.0)));
        }
        other => panic!("unexpected target {other:?}"),
    }
    let past = day(2025, 5, 14);
    assert!(matches!(
        resolve_target_profile(&Floats, past, today, &old, None),
        TargetProfile::Stored(0)
    ));
    assert!(matches!(
        resolve_target_profile(&Floats, day(2024, 5, 14), today, &old, None),
        TargetProfile::Missing
    ));
}
