use wxmatch::calendar::{Date, LocalTime};
use wxmatch::domain::{
    cloud_fraction_from_code, DailySummary, DayProfile, HourlyProfilePoint, ObservationRecord,
    QualityFlag, StationId, SCHEMA_VERSION,
};
use wxmatch::reading::Reading;
use wxmatch::rows::{
    rows_of_profiles, DailySummaryRow, DayProfileRow, ObservationRow, RowError,
};
use wxmatch::source::{all_sources, DataSource, SourceDescriptor};

fn reading(value: f64) -> Reading {
    Reading { bits: value.to_bits() }
}

fn observation() -> ObservationRecord {
    let mut observation = ObservationRecord::from_parts(
        StationId::new("KDSM"),
        DataSource::IemAsosOneMinute,
        "DSM".to_owned(),
        LocalTime::parse_rfc3339("2026-05-14T12:07:00-06:00").unwrap(),
        "raw.csv".to_owned(),
    );
    observation.temperature_c = Some(reading(20.5));
    observation.cloud_cover_code = Some("BKN".to_owned());
    observation
}

fn summary() -> DailySummary {
    DailySummary {
        station_id: StationId::new("KDSM"),
        local_date: Date::new(2026, 5, 14).unwrap(),
        observation_count: 24,
        source_slugs: vec!["iem-asos-1min".to_owned(), "a \"quote\"".to_owned()],
        high_temp_c: Some(reading(30.0)),
        low_temp_c: Some(reading(20.0)),
        mean_temp_c: Some(reading(25.0)),
        mean_dewpoint_c: Some(reading(15.0)),
        mean_relative_humidity_pct: Some(reading(45.0)),
        max_wind_speed_kt: Some(reading(12.0)),
        mean_wind_u_kt: Some(reading(-1.0)),
        mean_wind_v_kt: Some(reading(2.0)),
        total_precipitation_mm: Some(reading(1.0)),
        mean_cloud_cover_fraction: None,
    }
}

fn profile(station: &str, day: u32) -> DayProfile {
    let mut hours = Vec::new();
    for hour in 0u8..24 {
        hours.push(HourlyProfilePoint {
            hour,
            sample_count: hour as usize,
            temperature_c: Some(reading(hour as f64)),
            dewpoint_c: None,
            relative_humidity_pct: Some(reading(50.0)),
            wind_u_kt: None,
            wind_v_kt: None,
            cloud_cover_fraction: None,
            precipitation_mm: Some(reading(0.0)),
        });
    }
    DayProfile {
        station_id: StationId::new(station),
        local_date: Date::new(2026, 5, day).unwrap(),
        observed_hour_count: 23,
        source_slugs: vec!["ghcnh".to_owned()],
        hours,
    }
}

#[test]
fn normalizes_station_ids() {
    assert_eq!(StationId::new("dsm").as_nws_id(), "KDSM");
    assert_eq!(StationId::new("kdsm").as_iem_id(), "DSM");
}

#[test]
fn station_codes_are_settled() {
    for (input, code) in
        [(" dsm ", "KDSM"), ("KDSM", "KDSM"), ("x1y", "X1Y"), ("pajn", "PAJN"), ("", "")]
    {
        let station = StationId::new(input);
        assert_eq!(station.as_str(), code);
        assert_eq!(StationId::new(station.as_str()).as_str(), code);
    }
    assert_eq!(StationId::new("pajn").as_iem_id(), "PAJN");
    assert_eq!(StationId::new("k1a2").as_iem_id(), "1A2");
}

#[test]
fn maps_cloud_cover() {
    assert_eq!(cloud_fraction_from_code("BKN"), Some(reading(0.75)));
}

#[test]
fn maps_every_cloud_code() {
    for (code, fraction) in [
        ("CLR", 0.0),
        ("SKC", 0.0),
        ("FEW", 0.125),
        ("sct", 0.375),
        (" BKN ", 0.75),
        ("OVC", 1.0),
        ("VV", 1.0),
    ] {
        assert_eq!(cloud_fraction_from_code(code), Some(reading(fraction)), "{code}");
    }
    assert_eq!(cloud_fraction_from_code("XYZ"), None);
}

#[test]
fn describes_the_sources() {
    let sources = all_sources();
    assert_eq!(sources.len(), 4);
    for source in sources {
        assert_eq!(DataSource::from_slug(source.slug()), Some(source));
        let descriptor = SourceDescriptor::from_source(source);
        assert_eq!(descriptor.source, source);
        assert_eq!(descriptor.slug, source.slug());
        assert_eq!(descriptor.summary, source.summary());
        assert_eq!(descriptor.cadence, source.cadence());
        assert_eq!(descriptor.scope, source.scope());
    }
    assert_eq!(DataSource::NceiAsosFiveMinute.slug(), "ncei-asos-5min");
    assert_eq!(DataSource::NceiAsosFiveMinute.cadence(), "5 minutes");
    assert_eq!(DataSource::Ghcnh.scope(), "global");
    assert_eq!(DataSource::from_slug("metar"), None);
}

#[test]
fn builds_observations_from_their_local_time() {
    let observation = observation();
    assert_eq!(observation.local_date, Date::new(2026, 5, 14).unwrap());
    assert_eq!(observation.minute_of_day, 12 * 60 + 7);
    assert_eq!(observation.observed_at_utc.to_rfc3339(), "2026-05-14T18:07:00+00:00");
    assert!(observation.dewpoint_c.is_none());
    assert!(observation.quality_flags.is_empty());
}

#[test]
fn observation_rows_read_back() {
    let mut value = observation();
    value.quality_flags.push(QualityFlag::MissingWind);
    let row = ObservationRow::from_observation(&value, "[\"MissingWind\"]".to_owned());
    assert_eq!(row.schema_version, SCHEMA_VERSION);
    assert_eq!(row.station_id, "KDSM");
    assert_eq!(row.source, "iem-asos-1min");
    assert_eq!(row.observed_at_utc, "2026-05-14T18:07:00+00:00");
    assert_eq!(row.observed_at_local, "2026-05-14T12:07:00-06:00");
    assert_eq!(row.local_date, "2026-05-14");
    assert_eq!(row.minute_of_day, 727);
    assert_eq!(row.quality_flags_json, "[\"MissingWind\"]");
    let back = row.into_observation(Some(vec![QualityFlag::MissingWind])).unwrap();
    assert_eq!(back.station_id.as_str(), "KDSM");
    assert_eq!(back.source, value.source);
    assert_eq!(back.observed_at_utc, value.observed_at_utc);
    assert_eq!(back.observed_at_local, value.observed_at_local);
    assert_eq!(back.local_date, value.local_date);
    assert_eq!(back.temperature_c, value.temperature_c);
    assert_eq!(back.cloud_cover_code, value.cloud_cover_code);
    assert!(matches!(back.quality_flags[0], QualityFlag::MissingWind));
}

fn row_error(change: fn(&mut ObservationRow)) -> RowError {
    let mut row = ObservationRow::from_observation(&observation(), "[]".to_owned());
    change(&mut row);
    row.into_observation(Some(Vec::new())).unwrap_err()
}

#[test]
fn refuses_unreadable_observation_rows() {
    assert_eq!(row_error(|row| row.source = "metar".to_owned()), RowError::Source);
    assert_eq!(row_error(|row| row.observed_at_utc = "noon".to_owned()), RowError::ObservedAtUtc);
    assert_eq!(
        row_error(|row| row.observed_at_local = "2026-05-14".to_owned()),
        RowError::ObservedAtLocal
    );
    assert_eq!(
        row_error(|row| row.local_date = "2026-02-30".to_owned()),
        RowError::ObservationDate
    );
    let row = ObservationRow::from_observation(&observation(), "nonsense".to_owned());
    let error = row.into_observation(None).unwrap_err();
    assert_eq!(error, RowError::QualityFlags);
    assert_eq!(error.message(), "failed to parse quality flags");
}

#[test]
fn summary_rows_read_back() {
    let row = DailySummaryRow::from_summary(&summary());
    assert_eq!(row.local_date, "2026-05-14");
    assert_eq!(row.observation_count, 24);
    assert_eq!(row.source_slugs_json, "[\"iem-asos-1min\",\"a \\\"quote\\\"\"]");
    let back = row.into_summary().unwrap();
    assert_eq!(back.station_id.as_str(), "KDSM");
    assert_eq!(back.local_date, summary().local_date);
    assert_eq!(back.source_slugs, summary().source_slugs);
    assert_eq!(back.high_temp_c, Some(reading(30.0)));
    assert_eq!(back.mean_wind_u_kt, Some(reading(-1.0)));
    assert_eq!(back.mean_cloud_cover_fraction, None);
}

#[test]
fn refuses_unreadable_summary_rows() {
    let mut row = DailySummaryRow::from_summary(&summary());
    row.local_date = "May 14".to_owned();
    assert_eq!(row.into_summary().unwrap_err(), RowError::SummaryDate);
    let mut row = DailySummaryRow::from_summary(&summary());
    row.source_slugs_json = "[1]".to_owned();
    let error = row.into_summary().unwrap_err();
    assert_eq!(error, RowError::SummarySourceSlugs);
    assert_eq!(error.message(), "failed to parse summary source slugs");
}

#[test]
fn profile_rows_read_back() {
    let kept = vec![profile("KDSM", 15), profile("KDSM", 14), profile("KAAA", 20)];
    assert_eq!(DayProfileRow::from_profile(&kept[0]).len(), 24);
    let mut shuffled = rows_of_profiles(&vec![profile("KAAA", 20), profile("KDSM", 14)]);
    for i in 0..shuffled.len() {
        shuffled.swap(i, (i * 7 + 3) % 48);
    }
    let again = DayProfileRow::into_profiles(shuffled).unwrap();
    assert_eq!(again.len(), 2);
    for (found, wanted) in again.iter().zip([profile("KAAA", 20), profile("KDSM", 14)]) {
        assert_eq!(found.station_id.as_str(), wanted.station_id.as_str());
        assert_eq!(found.local_date, wanted.local_date);
        assert_eq!(found.observed_hour_count, wanted.observed_hour_count);
        assert_eq!(found.source_slugs, wanted.source_slugs);
        assert_eq!(format!("{:?}", found.hours), format!("{:?}", wanted.hours));
    }
    let mut rows = rows_of_profiles(&kept);
    assert_eq!(rows.len(), 72);
    assert_eq!(rows[24].local_date, "2026-05-14");
    rows.reverse();
    let profiles = DayProfileRow::into_profiles(rows).unwrap();
    let keys: Vec<(String, u32)> = profiles
        .iter()
        .map(|p| (p.station_id.as_str().to_owned(), p.local_date.day()))
        .collect();
    assert_eq!(
        keys,
        vec![("KAAA".to_owned(), 20), ("KDSM".to_owned(), 14), ("KDSM".to_owned(), 15)]
    );
    for profile in profiles {
        assert_eq!(profile.observed_hour_count, 23);
        assert_eq!(profile.source_slugs, vec!["ghcnh".to_owned()]);
        for (i, hour) in profile.hours.iter().enumerate() {
            assert_eq!(hour.hour as usize, i);
            assert_eq!(hour.sample_count, i);
            assert_eq!(hour.temperature_c, Some(reading(i as f64)));
        }
    }
}

#[test]
fn refuses_unreadable_profile_rows() {
    let mut rows = DayProfileRow::from_profile(&profile("KDSM", 14));
    for row in &mut rows {
        row.source_slugs_json = "{".to_owned();
    }
    assert_eq!(
        DayProfileRow::into_profiles(rows).unwrap_err(),
        RowError::ProfileSourceSlugs
    );
    let mut rows = DayProfileRow::from_profile(&profile("KDSM", 14));
    for row in &mut rows {
        row.local_date = "2026-13-01".to_owned();
    }
    assert_eq!(DayProfileRow::into_profiles(rows).unwrap_err(), RowError::ProfileDate);
}
