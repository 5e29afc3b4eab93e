use wxmatch::cache::{
    bootstrap_manifest, layout_lines, lock_extension, lock_step, quarantine_extension,
    temp_file_name, CacheLayout, LockEvent, LockStep, LOCK_ATTEMPTS,
};
use wxmatch::calendar::{Date, LocalTime, UtcTime};
use wxmatch::cli::{
    backfills, log_filter, CacheCommand, CacheSubcommand, Command, QueryCommand, QuerySubcommand,
    SourceCommand, SourceSubcommand,
};
use wxmatch::domain::{
    AnalogResult, CombinedProbability, DailySummary, DatasetManifest, DayProfile,
    MethodAvailability, ObservationRecord, ProbabilityBreakdown, ProbabilityEstimate, StationId,
};
use wxmatch::inspect::{
    artifact_matches, duckdb_lines, fetch_current_lines, fetch_station_lines, is_read_for_facts,
    manifest_facts, manifest_line, normalize_lines, source_coverage, source_lines, station_lines,
    NormalizedFile, SourceReport, StationReport,
};
use wxmatch::manifest::{
    daily_manifest, dataset_manifest_needs_refresh, date_range, format_years,
    input_paths_for_year, is_listed, is_outdated, is_source_manifest, is_station_manifest,
    is_station_source_manifest, manifest_kind, manifest_warnings, manifest_years,
    mentions_source, normalized_manifest, profile_manifest, source_raw_extension, source_role,
};
use wxmatch::paths::{
    file_name, has_extension, join_path, sort_paths, source_from_artifact_path,
    station_id_from_artifact_path, year_from_artifact_path,
};
use wxmatch::query::{
    analog_status_note, analogs_lines, day_lines, probability_lines, AnalogTexts, DayTexts,
    MethodTexts,
};
use wxmatch::reading::Reading;
use wxmatch::report::{
    derived_kind, derived_manifest_for, doctor_lines, named_kind, normalized_manifest_for,
    DerivedCheck, InputCheck, ManifestCheck, NormalizedCheck,
};
use wxmatch::source::DataSource;

fn layout() -> CacheLayout {
    CacheLayout::resolve(Some("/c"), None).unwrap()
}

fn station() -> StationId {
    StationId::new("KDSM")
}

fn date(year: i32, month: u32, day: u32) -> Date {
    Date::new(year, month, day).unwrap()
}

fn reading(value: f64) -> Reading {
    Reading { bits: value.to_bits() }
}

fn now() -> UtcTime {
    UtcTime::new(1_778_760_000, 0).unwrap()
}

fn summary(day: Date, slugs: &[&str]) -> DailySummary {
    DailySummary {
        station_id: station(),
        local_date: day,
        observation_count: 24,
        source_slugs: slugs.iter().map(|s| s.to_string()).collect(),
        high_temp_c: Some(reading(30.0)),
        low_temp_c: None,
        mean_temp_c: None,
        mean_dewpoint_c: None,
        mean_relative_humidity_pct: None,
        max_wind_speed_kt: None,
        mean_wind_u_kt: None,
        mean_wind_v_kt: None,
        total_precipitation_mm: None,
        mean_cloud_cover_fraction: None,
    }
}

fn profile(day: Date, hours: usize, slugs: &[&str]) -> DayProfile {
    DayProfile {
        station_id: station(),
        local_date: day,
        observed_hour_count: hours,
        source_slugs: slugs.iter().map(|s| s.to_string()).collect(),
        hours: Vec::new(),
    }
}

fn observation(source: DataSource, time: &str) -> ObservationRecord {
    ObservationRecord::from_parts(
        station(),
        source,
        "DSM".to_owned(),
        LocalTime::parse_rfc3339(time).unwrap(),
        "raw".to_owned(),
    )
}

#[test]
fn uses_explicit_cache_dir() {
    let layout = CacheLayout::resolve(Some("/tmp/wxmatch-test"), None).unwrap();
    assert_eq!(layout.root, "/tmp/wxmatch-test");
    assert_eq!(layout.logs_dir, "/tmp/wxmatch-test/logs");
}

#[test]
fn falls_back_to_the_cache_dir_of_the_user() {
    let layout = CacheLayout::resolve(None, Some("/home/a/.cache/")).unwrap();
    assert_eq!(layout.root, "/home/a/.cache/wxmatch");
    assert_eq!(
        CacheLayout::resolve(None, None).unwrap_err().message,
        "unable to resolve user cache directory"
    );
}

#[test]
fn lays_out_the_cache() {
    let layout = layout();
    assert_eq!(
        layout.directories(),
        ["/c", "/c/sources", "/c/stations", "/c/derived", "/c/manifests", "/c/logs"]
    );
    assert_eq!(layout_lines(&layout)[3], "derived: /c/derived");
    assert_eq!(layout.bootstrap_manifest_path(), "/c/manifests/bootstrap.json");
    assert_eq!(layout.source_root(DataSource::Ghcnh), "/c/sources/ghcnh");
    assert_eq!(layout.station_metadata_path(&station()), "/c/stations/KDSM.json");
    assert_eq!(
        layout.normalized_path(DataSource::NwsApi, &station(), 2026),
        "/c/sources/nws-api/normalized/station=KDSM/year=2026.parquet"
    );
    assert_eq!(
        layout.daily_summary_path(&station(), 2026),
        "/c/derived/station=KDSM/daily/year=2026.parquet"
    );
    assert_eq!(
        layout.day_profile_path(&station(), 2026),
        "/c/derived/station=KDSM/profiles/year=2026.parquet"
    );
    assert_eq!(
        layout.normalized_manifest_path(DataSource::Ghcnh, &station(), 2026),
        "/c/manifests/normalized-ghcnh-KDSM-2026.json"
    );
    assert_eq!(
        layout.derived_manifest_path("daily", &station(), 2026),
        "/c/manifests/derived-daily-KDSM-2026.json"
    );
}

#[test]
fn paths_read_back() {
    let layout = layout();
    for source in wxmatch::source::all_sources() {
        for year in [2026, -5, 0] {
            let path = layout.normalized_path(source, &station(), year);
            assert_eq!(year_from_artifact_path(&path), Some(year));
            assert_eq!(station_id_from_artifact_path(&path).unwrap().as_str(), "KDSM");
            assert_eq!(source_from_artifact_path(&path), Some(source));
            assert_eq!(
                normalized_manifest_for(&layout, &path),
                Some(layout.normalized_manifest_path(source, &station(), year))
            );
        }
    }
    let slashed = StationId::new("a/ghcnh");
    let path = layout.normalized_path(DataSource::NwsApi, &slashed, 2026);
    assert_eq!(year_from_artifact_path(&path), Some(2026));
    assert_eq!(source_from_artifact_path(&path), Some(DataSource::NwsApi));
    let path = layout.daily_summary_path(&slashed, 2026);
    assert_eq!(year_from_artifact_path(&path), Some(2026));
    let path = layout.day_profile_path(&station(), 2026);
    assert_eq!(year_from_artifact_path(&path), Some(2026));
    assert_eq!(derived_kind(&path), "profiles");
    assert_eq!(named_kind(&path), Some("profiles"));
    assert_eq!(named_kind("/c/derived/x.parquet"), None);
    assert_eq!(derived_kind("/c/derived/x.parquet"), "profiles");
    assert_eq!(
        derived_manifest_for(&layout, &path),
        Some(layout.derived_manifest_path("profiles", &station(), 2026))
    );
    assert_eq!(year_from_artifact_path("/c/year=x.parquet"), None);
    assert_eq!(source_from_artifact_path("/c/none/year=1.parquet"), None);
}

#[test]
fn takes_paths_apart() {
    assert_eq!(join_path("/c", "a/b"), "/c/a/b");
    assert_eq!(join_path("/c/", "a"), "/c/a");
    assert_eq!(join_path("/c", "/a"), "/a");
    assert_eq!(file_name("/c/a.json").as_deref(), Some("a.json"));
    assert_eq!(file_name("/c/..").as_deref(), None);
    assert!(has_extension("/c/a.json", "json"));
    assert!(!has_extension("/c/.json", "json"));
    assert!(!has_extension("/c/a.jsonl", "json"));
    let paths = ["/c/b", "/c/a/z", "/c/a.b", "/c/a"].map(str::to_owned).to_vec();
    let mut wanted: Vec<std::path::PathBuf> = paths.iter().map(std::path::PathBuf::from).collect();
    wanted.sort();
    let wanted: Vec<String> =
        wanted.into_iter().map(|p| p.to_str().unwrap().to_owned()).collect();
    assert_eq!(sort_paths(paths), wanted);
}

#[test]
fn notes_what_the_cache_was_made_with() {
    let note = bootstrap_manifest(now());
    assert_eq!(note.app_name, "wxmatch");
    assert_eq!(note.created_at_utc, now());
    let slugs: Vec<&str> = note.sources.iter().map(|s| s.slug.as_str()).collect();
    assert_eq!(slugs, vec!["iem-asos-1min", "ncei-asos-5min", "nws-api", "ghcnh"]);
}

#[test]
fn names_files_beside_a_file() {
    assert_eq!(temp_file_name(Some("a.json"), 7, 12), ".a.json.tmp-7-12");
    assert_eq!(temp_file_name(None, 7, 12), ".artifact.tmp-7-12");
    assert_eq!(lock_extension(Some("json")), "json.lock");
    assert_eq!(lock_extension(None), "artifact.lock");
    assert_eq!(quarantine_extension(Some("parquet"), 5), "parquet.corrupt-5");
    assert_eq!(quarantine_extension(None, 5), "artifact.corrupt-5");
}

#[test]
fn tries_a_busy_lock_again() {
    assert_eq!(lock_step(1, LockEvent::Taken), LockStep::Hold);
    assert_eq!(lock_step(1, LockEvent::Failed), LockStep::Fail);
    assert_eq!(lock_step(LOCK_ATTEMPTS - 1, LockEvent::Busy), LockStep::Retry);
    assert_eq!(lock_step(LOCK_ATTEMPTS, LockEvent::Busy), LockStep::TimeOut);
}

#[test]
fn writes_manifests() {
    let rows = vec![
        observation(DataSource::Ghcnh, "2026-05-15T00:00:00+00:00"),
        observation(DataSource::NwsApi, "2026-05-14T00:00:00+00:00"),
    ];
    let manifest = normalized_manifest(
        DataSource::Ghcnh,
        &station(),
        2026,
        now(),
        "/c/x",
        &rows,
        vec!["/c/raw".to_owned()],
    );
    assert_eq!(manifest.dataset_kind, "normalized-observations");
    assert_eq!(manifest.row_count, 2);
    assert_eq!(manifest.start_date, Some(date(2026, 5, 14)));
    assert_eq!(manifest.end_date, Some(date(2026, 5, 15)));
    assert_eq!(manifest.source_count, 2);
    assert_eq!(manifest.warnings.len(), 1);
    assert_eq!(manifest.input_paths, vec!["/c/raw"]);
    let daily = daily_manifest(
        &station(),
        2026,
        now(),
        "/c/d",
        &vec![summary(date(2026, 5, 14), &[])],
        Vec::new(),
    );
    assert_eq!(daily.row_count, 1);
    assert_eq!(daily.start_date, daily.end_date);
    let profiles = profile_manifest(
        &station(),
        2026,
        now(),
        "/c/p",
        &vec![profile(date(2026, 5, 14), 3, &[])],
        Vec::new(),
    );
    assert_eq!(profiles.start_date, Some(date(2026, 5, 14)));
    assert_eq!(date_range(&Vec::new()), (None, None));
}

fn manifest(year: i32, warnings: &[&str]) -> DatasetManifest {
    DatasetManifest {
        dataset_kind: "normalized-observations".to_owned(),
        source: Some(DataSource::Ghcnh),
        station_id: "KDSM".to_owned(),
        year,
        schema_version: "v1".to_owned(),
        generated_at_utc: now(),
        row_count: 1,
        start_date: None,
        end_date: None,
        artifact_path: "/c/x".to_owned(),
        input_paths: Vec::new(),
        warnings: warnings.iter().map(|w| w.to_string()).collect(),
        source_count: 1,
    }
}

#[test]
fn gathers_manifests() {
    let all =
        vec![manifest(2026, &["b", "a"]), manifest(2024, &["b"]), manifest(2026, &["\u{e9}"])];
    assert_eq!(manifest_years(&all), vec![2024, 2026]);
    assert_eq!(manifest_warnings(&all), vec!["a", "b", "\u{e9}"]);
    assert_eq!(format_years(&manifest_years(&all)), "2024,2026");
    assert_eq!(format_years(&Vec::new()), "-");
    let coverage = source_coverage(DataSource::Ghcnh, &all);
    assert_eq!(coverage.manifest_count, 3);
    assert_eq!(coverage.role, "fallback-hourly");
}

#[test]
fn tells_manifests_by_their_names() {
    assert_eq!(manifest_kind("normalized-ghcnh-KDSM-2026.json"), "normalized");
    assert_eq!(manifest_kind("derived-daily-KDSM-2026.json"), "derived");
    assert_eq!(manifest_kind("fetch-x.json"), "fetch");
    assert_eq!(manifest_kind("bootstrap.json"), "bootstrap");
    assert_eq!(manifest_kind("x.json"), "unknown");
    assert!(!is_read_for_facts("bootstrap.json") && is_read_for_facts("x.json"));
    let name = "normalized-ghcnh-KDSM-2026.json";
    assert!(is_source_manifest(name, DataSource::Ghcnh));
    assert!(!is_source_manifest(name, DataSource::NwsApi));
    assert!(mentions_source(&format!("old-{name}"), DataSource::Ghcnh));
    assert!(!mentions_source(name, DataSource::NwsApi));
    assert!(is_station_manifest(name, "normalized-", &station()));
    assert!(!is_station_manifest(name, "derived-", &station()));
    assert!(is_station_source_manifest(name, &station(), DataSource::Ghcnh));
    assert!(!is_station_source_manifest(name, &StationId::new("KORD"), DataSource::Ghcnh));
    assert!(is_listed(Some(name), Some(&station())) && is_listed(None, None));
    assert!(!is_listed(None, Some(&station())));
    assert!(is_outdated(false, true) && is_outdated(true, false) && !is_outdated(true, true));
    let refresh = |body: &str| dataset_manifest_needs_refresh(body.as_bytes());
    assert_eq!(refresh("{\"warnings\": [], \"source_count\": 1}"), Some(false));
    assert_eq!(refresh("{\"warnings\": []}"), Some(true));
    assert_eq!(refresh("[1]"), Some(true));
    assert_eq!(refresh("{"), None);
}

#[test]
fn chooses_inputs_of_a_year() {
    let paths = ["/c/20250101__20250131.csv", "/c/2026.csv", "/c/x"].map(str::to_owned).to_vec();
    assert_eq!(input_paths_for_year(paths, 2026), vec!["/c/2026.csv"]);
    assert_eq!(source_raw_extension(DataSource::NceiAsosFiveMinute), "dat");
    assert_eq!(source_role(DataSource::NwsApi), "current-day-live");
}

#[test]
fn examines_the_cache() {
    let layout = layout();
    let normalized = vec![NormalizedCheck {
        path: layout.normalized_path(DataSource::Ghcnh, &station(), 2026),
        manifest_exists: false,
    }];
    let input = InputCheck {
        path: layout.normalized_path(DataSource::NwsApi, &station(), 2026),
        modified: Some(11),
        manifest_modified: Some(12),
    };
    let derived = vec![
        DerivedCheck { path: layout.daily_summary_path(&station(), 2026), manifest: None },
        DerivedCheck {
            path: layout.day_profile_path(&station(), 2026),
            manifest: Some(ManifestCheck { modified: Some(10), inputs: vec![input] }),
        },
    ];
    let exist = vec![true, true, false, true, true, true];
    let lines = doctor_lines(&layout, &exist, true, &normalized, &derived);
    assert!(lines.iter().any(|l| l.ends_with("/c/stations") && l.contains("missing")));
    assert!(lines.contains(&format!(
        "   warning  missing normalized manifest for {}",
        layout.normalized_path(DataSource::Ghcnh, &station(), 2026)
    )));
    assert!(lines.contains(&format!(
        "   warning  missing derived manifest for {}",
        layout.daily_summary_path(&station(), 2026)
    )));
    let note = layout.derived_manifest_path("profiles", &station(), 2026);
    assert!(lines.contains(&format!(
        "   warning  derived manifest {note} is older than input {}",
        layout.normalized_path(DataSource::NwsApi, &station(), 2026)
    )));
    assert!(lines.contains(&format!(
        "   warning  derived manifest {note} is older than normalized manifest {}",
        layout.normalized_manifest_path(DataSource::NwsApi, &station(), 2026)
    )));
    assert_eq!(lines.len(), 8 + 4);
}

#[test]
fn prints_sources_and_stations() {
    let report = SourceReport {
        source: DataSource::NwsApi,
        raw_files: 3,
        normalized_files: 2,
        manifest_files: 1,
        coverage_years: vec![2026],
        warnings: vec!["w".to_owned()],
    };
    assert_eq!(
        source_lines(&report),
        vec![
            format!(
                "{:16}  role={:20} cadence={:12} scope={:18} raw={:4} normalized={:4} manifests={:4} years={} {}",
                "nws-api",
                "current-day-live",
                DataSource::NwsApi.cadence(),
                DataSource::NwsApi.scope(),
                3,
                2,
                1,
                "2026",
                DataSource::NwsApi.summary()
            ),
            "  warning: w".to_owned(),
        ]
    );
    let report = StationReport {
        station: "KDSM".to_owned(),
        source_station_id: "KDSM".to_owned(),
        name: "Des Moines".to_owned(),
        timezone: "America/Chicago".to_owned(),
        latitude: "41.5340".to_owned(),
        longitude: "-93.6630".to_owned(),
        elevation_m: None,
        provider: None,
        station_cache: "/c/stations/KDSM.json".to_owned(),
        iem_raw_files: 1,
        iem_normalized_files: 2,
        nws_normalized_files: 3,
        ncei_normalized_files: 4,
        ghcnh_normalized_files: 5,
        daily_years: 6,
        profile_years: 7,
        normalized_manifests: 8,
        derived_manifests: 9,
        freshness_note: Some("fresh".to_owned()),
        coverage: vec![source_coverage(DataSource::Ghcnh, &vec![manifest(2026, &["a"])])],
    };
    let lines = station_lines(&report);
    assert_eq!(lines[4], "location: 41.5340, -93.6630");
    assert_eq!(lines[5], "provider: unknown");
    assert_eq!(lines[lines.len() - 2], "current-day status: fresh");
    assert_eq!(lines[lines.len() - 1], "ghcnh: years=2026 warnings=1");
}

#[test]
fn prints_manifests_and_data_files() {
    let facts = manifest_facts(b"{\"year\": 2026, \"row_count\": 4, \"station_id\": 1}");
    let named = manifest_facts(b"{\"station_id\": \"KDSM\", \"year\": -1, \"row_count\": -1}").unwrap();
    assert_eq!((named.station_id.as_deref(), named.year, named.row_count), (Some("KDSM"), -1, 0));
    assert!(manifest_facts(b"no json").is_none());
    assert_eq!(
        manifest_line("derived-x.json", "/c/derived-x.json", &facts),
        format!("{:18} station=- year=2026 rows=4 path=/c/derived-x.json", "derived")
    );
    assert_eq!(
        manifest_line("bootstrap.json", "/b", &None),
        format!("{:18} path=/b", "bootstrap")
    );
    let layout = layout();
    let path = layout.normalized_path(DataSource::NwsApi, &station(), 2026);
    assert!(artifact_matches(&path, Some(&station()), Some(2026)));
    assert!(!artifact_matches(&path, Some(&StationId::new("KORD")), None));
    assert!(!artifact_matches(&path, None, Some(2025)) && artifact_matches(&path, None, None));
    let lines = duckdb_lines(
        &vec![NormalizedFile { source: DataSource::NwsApi, path: path.clone() }],
        &vec![layout.daily_summary_path(&station(), 2026)],
    );
    assert_eq!(lines[0], "normalized:");
    assert_eq!(lines[1], format!("nws-api  {path}"));
    assert_eq!(lines[3], "daily  /c/derived/station=KDSM/daily/year=2026.parquet");
    assert_eq!(lines[4], format!("duckdb -c \"select * from '{path}' limit 5\""));
    assert_eq!(duckdb_lines(&Vec::new(), &Vec::new()).len(), 2);
}

#[test]
fn prints_fetches() {
    let lines = fetch_station_lines(
        &station(),
        DataSource::Ghcnh,
        date(2026, 5, 1),
        date(2026, 5, 2),
        "/c/raw",
        42,
        true,
    );
    assert_eq!(lines[2], "window: 2026-05-01 -> 2026-05-02");
    assert_eq!(lines[4], "bytes: 42");
    assert_eq!(lines[5], "cache: reused");
    let lines = fetch_current_lines(&station(), "/r", "/n", 1);
    assert_eq!(lines[4], "observations added: 1");
    let lines = normalize_lines(&layout(), &station(), DataSource::Ghcnh, 12);
    assert_eq!(lines[2], "normalized observations: 12");
    assert_eq!(lines[3], "normalized root: /c/sources/ghcnh/normalized/station=KDSM");
}

#[test]
fn prints_a_day() {
    let day = date(2026, 5, 14);
    let shown = DayTexts { high: Some("86.0".to_owned()), low: None, mean: None };
    let lines = day_lines(
        &station(),
        &summary(day, &["nws-api"]),
        &profile(day, 2, &["nws-api"]),
        &shown,
        day,
        &None,
    );
    assert_eq!(
        lines,
        vec![
            "station: KDSM",
            "date: 2026-05-14",
            "observations: 24",
            "high: 86.0F",
            "observed hours: 2",
            "quality state: sparse-current-day",
            "sources: nws-api",
            "quality: low-history / partial-day target currently relies only on NWS API observations",
        ]
    );
}

#[test]
fn prints_a_probability() {
    let breakdown = ProbabilityBreakdown {
        station_id: station(),
        target_date: date(2026, 5, 14),
        threshold_high_c: reading(25.0),
        quality_state: "normal".to_owned(),
        methods: vec![ProbabilityEstimate {
            method: "m".to_owned(),
            probability: reading(0.5),
            sample_size: 4,
            weight_used: Some(reading(1.0)),
            confidence_note: Some("c".to_owned()),
            note: Some("n".to_owned()),
        }],
        unavailable_methods: vec![MethodAvailability {
            method: "u".to_owned(),
            reason: "r".to_owned(),
        }],
        combined: Some(CombinedProbability {
            probability: reading(0.5),
            method_count: 2,
            combination_note: "k".to_owned(),
        }),
        combined_probability: Some(reading(0.5)),
    };
    let shown =
        vec![MethodTexts { percent: "50.0".to_owned(), weight: Some("1.00".to_owned()) }];
    let lines = probability_lines(
        &breakdown,
        "77.0",
        &shown,
        &Some("50.0".to_owned()),
        &Some("f".to_owned()),
        &None,
    );
    assert_eq!(
        lines,
        vec![
            "station: KDSM",
            "date: 2026-05-14",
            "threshold high: 77.0F",
            "quality state: normal",
            "m: 50.0% (n=4) weight=1.00 confidence=c [n]",
            "u: unavailable [r]",
            "combined: 50.0% (methods=2 [k])",
            "freshness: f",
        ]
    );
}

#[test]
fn prints_analogs() {
    let target = profile(date(2026, 5, 14), 9, &["ghcnh"]);
    let analogs = vec![AnalogResult {
        station_id: station(),
        target_date: date(2026, 5, 14),
        analog_date: date(2025, 5, 14),
        distance: reading(0.5),
        observed_high_c: None,
        compared_hours: 9,
        candidate_source_summary: "ghcnh".to_owned(),
        source_mix_note: Some("mixed".to_owned()),
    }];
    let shown = vec![AnalogTexts { distance: "0.500".to_owned(), high: None }];
    let lines = analogs_lines(
        &station(),
        date(2026, 5, 14),
        &target,
        &analogs,
        &shown,
        "mixed-cadence",
        None,
        &None,
    );
    assert_eq!(lines[2], "top analogs: 1");
    assert_eq!(lines[3], "target observed hours: 9");
    assert_eq!(
        lines.last().unwrap(),
        "2025-05-14  distance=0.500 high=n/a compared_hours=9 sources=ghcnh [mixed]"
    );
    assert_eq!(analog_status_note(1, 0, None), None);
    assert_eq!(
        analog_status_note(0, 1, Some(3)).as_deref(),
        Some("insufficient observed hours for analog search: 1 observed, 2 required")
    );
    assert_eq!(
        analog_status_note(0, 8, None).as_deref(),
        Some("no comparable analogs found for target profile with 8 observed hours")
    );
}

#[test]
fn reads_what_a_call_asks_for() {
    assert_eq!(log_filter(Some("x=debug"), 2), "x=debug");
    assert_eq!(log_filter(None, 0), "wxmatch=info,reqwest=warn");
    assert_eq!(log_filter(None, 9), "wxmatch=trace,reqwest=debug");
    assert!(backfills(&Command::Source(SourceCommand { command: SourceSubcommand::List })));
    assert!(!backfills(&Command::Cache(CacheCommand { command: CacheSubcommand::Init })));
    assert!(backfills(&Command::Query(QueryCommand {
        command: QuerySubcommand::DuckdbPaths { station: None, year: None }
    })));
    assert!(!backfills(&Command::Query(QueryCommand {
        command: QuerySubcommand::Today { station: "KDSM".to_owned() }
    })));
}
