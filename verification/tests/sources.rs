use wxmatch::cache::CacheLayout;
use wxmatch::calendar::{Date, LocalTime, UtcTime, Zone};
use wxmatch::domain::{ObservationRecord, QualityFlag, StationId, StationRecord};
use wxmatch::fetch::{
    check_window, current_refusal, historical_refusal, is_rebuilt_today, is_reused, month_urls,
    next_iem_url, source_step, year_urls, IemProgress, SourceStep,
};
use wxmatch::fields::{
    field, find_header, find_header_starting, find_optional_header, optional_field,
    parse_optional_f64_field,
};
use wxmatch::ghcnh::{
    ghcnh_station_id, normalize_ghcnh, year_url, GhcnhHeaderIndexes, GhcnhStationListRow,
};
use wxmatch::iem::{normalize_iem, parse_local_datetime, IemHeaderIndexes};
use wxmatch::metar::{
    parse_altimeter_token, parse_metar_wind_token, parse_miles_number, parse_ncei_precip_token,
    parse_signed_metar_number, parse_temp_dew_token, parse_visibility_token, token_kind, TokenKind,
};
use wxmatch::ncei::{month_span, normalize_ncei, parse_ncei_line};
use wxmatch::nws::{
    latest_observation_name, latest_observation_place, latest_url, normalize_nws, observations_url, points_url, station_url,
    NwsFeature, NwsObservationProperties,
};
use wxmatch::reading::{Arithmetic, Contrast, Reading, Vote, Weighted};
use wxmatch::source::DataSource;
use wxmatch::text::to_chars;

struct Floats;

fn value(reading: Reading) -> f64 {
    f64::from_bits(reading.bits)
}

fn reading(value: f64) -> Reading {
    Reading { bits: value.to_bits() }
}

impl Arithmetic for Floats {
    fn number(&self, text: &str) -> Option<Reading> {
        text.parse::<f64>().ok().map(reading)
    }

    fn fahrenheit_to_celsius(&self, v: Reading) -> Reading {
        reading((value(v) - 32.0) * 5.0 / 9.0)
    }

    fn inches_hg_to_hpa(&self, v: Reading) -> Reading {
        reading(value(v) * 33.8638866667)
    }

    fn kmh_to_knots(&self, v: Reading) -> Reading {
        reading(value(v) / 1.852)
    }

    fn pa_to_hpa(&self, v: Reading) -> Reading {
        reading(value(v) / 100.0)
    }

    fn meters_to_km(&self, v: Reading) -> Reading {
        reading(value(v) / 1000.0)
    }

    fn inches_to_mm(&self, v: Reading) -> Reading {
        reading(value(v) * 25.4)
    }

    fn miles_to_km(&self, v: Reading) -> Reading {
        reading(value(v) * 1.60934)
    }

    fn hundredths_to_mm(&self, v: Reading) -> Reading {
        reading(value(v) * 0.254)
    }

    fn hundredths_hg_to_hpa(&self, v: Reading) -> Reading {
        reading(value(v) / 100.0 * 33.8638866667)
    }

    fn plus(&self, left: Reading, right: Reading) -> Reading {
        reading(value(left) + value(right))
    }

    fn over(&self, left: Reading, right: Reading) -> Reading {
        reading(value(left) / value(right))
    }

    fn relative_humidity_from_celsius(&self, temp_c: Reading, dewpoint_c: Reading) -> Reading {
        let (t, d) = (value(temp_c), value(dewpoint_c));
        let saturation = ((17.625 * t) / (243.04 + t)).exp();
        let actual = ((17.625 * d) / (243.04 + d)).exp();
        reading((100.0 * actual / saturation).clamp(0.0, 100.0))
    }

    fn wind_components_knots(&self, direction_deg: Reading, speed_kt: Reading) -> (Reading, Reading) {
        let theta = value(direction_deg).to_radians();
        let speed = value(speed_kt);
        (reading(-speed * theta.sin()), reading(-speed * theta.cos()))
    }

    fn mean(&self, values: &Vec<Reading>) -> Reading {
        reading(values.iter().map(|v| value(*v)).sum::<f64>() / values.len() as f64)
    }

    fn total(&self, values: &Vec<Reading>) -> Reading {
        reading(values.iter().map(|v| value(*v)).sum())
    }

    fn share(&self, hits: usize, matches: usize) -> Reading {
        reading(hits as f64 / matches as f64)
    }

    fn separation(&self, contrasts: &Vec<Contrast>) -> Reading {
        let mut total = 0.0;
        for contrast in contrasts {
            let scale = contrast.scale_tenths as f64 / 10.0;
            let delta = (value(contrast.greater) - value(contrast.lesser)) / scale;
            total += delta * delta;
        }
        reading((total / contrasts.len() as f64).sqrt())
    }

    fn vote_share(&self, votes: &Vec<Vote>, softening_hundredths: u32) -> Option<Reading> {
        let softening = f64::from(softening_hundredths) / 100.0;
        let mut hits = 0.0;
        let mut total = 0.0;
        for vote in votes {
            let weight = 1.0 / (value(vote.distance) + softening);
            total += weight;
            if vote.hit {
                hits += weight;
            }
        }
        if total <= f64::EPSILON {
            None
        } else {
            Some(reading(hits / total))
        }
    }

    fn blend(&self, values: &Vec<Weighted>) -> Reading {
        let mut sum = 0.0;
        let mut weights = 0.0;
        for item in values {
            let weight = item.weight_hundredths as f64 / 100.0;
            sum += value(item.value) * weight;
            weights += weight;
        }
        reading(sum / weights)
    }
}

const LINE: &str = "14933KDSM DSM20260501000010105/01/26 00:00:31  5-MIN KDSM 010600Z 24003KT 10SM CLR 06/M02 A3007 820 57 0 230/03 RMK AO2 T00611017";

fn station(timezone: &str) -> StationRecord {
    StationRecord {
        station_id: StationId::new("KDSM"),
        source_station_id: "KDSM".to_owned(),
        name: "Des Moines".to_owned(),
        timezone: timezone.to_owned(),
        latitude: reading(0.0),
        longitude: reading(0.0),
        elevation_m: None,
        provider: None,
        fetched_at_utc: UtcTime::new(0, 0).unwrap(),
    }
}

fn chicago() -> Zone {
    Zone::parse("America/Chicago").unwrap()
}

fn date(year: i32, month: u32, day: u32) -> Date {
    Date::new(year, month, day).unwrap()
}

fn ncei(line: &str) -> Result<Option<ObservationRecord>, String> {
    parse_ncei_line(&Floats, &to_chars(line), &StationId::new("KDSM"), &chicago(), "/tmp/ncei.dat")
        .map_err(|failure| failure.message)
}

fn missing(flags: &[QualityFlag]) -> Vec<String> {
    flags
        .iter()
        .filter_map(|flag| match flag {
            QualityFlag::SourceFieldMissing(name) => Some(name.clone()),
            _ => None,
        })
        .collect()
}

fn near(left: Option<Reading>, right: f64) -> bool {
    (value(left.unwrap()) - right).abs() < 1e-9
}

#[test]
fn parses_numeric_optional_f64() {
    let probe: serde_json::Value = serde_json::from_str(r#"{"value":"29.015"}"#).unwrap();
    assert_eq!(
        parse_optional_f64_field(&Floats, probe["value"].as_str()).unwrap(),
        Some(reading(29.015))
    );
}

#[test]
fn parses_missing_tokens_as_none() {
    for raw in [r#"{"value":"M"}"#, r#"{"value":"VRB"}"#, r#"{"value":null}"#] {
        let probe: serde_json::Value = serde_json::from_str(raw).unwrap();
        assert_eq!(parse_optional_f64_field(&Floats, probe["value"].as_str()).unwrap(), None);
    }
}

#[test]
fn refuses_fields_that_are_no_numbers() {
    let failure = parse_optional_f64_field(&Floats, Some(" 12x ")).unwrap_err();
    assert_eq!(failure.message, "failed to parse numeric field 12x");
    assert_eq!(parse_optional_f64_field(&Floats, Some("   ")).unwrap(), None);
    assert_eq!(parse_optional_f64_field(&Floats, Some(" -4.5 ")).unwrap(), Some(reading(-4.5)));
}

#[test]
fn parses_ncei_five_minute_line() {
    let station = station("America/Chicago");
    let zone = Zone::parse(&station.timezone).unwrap();
    let line = LINE;
    let observation =
        parse_ncei_line(&Floats, &to_chars(line), &station.station_id, &zone, "/tmp/ncei.dat")
            .unwrap()
            .unwrap();
    assert_eq!(observation.station_id.as_str(), "KDSM");
    assert_eq!(observation.observed_at_local.hour(), 0);
    assert_eq!(observation.temperature_c, Some(reading(6.0)));
    assert_eq!(observation.dewpoint_c, Some(reading(-2.0)));
    assert_eq!(observation.wind_speed_kt, Some(reading(3.0)));
    assert_eq!(observation.wind_direction_deg, Some(reading(240.0)));
    assert_eq!(observation.cloud_cover_code.as_deref(), Some("CLR"));
}

#[test]
fn completes_ncei_observations() {
    let observation = ncei(LINE).unwrap().unwrap();
    assert_eq!(observation.source, DataSource::NceiAsosFiveMinute);
    assert_eq!(observation.observed_at_utc.to_rfc3339(), "2026-05-01T05:00:00+00:00");
    assert_eq!(observation.raw_ref, "/tmp/ncei.dat");
    assert!(near(observation.visibility_km, 16.0934));
    assert!(near(observation.pressure_hpa, 30.07 * 33.8638866667));
    assert_eq!(observation.cloud_cover_fraction, Some(reading(0.0)));
    assert!(observation.relative_humidity_pct.is_some());
    assert!(near(observation.wind_u_kt, -3.0 * 240f64.to_radians().sin()));
    assert_eq!(missing(&observation.quality_flags), vec!["precip-token".to_owned()]);
    assert!(observation
        .quality_flags
        .iter()
        .any(|flag| matches!(flag, QualityFlag::DerivedRelativeHumidity)));
}

#[test]
fn keeps_the_first_temperature_and_the_largest_cloud_share() {
    let line = LINE.replace("10SM CLR 06/M02", "P0012 FEW020 BKN040 SCT100 11/09 06/M02");
    let observation = ncei(&line).unwrap().unwrap();
    assert_eq!(observation.temperature_c, Some(reading(11.0)));
    assert_eq!(observation.dewpoint_c, Some(reading(9.0)));
    assert_eq!(observation.cloud_cover_code.as_deref(), Some("FEW"));
    assert_eq!(observation.cloud_cover_fraction, Some(reading(0.75)));
    assert!(near(observation.precipitation_mm, 12.0 * 0.254));
}

#[test]
fn passes_over_short_ncei_lines() {
    assert!(ncei("").unwrap().is_none());
    assert!(ncei("14933KDSM DSM2026").unwrap().is_none());
}

#[test]
fn refuses_unreadable_ncei_lines() {
    let line = LINE.replace("DSM20260501000010105/01/26", "DSM20261301000010105/01/26");
    assert!(ncei(&line).unwrap_err().starts_with("failed to parse NCEI local timestamp "));
    let line = LINE.replace("DSM20260501000010105/01/26", "DSM20260308023010105/01/26");
    assert_eq!(
        ncei(&line).unwrap_err(),
        "failed to resolve NCEI local timestamp in station timezone"
    );
    let line = LINE.replace("24003KT", "24\u{20ac}03KT");
    assert_eq!(ncei(&line).unwrap_err(), "wind token missing direction");
}

#[test]
fn normalizes_ncei_content() {
    let content = format!("{LINE}\n\n{}\r\n", LINE.replace("0501000010", "0501000510"));
    let observations =
        normalize_ncei(&Floats, &content, &station("America/Chicago"), "ref").unwrap();
    assert_eq!(observations.len(), 2);
    assert_eq!(observations[1].observed_at_local.minute(), 5);
    let failure = normalize_ncei(&Floats, &content, &station("Mars/Base"), "ref").unwrap_err();
    assert_eq!(failure.message, "unsupported timezone Mars/Base");
}

#[test]
fn tells_tokens_apart() {
    for (token, kind) in [
        ("24003KT", TokenKind::Wind),
        ("P0012", TokenKind::Rain),
        ("10SM", TokenKind::Visibility),
        ("A3007", TokenKind::Pressure),
        ("06/M02", TokenKind::Temperature),
        ("05/01/26", TokenKind::Temperature),
        ("1/2Z", TokenKind::Sky),
        ("BKN040", TokenKind::Sky),
    ] {
        assert_eq!(token_kind(&to_chars(token)), kind, "{token}");
    }
}

#[test]
fn reads_wind_tokens() {
    let wind = |token: &str| parse_metar_wind_token(&Floats, &to_chars(token));
    assert_eq!(
        wind("24003G15KT"),
        Some((Some(reading(240.0)), Some(reading(3.0)), Some(reading(15.0))))
    );
    assert_eq!(wind("VRB05KT"), Some((None, Some(reading(5.0)), None)));
    assert_eq!(wind("/////KT"), Some((None, None, None)));
    assert_eq!(wind("03KT"), Some((None, None, None)));
}

#[test]
fn reads_the_other_tokens() {
    let chars = |token: &str| to_chars(token);
    assert_eq!(parse_miles_number(&Floats, &chars("1/4")), Some(reading(0.25)));
    assert_eq!(parse_miles_number(&Floats, &chars("x")), None);
    assert!(near(parse_visibility_token(&Floats, &chars("1 1/2SM")), 1.5 * 1.60934));
    assert!(near(parse_visibility_token(&Floats, &chars("10SM")), 16.0934));
    assert!(near(parse_altimeter_token(&Floats, &chars("A2992")), 29.92 * 33.8638866667));
    assert_eq!(parse_altimeter_token(&Floats, &chars("2992")), None);
    assert!(near(parse_ncei_precip_token(&Floats, &chars("P0100")), 25.4));
    assert_eq!(parse_signed_metar_number(&Floats, &chars("M02")), Some(reading(-2.0)));
    assert_eq!(parse_signed_metar_number(&Floats, &chars("MM")), None);
    assert_eq!(
        parse_temp_dew_token(&Floats, &chars("06/M02")),
        Some((Some(reading(6.0)), Some(reading(-2.0))))
    );
    assert_eq!(parse_temp_dew_token(&Floats, &chars("06")), None);
}

#[test]
fn finds_columns_and_fields() {
    let headers: Vec<String> =
        ["station", "valid(America/Chicago)", "tmpf", "tmpf"].map(str::to_owned).to_vec();
    assert_eq!(find_header(&headers, "tmpf").unwrap(), 2);
    assert_eq!(find_header(&headers, "dwpf").unwrap_err().message, "IEM CSV missing dwpf column");
    assert_eq!(find_header_starting(&headers, "valid("), Some(1));
    assert_eq!(find_optional_header(&headers, "skyc1"), None);
    assert_eq!(field(&headers, 0), Some("station"));
    assert_eq!(field(&headers, 4), None);
    assert_eq!(optional_field(&headers, None), None);
    assert_eq!(
        IemHeaderIndexes::from_headers(&headers).unwrap_err().message,
        "IEM CSV missing dwpf column"
    );
    assert_eq!(
        GhcnhHeaderIndexes::from_headers(&headers).unwrap_err().message,
        "IEM CSV missing STATION column"
    );
}

const IEM: &str = "station,station_name,valid(America/Chicago),tmpf,dwpf,sknt,drct,pres1,p01i,vsby,skyc1\n";

#[test]
fn normalizes_iem_content() {
    let content = format!(
        "{IEM}DSM,\"Des Moines, IA\",2026-05-14 00:00,68,50,10,180,29.92,0.1,10, OVC \nDSM,x,2026-05-14 00:01,M,M,M,VRB,M,M,M,M\n"
    );
    let observations =
        normalize_iem(&Floats, content.as_bytes(), &station("America/Chicago"), "ref").unwrap();
    assert_eq!(observations.len(), 2);
    let first = &observations[0];
    assert_eq!(first.source, DataSource::IemAsosOneMinute);
    assert_eq!(first.source_station_id, "DSM");
    assert_eq!(first.observed_at_utc.to_rfc3339(), "2026-05-14T05:00:00+00:00");
    assert_eq!(first.temperature_c, Some(reading(20.0)));
    assert_eq!(first.dewpoint_c, Some(reading(10.0)));
    assert!(near(first.pressure_hpa, 29.92 * 33.8638866667));
    assert!(near(first.precipitation_mm, 2.54));
    assert!(near(first.visibility_km, 16.0934));
    assert_eq!(first.cloud_cover_code.as_deref(), Some("OVC"));
    assert_eq!(first.cloud_cover_fraction, Some(reading(1.0)));
    assert!(near(first.wind_v_kt, 10.0));
    assert_eq!(first.quality_flags.len(), 1);
    let second = &observations[1];
    assert!(second.temperature_c.is_none() && second.wind_u_kt.is_none());
    assert_eq!(second.quality_flags.len(), 4);
}

#[test]
fn refuses_unreadable_iem_content() {
    let fail = |content: &str, zone: &str| {
        normalize_iem(&Floats, content.as_bytes(), &station(zone), "ref").unwrap_err().message
    };
    let zone = "America/Chicago";
    assert_eq!(fail(IEM, "Nowhere"), "unsupported timezone Nowhere");
    assert_eq!(fail("station,tmpf\n", zone), "IEM CSV missing valid(...) column");
    assert_eq!(fail(&format!("{IEM}DSM,short\n"), zone), "failed to parse IEM row");
    assert_eq!(
        fail(&format!("{IEM}DSM,x,2026-05-14,1,1,1,1,1,1,1,1\n"), zone),
        "failed to parse IEM local timestamp 2026-05-14"
    );
    assert_eq!(
        fail(&format!("{IEM}DSM,x,2026-03-08 02:30,1,1,1,1,1,1,1,1\n"), zone),
        "failed to resolve IEM local timestamp in station timezone"
    );
    assert_eq!(
        fail(&format!("{IEM}DSM,x,2026-05-14 00:00,warm,1,1,1,1,1,1,1\n"), zone),
        "failed to parse numeric field warm"
    );
    assert_eq!(
        normalize_iem(&Floats, b"station,\xff\xfe\n", &station(zone), "ref").unwrap_err().message,
        "failed to read IEM CSV headers"
    );
}

#[test]
fn reads_local_times() {
    let time = parse_local_datetime("2026-05-14 13:45", &chicago()).unwrap();
    assert_eq!(time.to_rfc3339(), "2026-05-14T13:45:00-05:00");
}

const GHCNH: &str = "STATION|DATE|temperature|dew_point_temperature|relative_humidity|station_level_pressure|sea_level_pressure|wind_direction|wind_speed|wind_gust|precipitation|visibility|altimeter|sky_cover_layer_1\n";

#[test]
fn normalizes_ghcnh_content() {
    let content = format!(
        "{GHCNH}USW1|2026-05-14T06:00:00|20|10|50|990|1013|90|5|8|1|16|1010|BKN\nUSW1||1|1|1|1|1|1|1|1|1|1|1|x\nUSW1|2026-05-14T07:00:00Z|20|10||||90|5||||1010|\n"
    );
    let observations =
        normalize_ghcnh(&Floats, content.as_bytes(), &station("America/Chicago"), "ref").unwrap();
    assert_eq!(observations.len(), 2);
    let first = &observations[0];
    assert_eq!(first.source, DataSource::Ghcnh);
    assert_eq!(first.source_station_id, "USW1");
    assert_eq!(first.observed_at_local.to_rfc3339(), "2026-05-14T01:00:00-05:00");
    assert_eq!(first.relative_humidity_pct, Some(reading(50.0)));
    assert_eq!(first.pressure_hpa, Some(reading(990.0)));
    assert_eq!(first.wind_gust_kt, Some(reading(8.0)));
    assert!(near(first.wind_u_kt, -5.0));
    assert!(first.quality_flags.is_empty());
    let second = &observations[1];
    assert_eq!(second.observed_at_utc.to_rfc3339(), "2026-05-14T07:00:00+00:00");
    assert_eq!(second.pressure_hpa, Some(reading(1010.0)));
    assert!(second.relative_humidity_pct.is_some());
    assert_eq!(second.quality_flags.len(), 1);
}

#[test]
fn refuses_unreadable_ghcnh_content() {
    let fail = |content: &str| {
        normalize_ghcnh(&Floats, content.as_bytes(), &station("UTC"), "ref").unwrap_err().message
    };
    assert_eq!(fail("STATION|DATE\n"), "IEM CSV missing temperature column");
    assert_eq!(
        fail(&format!("{GHCNH}USW1|noon|1|1|1|1|1|1|1|1|1|1|1|x\n")),
        "failed to parse GHCNh timestamp noon"
    );
    assert_eq!(
        fail(&format!("{GHCNH}USW1|2026-05-14T06:00:00|cold|1|1|1|1|1|1|1|1|1|1|x\n")),
        "failed to parse numeric field cold"
    );
    assert_eq!(
        normalize_ghcnh(&Floats, b"", &station("Nowhere"), "ref").unwrap_err().message,
        "unsupported timezone Nowhere"
    );
}

#[test]
fn finds_ghcnh_stations() {
    let row = |id: &str, icao: Option<&str>| GhcnhStationListRow {
        ghcn_id: id.to_owned(),
        icao: icao.map(str::to_owned),
    };
    let rows = vec![row("A", None), row("B", Some("KORD")), row("C", Some("KDSM"))];
    assert_eq!(ghcnh_station_id(&rows, &StationId::new("dsm")).unwrap(), "C");
    assert_eq!(
        ghcnh_station_id(&rows, &StationId::new("KLAX")).unwrap_err().message,
        "no GHCNh station mapping found for KLAX"
    );
    assert_eq!(
        year_url("USW1", 2026),
        "https://www.ncei.noaa.gov/oa/global-historical-climatology-network/hourly/access/by-year/2026/psv/GHCNh_USW1_2026.psv"
    );
}

fn properties(timestamp: &str) -> NwsObservationProperties {
    NwsObservationProperties {
        station_id: "KDSM".to_owned(),
        timestamp: timestamp.to_owned(),
        text_description: "Clear".to_owned(),
        temperature: Some(reading(20.0)),
        dewpoint: Some(reading(10.0)),
        relative_humidity: Some(reading(52.5)),
        wind_direction: Some(reading(270.0)),
        wind_speed: Some(reading(18.52)),
        wind_gust: None,
        barometric_pressure: Some(reading(101325.0)),
        sea_level_pressure: None,
        visibility: Some(reading(16090.0)),
        precipitation_last_3_hours: Some(reading(0.5)),
        cloud_amounts: vec!["FEW".to_owned(), "OVC".to_owned()],
    }
}

#[test]
fn normalizes_nws_features() {
    let mut bare = properties("2026-05-14T13:00:00+00:00");
    bare.cloud_amounts = Vec::new();
    let features = vec![
        NwsFeature::Observed(properties("2026-05-14T12:00:00+00:00")),
        NwsFeature::Observed(bare),
    ];
    let observations =
        normalize_nws(&Floats, &features, &station("America/Chicago"), "ref").unwrap();
    let first = &observations[0];
    assert_eq!(first.source, DataSource::NwsApi);
    assert_eq!(first.observed_at_local.to_rfc3339(), "2026-05-14T07:00:00-05:00");
    assert_eq!(first.wind_speed_kt, Some(reading(10.0)));
    assert_eq!(first.pressure_hpa, Some(reading(1013.25)));
    assert_eq!(first.visibility_km, Some(reading(16.09)));
    assert_eq!(first.cloud_cover_code.as_deref(), Some("FEW"));
    assert_eq!(first.cloud_cover_fraction, Some(reading(0.125)));
    assert_eq!(first.text_description.as_deref(), Some("Clear"));
    assert!(near(first.wind_u_kt, 10.0));
    assert!(first.quality_flags.is_empty());
    assert!(matches!(observations[1].quality_flags[0], QualityFlag::MissingCloudCover));
    assert_eq!(first.relative_humidity_pct, Some(reading(52.5)));
}

#[test]
fn derives_the_humidity_of_nws_observations() {
    let read = |given: NwsObservationProperties| {
        let features = vec![NwsFeature::Observed(given)];
        normalize_nws(&Floats, &features, &station("UTC"), "ref").unwrap().remove(0)
    };
    let mut dry = properties("2026-05-14T12:00:00+00:00");
    dry.relative_humidity = None;
    let derived = read(dry.clone());
    let wanted = Floats.relative_humidity_from_celsius(reading(20.0), reading(10.0));
    assert_eq!(derived.relative_humidity_pct, Some(wanted));
    assert!(matches!(derived.quality_flags[0], QualityFlag::DerivedRelativeHumidity));
    dry.dewpoint = None;
    let unknown = read(dry);
    assert_eq!(unknown.relative_humidity_pct, None);
    assert!(unknown.quality_flags.is_empty());
}

#[test]
fn keeps_snapshots_of_different_seconds_apart() {
    let layout = CacheLayout::resolve(Some("/c"), None).unwrap();
    let station = StationId::new("KDSM");
    let path = |timestamp: &str| {
        let body = format!("{{\"properties\": {{\"timestamp\": \"{timestamp}\"}}}}");
        let (day, name) = latest_observation_place(&body).unwrap();
        layout.current_raw_path(DataSource::NwsApi, &station, day, &name, "json")
    };
    assert_eq!(
        path("2026-05-14T23:30:00-05:00"),
        "/c/sources/nws-api/raw/station=KDSM/date=2026-05-15/obs-20260515T043000Z.json"
    );
    assert_ne!(path("2026-05-14T12:00:00Z"), path("2026-05-14T12:00:01Z"));
    assert_eq!(path("2026-05-14T12:00:00Z"), path("2026-05-14T07:00:00-05:00"));
    let fail = |body: &str| latest_observation_place(body).unwrap_err().message;
    assert_eq!(fail("{"), "failed to parse NWS latest observation JSON");
    assert_eq!(
        fail("{\"properties\": {\"timestamp\": 5}}"),
        "NWS latest observation payload missing properties.timestamp"
    );
    assert_eq!(fail("[]"), "NWS latest observation payload missing properties.timestamp");
    assert_eq!(
        fail("{\"properties\": {\"timestamp\": \"x\"}}"),
        "failed to parse NWS latest observation timestamp"
    );
}

#[test]
fn refuses_unreadable_nws_features() {
    let fail = |feature: NwsFeature, zone: &str| {
        normalize_nws(&Floats, &vec![feature], &station(zone), "ref").unwrap_err().message
    };
    assert_eq!(fail(NwsFeature::Missing, "UTC"), "NWS observation feature missing properties");
    assert_eq!(fail(NwsFeature::Unreadable, "UTC"), "failed to parse NWS observation properties");
    assert_eq!(
        fail(NwsFeature::Observed(properties("soon")), "UTC"),
        "failed to parse NWS observation timestamp"
    );
    assert_eq!(fail(NwsFeature::Missing, "Nowhere"), "unsupported timezone Nowhere");
}

#[test]
fn names_the_latest_observation() {
    let (day, name) = latest_observation_name(Some("2026-05-14T23:30:00-05:00")).unwrap();
    assert_eq!(day, date(2026, 5, 15));
    assert_eq!(name, "obs-20260515T043000Z");
    assert_eq!(
        latest_observation_name(None).unwrap_err().message,
        "NWS latest observation payload missing properties.timestamp"
    );
    assert_eq!(
        latest_observation_name(Some("x")).unwrap_err().message,
        "failed to parse NWS latest observation timestamp"
    );
}

#[test]
fn writes_addresses() {
    let station = StationId::new("dsm");
    assert_eq!(station_url(&station), "https://api.weather.gov/stations/KDSM");
    assert_eq!(
        latest_url(&station),
        "https://api.weather.gov/stations/KDSM/observations/latest"
    );
    assert_eq!(
        observations_url(&station, 24),
        "https://api.weather.gov/stations/KDSM/observations?limit=24"
    );
    assert_eq!(
        points_url("41.5340", "-93.6630"),
        "https://api.weather.gov/points/41.5340,-93.6630"
    );
    assert_eq!(
        wxmatch::ncei::request_url(&station, 2026, 5),
        "https://www.ncei.noaa.gov/data/automated-surface-observing-system-five-minute/access/2026/05/asos-5min-KDSM-202605.dat"
    );
}

#[test]
fn spans_months_and_years() {
    assert_eq!(
        month_span(date(2025, 11, 30), date(2026, 2, 1)),
        vec![(2025, 11), (2025, 12), (2026, 1), (2026, 2)]
    );
    assert_eq!(month_span(date(2026, 5, 1), date(2026, 5, 31)), vec![(2026, 5)]);
    let station = StationId::new("KDSM");
    let urls = month_urls(&station, date(2025, 12, 31), date(2026, 1, 1));
    assert_eq!(urls.len(), 2);
    assert!(urls[0].ends_with("/2025/12/asos-5min-KDSM-202512.dat"));
    let urls = year_urls("USW1", date(2024, 12, 31), date(2026, 1, 1));
    assert_eq!(urls.len(), 3);
    assert_eq!(urls[1], year_url("USW1", 2025));
}

#[test]
fn plans_fetches() {
    assert!(check_window(date(2026, 5, 1), date(2026, 5, 1)).is_ok());
    assert_eq!(
        check_window(date(2026, 5, 2), date(2026, 5, 1)).unwrap_err().message,
        "--end must not be earlier than --start"
    );
    assert!(is_reused(true, false));
    assert!(!is_reused(true, true) && !is_reused(false, false));
    assert!(historical_refusal(DataSource::NwsApi).is_some());
    assert!(historical_refusal(DataSource::Ghcnh).is_none());
    assert!(current_refusal(DataSource::Ghcnh).is_some());
    assert!(current_refusal(DataSource::NwsApi).is_none());
    assert_eq!(source_step(1, 1), SourceStep::Backfill);
    assert_eq!(source_step(0, 0), SourceStep::Skip);
    assert_eq!(source_step(0, 1), SourceStep::Normalize);
    assert!(is_rebuilt_today(1, true, true));
    assert!(!is_rebuilt_today(0, true, true));
    assert!(is_rebuilt_today(0, false, true));
}

#[test]
fn asks_the_archive_again_without_optional_columns() {
    let station = StationId::new("KDSM");
    let (start, end) = (date(2026, 5, 1), date(2026, 5, 2));
    let url = |progress| next_iem_url(&station, "America/Chicago", start, end, progress);
    let begun = IemProgress::NotAsked;
    let first = url(begun).unwrap();
    assert!(first.contains("station=DSM"));
    assert!(first.contains("skyc1"));
    assert!(first.contains("America%2FChicago"));
    let second = url(begun.answered(422)).unwrap();
    assert!(!second.contains("skyc1"));
    assert_eq!(url(begun.answered(200)), None);
    assert_eq!(url(begun.answered(500)), None);
    assert_eq!(begun.answered(422).answered(422), IemProgress::AskedCore(422));
    assert_eq!(url(begun.answered(422).answered(422)), None);
}

#[test]
fn local_times_keep_their_instant() {
    let time = LocalTime::parse_rfc3339("2026-05-14T12:00:00+00:00").unwrap();
    let local = chicago().local(time.utc()).unwrap();
    assert_eq!(local.utc(), time.utc());
    assert_eq!(local.hour(), 7);
}
