//! Observations, summaries and profiles as the rows of data files.
use vstd::prelude::*;
use crate::calendar::{
    date_read, in_four_digit_years, lemma_utc_time, rfc3339_text, time_read, Date, LocalTime,
};
use crate::domain::{
    clone_opt, flag_models, opt_text, station_code, DailySummary, DailySummaryModel, DayProfile,
    DayProfileModel, DayValues, FlagModel, HourlyProfilePoint, Measured, ObservationModel,
    ObservationRecord, QualityFlag, StationId, SCHEMA_VERSION,
};
use crate::engine::{day_keys, groups_days, profiles_are, profiles_day, profiles_hour};
use crate::order::{
    dictionary, group, in_group, in_some_group, is_grouping, is_stable_order,
    lemma_dictionary_reflexive, lemma_dictionary_ties, lemma_group_holds_ties,
    lemma_order_is_distinct, lemma_rising_and_full, precedes, sort_order, ties, Key,
};
use crate::reading::{Arithmetic, Reading};
use crate::source::{law_slug_reads_back, slug_of, source_with_slug, DataSource};
use crate::text::{texts, to_chars};

verus! {

/// What of a row cannot be read.
#[derive(Debug, Clone, Copy, PartialEq, Eq, Structural)]
pub enum RowError {
    Source,
    ObservedAtUtc,
    ObservedAtLocal,
    ObservationDate,
    QualityFlags,
    SummaryDate,
    SummarySourceSlugs,
    ProfileDate,
    ProfileSourceSlugs,
}

impl RowError {
    pub open spec fn text(self) -> Seq<char> {
        match self {
            RowError::Source => "failed to parse observation source"@,
            RowError::ObservedAtUtc => "failed to parse observed_at_utc"@,
            RowError::ObservedAtLocal => "failed to parse observed_at_local"@,
            RowError::ObservationDate => "failed to parse local_date"@,
            RowError::QualityFlags => "failed to parse quality flags"@,
            RowError::SummaryDate => "failed to parse summary local_date"@,
            RowError::SummarySourceSlugs => "failed to parse summary source slugs"@,
            RowError::ProfileDate => "failed to parse profile local_date"@,
            RowError::ProfileSourceSlugs => "failed to parse profile source slugs"@,
        }
    }

    pub fn message(self) -> (r: &'static str)
        ensures
            r@ == self.text(),
    {
        match self {
            RowError::Source => "failed to parse observation source",
            RowError::ObservedAtUtc => "failed to parse observed_at_utc",
            RowError::ObservedAtLocal => "failed to parse observed_at_local",
            RowError::ObservationDate => "failed to parse local_date",
            RowError::QualityFlags => "failed to parse quality flags",
            RowError::SummaryDate => "failed to parse summary local_date",
            RowError::SummarySourceSlugs => "failed to parse summary source slugs",
            RowError::ProfileDate => "failed to parse profile local_date",
            RowError::ProfileSourceSlugs => "failed to parse profile source slugs",
        }
    }
}

/// The JSON text that `serde_json::to_string` writes for a list of strings.
pub uninterp spec fn strings_json(items: Seq<Seq<char>>) -> Seq<char>;

/// The list of strings that `serde_json::from_str` reads out of a JSON text.
pub uninterp spec fn strings_read(json: Seq<char>) -> Option<Seq<Seq<char>>>;

/// Calls `serde_json::to_string` on a list of strings, which it always writes.
/// `serde_json::from_str` reads the same list back.
#[verifier::external_body]
fn write_strings(items: &Vec<String>) -> (r: Option<String>)
    ensures
        r is Some,
        r matches Some(json) ==> json@ == strings_json(texts(items@)),
        r matches Some(json) ==> strings_read(json@) == Some(texts(items@)),
{
    serde_json::to_string(items).ok()
}

/// Calls `serde_json::from_str` for a list of strings.
#[verifier::external_body]
fn read_strings(json: &str) -> (r: Option<Vec<String>>)
    ensures
        match r {
            Some(items) => strings_read(json@) == Some(texts(items@)),
            None => strings_read(json@) is None,
        },
{
    serde_json::from_str(json).ok()
}

/// A list of strings as JSON.
fn slugs_json(items: &Vec<String>) -> (r: String)
    ensures
        r@ == strings_json(texts(items@)),
        strings_read(r@) == Some(texts(items@)),
{
    match write_strings(items) {
        Some(json) => json,
        None => "[]".to_string(),
    }
}

/// An observation as a row.
#[derive(Debug, Clone)]
pub struct ObservationRow {
    pub schema_version: String,
    pub station_id: String,
    pub source: String,
    pub source_station_id: String,
    pub observed_at_utc: String,
    pub observed_at_local: String,
    pub local_date: String,
    pub minute_of_day: u16,
    pub temperature_c: Option<Reading>,
    pub dewpoint_c: Option<Reading>,
    pub relative_humidity_pct: Option<Reading>,
    pub wind_speed_kt: Option<Reading>,
    pub wind_gust_kt: Option<Reading>,
    pub wind_direction_deg: Option<Reading>,
    pub wind_u_kt: Option<Reading>,
    pub wind_v_kt: Option<Reading>,
    pub precipitation_mm: Option<Reading>,
    pub pressure_hpa: Option<Reading>,
    pub sea_level_pressure_hpa: Option<Reading>,
    pub visibility_km: Option<Reading>,
    pub cloud_cover_code: Option<String>,
    pub cloud_cover_fraction: Option<Reading>,
    pub raw_ref: String,
    pub text_description: Option<String>,
    pub quality_flags_json: String,
}

/// A row of an observation, its texts as sequences of characters.
#[verifier::ext_equal]
pub struct ObservationRowModel {
    pub schema_version: Seq<char>,
    pub station_id: Seq<char>,
    pub source: Seq<char>,
    pub source_station_id: Seq<char>,
    pub observed_at_utc: Seq<char>,
    pub observed_at_local: Seq<char>,
    pub local_date: Seq<char>,
    pub minute_of_day: u16,
    pub measured: Measured,
    pub cloud_cover_code: Option<Seq<char>>,
    pub raw_ref: Seq<char>,
    pub text_description: Option<Seq<char>>,
    pub quality_flags_json: Seq<char>,
}

impl View for ObservationRow {
    type V = ObservationRowModel;

    open spec fn view(&self) -> ObservationRowModel {
        ObservationRowModel {
            schema_version: self.schema_version@,
            station_id: self.station_id@,
            source: self.source@,
            source_station_id: self.source_station_id@,
            observed_at_utc: self.observed_at_utc@,
            observed_at_local: self.observed_at_local@,
            local_date: self.local_date@,
            minute_of_day: self.minute_of_day,
            measured: Measured {
                temperature_c: self.temperature_c,
                dewpoint_c: self.dewpoint_c,
                relative_humidity_pct: self.relative_humidity_pct,
                wind_speed_kt: self.wind_speed_kt,
                wind_gust_kt: self.wind_gust_kt,
                wind_direction_deg: self.wind_direction_deg,
                wind_u_kt: self.wind_u_kt,
                wind_v_kt: self.wind_v_kt,
                precipitation_mm: self.precipitation_mm,
                pressure_hpa: self.pressure_hpa,
                sea_level_pressure_hpa: self.sea_level_pressure_hpa,
                visibility_km: self.visibility_km,
                cloud_cover_fraction: self.cloud_cover_fraction,
            },
            cloud_cover_code: opt_text(self.cloud_cover_code),
            raw_ref: self.raw_ref@,
            text_description: opt_text(self.text_description),
            quality_flags_json: self.quality_flags_json@,
        }
    }
}

/// The row of an observation whose quality flags read so in JSON.
pub open spec fn observation_row(
    observation: ObservationModel,
    quality_flags_json: Seq<char>,
) -> ObservationRowModel {
    let utc = observation.utc;
    let local = observation.local;
    ObservationRowModel {
        schema_version: SCHEMA_VERSION@,
        station_id: observation.station,
        source: slug_of(observation.source),
        source_station_id: observation.source_station,
        observed_at_utc: rfc3339_text(utc.s(), utc.n(), 0),
        observed_at_local: rfc3339_text(local.instant().s(), local.instant().n(), local.east()),
        local_date: observation.date.text(),
        minute_of_day: observation.minute_of_day,
        measured: observation.measured,
        cloud_cover_code: observation.cloud_cover_code,
        raw_ref: observation.raw_ref,
        text_description: observation.text_description,
        quality_flags_json,
    }
}

/// The observation that a row holds, where `flags` is what its JSON text of quality flags holds.
pub open spec fn observation_in_row(
    row: ObservationRowModel,
    flags: Option<Seq<FlagModel>>,
) -> Result<ObservationModel, RowError> {
    match source_with_slug(row.source) {
        None => Err(RowError::Source),
        Some(source) => match time_read(row.observed_at_utc) {
            None => Err(RowError::ObservedAtUtc),
            Some(utc) => match time_read(row.observed_at_local) {
                None => Err(RowError::ObservedAtLocal),
                Some(local) => match date_read(row.local_date) {
                    None => Err(RowError::ObservationDate),
                    Some(date) => match flags {
                        None => Err(RowError::QualityFlags),
                        Some(flags) => Ok(
                            ObservationModel {
                                station: station_code(row.station_id),
                                source,
                                source_station: row.source_station_id,
                                utc: utc.instant(),
                                local,
                                date,
                                minute_of_day: row.minute_of_day,
                                measured: row.measured,
                                cloud_cover_code: row.cloud_cover_code,
                                raw_ref: row.raw_ref,
                                text_description: row.text_description,
                                flags,
                            },
                        ),
                    },
                },
            },
        },
    }
}

/// The times of an observation are of years of four digits, its offset is in whole minutes: the
/// RFC 3339 form holds them.
pub open spec fn has_plain_times(observation: ObservationModel) -> bool {
    &&& in_four_digit_years(observation.utc.s())
    &&& in_four_digit_years(observation.local.clock())
    &&& observation.local.east() % 60 == 0
}

impl ObservationRow {
    /// The row of an observation. A row of an observation with plain times reads back as that
    /// observation.
    pub fn from_observation(value: &ObservationRecord, quality_flags_json: String) -> (r: Self)
        ensures
            r@ == observation_row(value@, quality_flags_json@),
            has_plain_times(value@) ==> observation_in_row(r@, Some(value@.flags)) == Ok::<
                ObservationModel,
                RowError,
            >(value@),
    {
        proof {
            law_slug_reads_back(value.source);
            lemma_utc_time(value.observed_at_utc);
        }
        let r = Self {
            schema_version: SCHEMA_VERSION.to_string(),
            station_id: value.station_id.as_str().to_string(),
            source: value.source.slug().to_string(),
            source_station_id: value.source_station_id.clone(),
            observed_at_utc: value.observed_at_utc.to_rfc3339(),
            observed_at_local: value.observed_at_local.to_rfc3339(),
            local_date: value.local_date.to_text(),
            minute_of_day: value.minute_of_day,
            temperature_c: value.temperature_c,
            dewpoint_c: value.dewpoint_c,
            relative_humidity_pct: value.relative_humidity_pct,
            wind_speed_kt: value.wind_speed_kt,
            wind_gust_kt: value.wind_gust_kt,
            wind_direction_deg: value.wind_direction_deg,
            wind_u_kt: value.wind_u_kt,
            wind_v_kt: value.wind_v_kt,
            precipitation_mm: value.precipitation_mm,
            pressure_hpa: value.pressure_hpa,
            sea_level_pressure_hpa: value.sea_level_pressure_hpa,
            visibility_km: value.visibility_km,
            cloud_cover_code: clone_opt(&value.cloud_cover_code),
            cloud_cover_fraction: value.cloud_cover_fraction,
            raw_ref: value.raw_ref.clone(),
            text_description: clone_opt(&value.text_description),
            quality_flags_json,
        };
        r
    }

    /// The observation that the row holds, where `quality_flags` is what its JSON text of quality
    /// flags holds.
    pub fn into_observation(self, quality_flags: Option<Vec<QualityFlag>>) -> (r: Result<
        ObservationRecord,
        RowError,
    >)
        ensures
            observation_in_row(
                self@,
                match quality_flags {
                    Some(flags) => Some(flag_models(flags@)),
                    None => None,
                },
            ) == (match r {
                Ok(observation) => Ok::<ObservationModel, RowError>(observation@),
                Err(error) => Err(error),
            }),
    {
        let source = match DataSource::from_slug(&self.source) {
            Some(source) => source,
            None => {
                return Err(RowError::Source);
            },
        };
        let utc = match LocalTime::parse_rfc3339(&self.observed_at_utc) {
            Some(time) => time.utc(),
            None => {
                return Err(RowError::ObservedAtUtc);
            },
        };
        let local = match LocalTime::parse_rfc3339(&self.observed_at_local) {
            Some(time) => time,
            None => {
                return Err(RowError::ObservedAtLocal);
            },
        };
        let date = match Date::parse(&self.local_date) {
            Some(date) => date,
            None => {
                return Err(RowError::ObservationDate);
            },
        };
        let flags = match quality_flags {
            Some(flags) => flags,
            None => {
                return Err(RowError::QualityFlags);
            },
        };
        Ok(
            ObservationRecord {
                station_id: StationId::new(&self.station_id),
                source,
                source_station_id: self.source_station_id,
                observed_at_utc: utc,
                observed_at_local: local,
                local_date: date,
                minute_of_day: self.minute_of_day,
                temperature_c: self.temperature_c,
                dewpoint_c: self.dewpoint_c,
                relative_humidity_pct: self.relative_humidity_pct,
                wind_speed_kt: self.wind_speed_kt,
                wind_gust_kt: self.wind_gust_kt,
                wind_direction_deg: self.wind_direction_deg,
                wind_u_kt: self.wind_u_kt,
                wind_v_kt: self.wind_v_kt,
                precipitation_mm: self.precipitation_mm,
                pressure_hpa: self.pressure_hpa,
                sea_level_pressure_hpa: self.sea_level_pressure_hpa,
                visibility_km: self.visibility_km,
                cloud_cover_code: self.cloud_cover_code,
                cloud_cover_fraction: self.cloud_cover_fraction,
                raw_ref: self.raw_ref,
                text_description: self.text_description,
                quality_flags: flags,
            },
        )
    }
}

/// A daily summary as a row.
#[derive(Debug, Clone)]
pub struct DailySummaryRow {
    pub schema_version: String,
    pub station_id: String,
    pub local_date: String,
    pub observation_count: u64,
    pub source_slugs_json: String,
    pub high_temp_c: Option<Reading>,
    pub low_temp_c: Option<Reading>,
    pub mean_temp_c: Option<Reading>,
    pub mean_dewpoint_c: Option<Reading>,
    pub mean_relative_humidity_pct: Option<Reading>,
    pub max_wind_speed_kt: Option<Reading>,
    pub mean_wind_u_kt: Option<Reading>,
    pub mean_wind_v_kt: Option<Reading>,
    pub total_precipitation_mm: Option<Reading>,
    pub mean_cloud_cover_fraction: Option<Reading>,
}

/// A row of a summary, its texts as sequences of characters.
#[verifier::ext_equal]
pub struct DailySummaryRowModel {
    pub schema_version: Seq<char>,
    pub station_id: Seq<char>,
    pub local_date: Seq<char>,
    pub observation_count: u64,
    pub source_slugs_json: Seq<char>,
    pub values: DayValues,
}

impl View for DailySummaryRow {
    type V = DailySummaryRowModel;

    open spec fn view(&self) -> DailySummaryRowModel {
        DailySummaryRowModel {
            schema_version: self.schema_version@,
            station_id: self.station_id@,
            local_date: self.local_date@,
            observation_count: self.observation_count,
            source_slugs_json: self.source_slugs_json@,
            values: DayValues {
                high_temp_c: self.high_temp_c,
                low_temp_c: self.low_temp_c,
                mean_temp_c: self.mean_temp_c,
                mean_dewpoint_c: self.mean_dewpoint_c,
                mean_relative_humidity_pct: self.mean_relative_humidity_pct,
                max_wind_speed_kt: self.max_wind_speed_kt,
                mean_wind_u_kt: self.mean_wind_u_kt,
                mean_wind_v_kt: self.mean_wind_v_kt,
                total_precipitation_mm: self.total_precipitation_mm,
                mean_cloud_cover_fraction: self.mean_cloud_cover_fraction,
            },
        }
    }
}

pub open spec fn summary_row(summary: DailySummaryModel) -> DailySummaryRowModel {
    DailySummaryRowModel {
        schema_version: SCHEMA_VERSION@,
        station_id: summary.station,
        local_date: summary.date.text(),
        observation_count: summary.observation_count as u64,
        source_slugs_json: strings_json(summary.source_slugs),
        values: summary.values,
    }
}

/// The summary that a row holds.
pub open spec fn summary_in_row(row: DailySummaryRowModel) -> Result<DailySummaryModel, RowError> {
    match date_read(row.local_date) {
        None => Err(RowError::SummaryDate),
        Some(date) => match strings_read(row.source_slugs_json) {
            None => Err(RowError::SummarySourceSlugs),
            Some(source_slugs) => Ok(
                DailySummaryModel {
                    station: station_code(row.station_id),
                    date,
                    observation_count: row.observation_count as usize,
                    source_slugs,
                    values: row.values,
                },
            ),
        },
    }
}

impl DailySummaryRow {
    /// The row of a summary, which reads back as that summary.
    pub fn from_summary(value: &DailySummary) -> (r: Self)
        ensures
            r@ == summary_row(value@),
            summary_in_row(r@) == Ok::<DailySummaryModel, RowError>(value@),
    {
        Self {
            schema_version: SCHEMA_VERSION.to_string(),
            station_id: value.station_id.as_str().to_string(),
            local_date: value.local_date.to_text(),
            observation_count: value.observation_count as u64,
            source_slugs_json: slugs_json(&value.source_slugs),
            high_temp_c: value.high_temp_c,
            low_temp_c: value.low_temp_c,
            mean_temp_c: value.mean_temp_c,
            mean_dewpoint_c: value.mean_dewpoint_c,
            mean_relative_humidity_pct: value.mean_relative_humidity_pct,
            max_wind_speed_kt: value.max_wind_speed_kt,
            mean_wind_u_kt: value.mean_wind_u_kt,
            mean_wind_v_kt: value.mean_wind_v_kt,
            total_precipitation_mm: value.total_precipitation_mm,
            mean_cloud_cover_fraction: value.mean_cloud_cover_fraction,
        }
    }

    /// The summary that the row holds.
    pub fn into_summary(self) -> (r: Result<DailySummary, RowError>)
        ensures
            summary_in_row(self@) == (match r {
                Ok(summary) => Ok::<DailySummaryModel, RowError>(summary@),
                Err(error) => Err(error),
            }),
    {
        let local_date = match Date::parse(&self.local_date) {
            Some(date) => date,
            None => {
                return Err(RowError::SummaryDate);
            },
        };
        let source_slugs = match read_strings(&self.source_slugs_json) {
            Some(slugs) => slugs,
            None => {
                return Err(RowError::SummarySourceSlugs);
            },
        };
        Ok(
            DailySummary {
                station_id: StationId::new(&self.station_id),
                local_date,
                observation_count: self.observation_count as usize,
                source_slugs,
                high_temp_c: self.high_temp_c,
                low_temp_c: self.low_temp_c,
                mean_temp_c: self.mean_temp_c,
                mean_dewpoint_c: self.mean_dewpoint_c,
                mean_relative_humidity_pct: self.mean_relative_humidity_pct,
                max_wind_speed_kt: self.max_wind_speed_kt,
                mean_wind_u_kt: self.mean_wind_u_kt,
                mean_wind_v_kt: self.mean_wind_v_kt,
                total_precipitation_mm: self.total_precipitation_mm,
                mean_cloud_cover_fraction: self.mean_cloud_cover_fraction,
            },
        )
    }
}

/// One hour of a profile as a row.
#[derive(Debug, Clone)]
pub struct DayProfileRow {
    pub schema_version: String,
    pub station_id: String,
    pub local_date: String,
    pub observed_hour_count: u64,
    pub source_slugs_json: String,
    pub hour: u8,
    pub sample_count: u64,
    pub temperature_c: Option<Reading>,
    pub dewpoint_c: Option<Reading>,
    pub relative_humidity_pct: Option<Reading>,
    pub wind_u_kt: Option<Reading>,
    pub wind_v_kt: Option<Reading>,
    pub cloud_cover_fraction: Option<Reading>,
    pub precipitation_mm: Option<Reading>,
}

impl DayProfileRow {
    /// The hour that the row holds.
    pub open spec fn point(self) -> HourlyProfilePoint {
        HourlyProfilePoint {
            hour: self.hour,
            sample_count: self.sample_count as usize,
            temperature_c: self.temperature_c,
            dewpoint_c: self.dewpoint_c,
            relative_humidity_pct: self.relative_humidity_pct,
            wind_u_kt: self.wind_u_kt,
            wind_v_kt: self.wind_v_kt,
            cloud_cover_fraction: self.cloud_cover_fraction,
            precipitation_mm: self.precipitation_mm,
        }
    }

    /// The row holds this hour of the profile, and the date and the sources of the profile can be
    /// read back from it.
    pub open spec fn tells(self, profile: DayProfileModel, point: HourlyProfilePoint) -> bool {
        &&& self.is_hour_of(profile, point)
        &&& date_read(self.local_date@) == Some(profile.date)
        &&& strings_read(self.source_slugs_json@) == Some(profile.source_slugs)
    }

    /// The row holds this hour of the profile.
    pub open spec fn is_hour_of(self, profile: DayProfileModel, point: HourlyProfilePoint) -> bool {
        &&& self.schema_version@ == SCHEMA_VERSION@
        &&& self.station_id@ == profile.station
        &&& self.local_date@ == profile.date.text()
        &&& self.observed_hour_count == profile.observed_hour_count
        &&& self.source_slugs_json@ == strings_json(profile.source_slugs)
        &&& self.sample_count == point.sample_count
        &&& self.point() == point
    }
}

/// The rows hold the hours of the profile, in their order.
pub open spec fn are_rows_of(rows: Seq<DayProfileRow>, profile: DayProfileModel) -> bool {
    rows.len() == profile.hours.len() && forall|i: int|
        0 <= i < rows.len() ==> (#[trigger] rows[i]).tells(profile, profile.hours[i])
}

/// The keys are the station and date texts of the rows.
pub open spec fn keys_spell(keys: Seq<(Vec<char>, Vec<char>)>, rows: Seq<DayProfileRow>) -> bool {
    keys.len() == rows.len() && forall|i: int|
        0 <= i < rows.len() ==> (#[trigger] keys[i]).0@ == rows[i].station_id@ && keys[i].1@
            == rows[i].local_date@
}

/// The rows grouped by station and date: each group lists the rows of one station and date, and
/// the groups stand in the order of the station and date texts.
pub open spec fn groups_rows(groups: Seq<Vec<usize>>, rows: Seq<DayProfileRow>) -> bool {
    exists|keys: Seq<(Vec<char>, Vec<char>)>| #[trigger] keys_spell(keys, rows) && is_grouping(
        keys,
        groups,
    )
}

pub open spec fn hours_in(rows: Seq<DayProfileRow>, members: Seq<usize>) -> Seq<i64> {
    Seq::new(members.len(), |a: int| rows[members[a] as int].hour as i64)
}

/// The profile that the rows `members` hold, taken in the order `order`.
pub open spec fn profile_in_order(
    rows: Seq<DayProfileRow>,
    members: Seq<usize>,
    order: Seq<usize>,
) -> Result<DayProfileModel, RowError> {
    let first = rows[members[order[0] as int] as int];
    match strings_read(first.source_slugs_json@) {
        None => Err(RowError::ProfileSourceSlugs),
        Some(source_slugs) => match date_read(first.local_date@) {
            None => Err(RowError::ProfileDate),
            Some(date) => Ok(
                DayProfileModel {
                    station: station_code(first.station_id@),
                    date,
                    observed_hour_count: first.observed_hour_count as usize,
                    source_slugs,
                    hours: Seq::new(
                        order.len(),
                        |k: int| rows[members[order[k] as int] as int].point(),
                    ),
                },
            ),
        },
    }
}

/// The rows `members`, from the first hour to the last, hold this profile.
pub open spec fn profile_reads(
    rows: Seq<DayProfileRow>,
    members: Seq<usize>,
    profile: Result<DayProfileModel, RowError>,
) -> bool {
    exists|order: Seq<usize>| #[trigger]
        is_stable_order(hours_in(rows, members), order) && profile_in_order(rows, members, order)
            == profile
}

/// The rows hold these profiles.
pub open spec fn profiles_read(rows: Seq<DayProfileRow>, profiles: Seq<DayProfile>) -> bool {
    exists|groups: Seq<Vec<usize>>| #[trigger]
        groups_rows(groups, rows) && groups.len() == profiles.len() && forall|g: int|
            0 <= g < groups.len() ==> profile_reads(
                rows,
                (#[trigger] groups[g])@,
                Ok(profiles[g]@),
            )
}

pub open spec fn profile_is_read(rows: Seq<DayProfileRow>, members: Seq<usize>) -> bool {
    exists|profile: DayProfileModel| #[trigger] profile_reads(rows, members, Ok(profile))
}

/// The first group of rows that holds no profile fails with this error.
pub open spec fn profiles_fail(rows: Seq<DayProfileRow>, error: RowError) -> bool {
    exists|groups: Seq<Vec<usize>>, g: int|
        {
            &&& #[trigger] groups_rows(groups, rows)
            &&& 0 <= g < groups.len()
            &&& profile_reads(rows, (#[trigger] groups[g])@, Err(error))
            &&& forall|h: int| 0 <= h < g ==> profile_is_read(rows, (#[trigger] groups[h])@)
        }
}

impl DayProfileRow {
    /// The rows of a profile. Each says of the profile what it is read back from.
    pub fn from_profile(value: &DayProfile) -> (r: Vec<Self>)
        ensures
            are_rows_of(r@, value@),
    {
        let mut rows: Vec<Self> = Vec::new();
        let station = value.station_id.as_str();
        let mut i: usize = 0;
        while i < value.hours.len()
            invariant
                i <= value.hours@.len(),
                station@ == value@.station,
                rows@.len() == i,
                forall|k: int|
                    0 <= k < i ==> (#[trigger] rows@[k]).tells(value@, value.hours@[k]),
            decreases value.hours@.len() - i,
        {
            let hour = &value.hours[i];
            let row = Self {
                schema_version: SCHEMA_VERSION.to_string(),
                station_id: station.to_string(),
                local_date: value.local_date.to_text(),
                observed_hour_count: value.observed_hour_count as u64,
                source_slugs_json: slugs_json(&value.source_slugs),
                hour: hour.hour,
                sample_count: hour.sample_count as u64,
                temperature_c: hour.temperature_c,
                dewpoint_c: hour.dewpoint_c,
                relative_humidity_pct: hour.relative_humidity_pct,
                wind_u_kt: hour.wind_u_kt,
                wind_v_kt: hour.wind_v_kt,
                cloud_cover_fraction: hour.cloud_cover_fraction,
                precipitation_mm: hour.precipitation_mm,
            };
            rows.push(row);
            i += 1;
        }
        rows
    }

    /// The profile that the rows `members` hold.
    fn read_profile(rows: &Vec<Self>, members: &Vec<usize>) -> (r: Result<DayProfile, RowError>)
        requires
            members@.len() > 0,
            forall|a: int| 0 <= a < members@.len() ==> #[trigger] members@[a] < rows@.len(),
        ensures
            profile_reads(
                rows@,
                members@,
                match r {
                    Ok(profile) => Ok(profile@),
                    Err(error) => Err(error),
                },
            ),
    {
        let mut keys: Vec<i64> = Vec::new();
        let mut i: usize = 0;
        while i < members.len()
            invariant
                i <= members@.len(),
                forall|a: int| 0 <= a < members@.len() ==> #[trigger] members@[a] < rows@.len(),
                keys@ == hours_in(rows@, members@).take(i as int),
            decreases members@.len() - i,
        {
            assert(members@[i as int] < rows@.len());
            keys.push(rows[members[i]].hour as i64);
            i += 1;
            assert(keys@ =~= hours_in(rows@, members@).take(i as int));
        }
        assert(keys@ =~= hours_in(rows@, members@));
        let order = sort_order(&keys);
        assert(is_stable_order(hours_in(rows@, members@), order@));
        assert(forall|a: int| 0 <= a < order@.len() ==> #[trigger] order@[a] < members@.len());
        assert(order@[0] < members@.len());
        assert(members@[order@[0] as int] < rows@.len());
        let first = &rows[members[order[0]]];
        let source_slugs = match read_strings(&first.source_slugs_json) {
            Some(slugs) => slugs,
            None => {
                return Err(RowError::ProfileSourceSlugs);
            },
        };
        let local_date = match Date::parse(&first.local_date) {
            Some(date) => date,
            None => {
                return Err(RowError::ProfileDate);
            },
        };
        let mut hours: Vec<HourlyProfilePoint> = Vec::new();
        let ghost wanted = Seq::new(
            order@.len(),
            |k: int| rows@[members@[order@[k] as int] as int].point(),
        );
        let mut k: usize = 0;
        while k < order.len()
            invariant
                k <= order@.len(),
                forall|a: int| 0 <= a < order@.len() ==> #[trigger] order@[a] < members@.len(),
                forall|a: int| 0 <= a < members@.len() ==> #[trigger] members@[a] < rows@.len(),
                wanted == Seq::new(
                    order@.len(),
                    |k: int| rows@[members@[order@[k] as int] as int].point(),
                ),
                hours@ == wanted.take(k as int),
            decreases order@.len() - k,
        {
            assert(order@[k as int] < members@.len());
            assert(members@[order@[k as int] as int] < rows@.len());
            let row = &rows[members[order[k]]];
            hours.push(
                HourlyProfilePoint {
                    hour: row.hour,
                    sample_count: row.sample_count as usize,
                    temperature_c: row.temperature_c,
                    dewpoint_c: row.dewpoint_c,
                    relative_humidity_pct: row.relative_humidity_pct,
                    wind_u_kt: row.wind_u_kt,
                    wind_v_kt: row.wind_v_kt,
                    cloud_cover_fraction: row.cloud_cover_fraction,
                    precipitation_mm: row.precipitation_mm,
                },
            );
            k += 1;
            assert(hours@ =~= wanted.take(k as int));
        }
        assert(hours@ =~= wanted);
        let profile = DayProfile {
            station_id: StationId::new(&first.station_id),
            local_date,
            observed_hour_count: first.observed_hour_count as usize,
            source_slugs,
            hours,
        };
        proof {
            assert(profile_in_order(rows@, members@, order@) == Ok::<DayProfileModel, RowError>(
                profile@,
            ));
        }
        Ok(profile)
    }

    /// The profiles that the rows hold, by station and date, each from its first hour to its last.
    pub fn into_profiles(rows: Vec<Self>) -> (r: Result<Vec<DayProfile>, RowError>)
        ensures
            match r {
                Ok(profiles) => profiles_read(rows@, profiles@),
                Err(error) => profiles_fail(rows@, error),
            },
    {
        let mut keys: Vec<(Vec<char>, Vec<char>)> = Vec::new();
        let mut i: usize = 0;
        while i < rows.len()
            invariant
                i <= rows@.len(),
                keys@.len() == i,
                forall|k: int|
                    0 <= k < i ==> (#[trigger] keys@[k]).0@ == rows@[k].station_id@ && keys@[k].1@
                        == rows@[k].local_date@,
            decreases rows@.len() - i,
        {
            let key = (to_chars(&rows[i].station_id), to_chars(&rows[i].local_date));
            keys.push(key);
            i += 1;
        }
        let groups = group(&keys);
        assert(keys_spell(keys@, rows@));
        assert(groups_rows(groups@, rows@));
        let mut profiles: Vec<DayProfile> = Vec::new();
        let mut g: usize = 0;
        while g < groups.len()
            invariant
                g <= groups@.len(),
                keys@.len() == rows@.len(),
                is_grouping(keys@, groups@),
                groups_rows(groups@, rows@),
                profiles@.len() == g,
                forall|h: int|
                    0 <= h < g ==> profile_reads(
                        rows@,
                        (#[trigger] groups@[h])@,
                        Ok(profiles@[h]@),
                    ),
            decreases groups@.len() - g,
        {
            assert(groups@[g as int]@.len() > 0);
            assert forall|a: int| 0 <= a < groups@[g as int]@.len() implies #[trigger] groups@[g as int]@[a] < rows@.len() by {}
            match Self::read_profile(&rows, &groups[g]) {
                Ok(profile) => {
                    profiles.push(profile);
                },
                Err(error) => {
                    proof {
                        assert forall|h: int| 0 <= h < g implies profile_is_read(
                            rows@,
                            (#[trigger] groups@[h])@,
                        ) by {
                            assert(profile_reads(rows@, groups@[h]@, Ok(profiles@[h]@)));
                        }
                        assert(groups_rows(groups@, rows@) && profile_reads(
                            rows@,
                            groups@[g as int]@,
                            Err(error),
                        ));
                    }
                    return Err(error);
                },
            }
            g += 1;
        }
        Ok(profiles)
    }
}

/// The number of hours of the first `n` profiles.
pub open spec fn hours_before(profiles: Seq<DayProfileModel>, n: int) -> int
    decreases n,
{
    if n <= 0 {
        0
    } else {
        hours_before(profiles, n - 1) + profiles[n - 1].hours.len()
    }
}

/// The rows hold the hours of the first `n` profiles, one profile after the other.
pub open spec fn are_rows_of_first(
    rows: Seq<DayProfileRow>,
    profiles: Seq<DayProfileModel>,
    n: int,
) -> bool {
    &&& rows.len() == hours_before(profiles, n)
    &&& forall|p: int, h: int|
        0 <= p < n && 0 <= h < profiles[p].hours.len() ==> rows[hours_before(profiles, p)
            + h].tells(profiles[p], #[trigger] profiles[p].hours[h])
}

/// The rows hold the hours of the profiles, one profile after the other.
pub open spec fn are_rows_of_all(rows: Seq<DayProfileRow>, profiles: Seq<DayProfileModel>) -> bool {
    are_rows_of_first(rows, profiles, profiles.len() as int)
}

pub open spec fn profile_models(profiles: Seq<DayProfile>) -> Seq<DayProfileModel> {
    Seq::new(profiles.len(), |p: int| profiles[p]@)
}

/// The rows of profiles, one profile after the other.
pub fn rows_of_profiles(profiles: &Vec<DayProfile>) -> (r: Vec<DayProfileRow>)
    ensures
        are_rows_of_all(r@, profile_models(profiles@)),
{
    let ghost models = profile_models(profiles@);
    let mut rows: Vec<DayProfileRow> = Vec::new();
    let mut i: usize = 0;
    while i < profiles.len()
        invariant
            i <= profiles@.len(),
            models == profile_models(profiles@),
            are_rows_of_first(rows@, models, i as int),
        decreases profiles@.len() - i,
    {
        let ghost before = rows@;
        let mut more = DayProfileRow::from_profile(&profiles[i]);
        let ghost part = more@;
        rows.append(&mut more);
        proof {
            let n = i as int;
            assert(models[n] == profiles@[n]@);
            assert(rows@ =~= before + part);
            assert forall|p: int, h: int| 0 <= p < n + 1 && 0 <= h < models[p].hours.len() implies rows@[
            hours_before(models, p) + h].tells(models[p], #[trigger] models[p].hours[h]) by {
                let at = hours_before(models, p) + h;
                lemma_hours_before_rise(models, 0, p);
                if p == n {
                    assert(part[h].tells(models[p], models[p].hours[h]));
                    assert(rows@[at] == part[h]);
                } else {
                    lemma_hours_before_rise(models, p + 1, n);
                    assert(before[at].tells(models[p], models[p].hours[h]));
                    assert(rows@[at] == before[at]);
                }
            }
        }
        i += 1;
    }
    rows
}

/// The hours of more profiles are no fewer.
pub proof fn lemma_hours_before_rise(profiles: Seq<DayProfileModel>, p: int, q: int)
    requires
        0 <= p <= q,
    ensures
        hours_before(profiles, p) <= hours_before(profiles, q),
    decreases q - p,
{
    if p < q {
        lemma_hours_before_rise(profiles, p, q - 1);
    }
}

/// A position below the hours of the first `n` profiles is that of an hour of one of them.
pub proof fn lemma_position_of_hour(profiles: Seq<DayProfileModel>, n: int, i: int) -> (at: (int, int))
    requires
        0 <= n,
        0 <= i < hours_before(profiles, n),
    ensures
        0 <= at.0 < n,
        0 <= at.1 < profiles[at.0].hours.len(),
        i == hours_before(profiles, at.0) + at.1,
    decreases n,
{
    if i >= hours_before(profiles, n - 1) {
        (n - 1, i - hours_before(profiles, n - 1))
    } else {
        lemma_position_of_hour(profiles, n - 1, i)
    }
}

/// Profiles as they are kept: of different stations or dates, each with hours that stand in order.
pub open spec fn can_be_kept(profiles: Seq<DayProfileModel>) -> bool {
    &&& forall|p: int, q: int|
        0 <= p < q < profiles.len() ==> (#[trigger] profiles[p]).station != (
        #[trigger] profiles[q]).station || profiles[p].date != profiles[q].date
    &&& forall|p: int|
        0 <= p < profiles.len() ==> {
            &&& (#[trigger] profiles[p]).hours.len() > 0
            &&& station_code(profiles[p].station) == profiles[p].station
            &&& hours_rise(profiles[p].hours)
        }
}

pub open spec fn hours_rise(hours: Seq<HourlyProfilePoint>) -> bool {
    forall|i: int, j: int|
        0 <= i < j < hours.len() ==> (#[trigger] hours[i]).hour <= (#[trigger] hours[j]).hour
}

/// The keys of two rows tie where the rows are of the same station and date.
pub proof fn lemma_keys_tie(
    keys: Seq<(Vec<char>, Vec<char>)>,
    rows: Seq<DayProfileRow>,
    i: int,
    j: int,
)
    requires
        keys_spell(keys, rows),
        0 <= i < rows.len(),
        0 <= j < rows.len(),
    ensures
        ties(keys[i], keys[j]) <==> rows[i].station_id@ == rows[j].station_id@
            && rows[i].local_date@ == rows[j].local_date@,
{
    let (a, b) = (keys[i], keys[j]);
    if ties(a, b) {
        lemma_dictionary_ties(a.0@, b.0@);
        lemma_dictionary_ties(a.1@, b.1@);
    }
    if a.0@ == b.0@ && a.1@ == b.1@ {
        lemma_dictionary_reflexive(a.0@);
        lemma_dictionary_reflexive(a.1@);
    }
}

/// Where the keys stand in order, the positions are taken as they stand.
proof fn lemma_only_order(keys: Seq<i64>, order: Seq<usize>)
    requires
        keys.len() <= usize::MAX,
        forall|i: int, j: int|
            0 <= i < j < keys.len() ==> #[trigger] keys[i] <= #[trigger] keys[j],
        is_stable_order(keys, order),
    ensures
        order.len() == keys.len(),
        forall|k: int| 0 <= k < keys.len() ==> #[trigger] order[k] == k,
{
    lemma_order_is_distinct(keys, order);
    assert forall|a: int, b: int| 0 <= a < b < order.len() implies #[trigger] order[a]
        < #[trigger] order[b] by {
        assert(precedes(keys, order[a] as int, order[b] as int));
        if order[a] > order[b] {
            assert(keys[order[b] as int] <= keys[order[a] as int]);
        }
    }
    lemma_rising_and_full(order, keys.len() as int);
}

/// The rows of a group are those of one profile, and hold that profile.
proof fn lemma_group_holds_profile(
    rows: Seq<DayProfileRow>,
    profiles: Seq<DayProfileModel>,
    keys: Seq<(Vec<char>, Vec<char>)>,
    groups: Seq<Vec<usize>>,
    g: int,
) -> (p: int)
    requires
        are_rows_of_all(rows, profiles),
        rows.len() <= usize::MAX,
        can_be_kept(profiles),
        keys_spell(keys, rows),
        is_grouping(keys, groups),
        0 <= g < groups.len(),
    ensures
        0 <= p < profiles.len(),
        groups[g]@[0] == hours_before(profiles, p),
        rows[groups[g]@[0] as int].tells(profiles[p], profiles[p].hours[0]),
        forall|read: Result<DayProfileModel, RowError>| #[trigger]
            profile_reads(rows, groups[g]@, read) ==> read == Ok::<DayProfileModel, RowError>(
                profiles[p],
            ),
{
    let n = profiles.len() as int;
    let members = groups[g]@;
    assert(members.len() > 0);
    let first = members[0] as int;
    assert(0 <= groups[g]@[0] < keys.len());
    let (p, at) = lemma_position_of_hour(profiles, n, first);
    let profile = profiles[p];
    let lo = hours_before(profiles, p);
    let len = profile.hours.len() as int;
    lemma_hours_before_rise(profiles, 0, p);
    lemma_hours_before_rise(profiles, p + 1, n);
    assert(rows[lo + at].tells(profile, profile.hours[at]));
    assert forall|a: int| 0 <= a < members.len() implies lo <= #[trigger] members[a] < lo + len by {
        let i = members[a] as int;
        assert(0 <= groups[g]@[a] < keys.len());
        assert(ties(keys[i], keys[first]));
        lemma_keys_tie(keys, rows, i, first);
        let (q, h) = lemma_position_of_hour(profiles, n, i);
        assert(rows[hours_before(profiles, q) + h].tells(profiles[q], profiles[q].hours[h]));
        assert(profiles[q].station == profile.station && profiles[q].date == profile.date);
        assert(q == p);
    }
    assert forall|h: int| 0 <= h < len implies members.contains(#[trigger] ((lo + h) as usize)) by {
        assert(rows[lo + h].tells(profile, profile.hours[h]));
        lemma_keys_tie(keys, rows, lo + h, first);
        lemma_group_holds_ties(keys, groups, g, lo + h);
    }
    let shifted = Seq::new(members.len(), |a: int| (members[a] - lo) as usize);
    assert forall|h: int| 0 <= h < len implies shifted.contains(#[trigger] (h as usize)) by {
        assert(members.contains((lo + h) as usize));
        let a = choose|a: int| 0 <= a < members.len() && members[a] == (lo + h) as usize;
        assert(shifted[a] == h as usize);
    }
    assert forall|a: int, b: int| 0 <= a < b < shifted.len() implies #[trigger] shifted[a]
        < #[trigger] shifted[b] by {
        assert(groups[g]@[a] < groups[g]@[b]);
        assert(lo <= members[a] < lo + len && lo <= members[b] < lo + len);
    }
    assert forall|a: int| 0 <= a < shifted.len() implies #[trigger] shifted[a] < len by {
        assert(lo <= members[a] < lo + len);
    }
    lemma_rising_and_full(shifted, len);
    assert forall|a: int| 0 <= a < len implies #[trigger] members[a] == lo + a by {
        assert(shifted[a] == a);
        assert(lo <= members[a] < lo + len);
    }
    assert(members[0] == lo);
    assert(rows[lo + 0].tells(profile, profile.hours[0]));
    let hours = hours_in(rows, members);
    assert forall|i: int, j: int| 0 <= i < j < hours.len() implies #[trigger] hours[i]
        <= #[trigger] hours[j] by {
        assert(members[i] == lo + i && members[j] == lo + j);
        assert(rows[lo + i].tells(profile, profile.hours[i]));
        assert(rows[lo + j].tells(profile, profile.hours[j]));
        assert(profile.hours[i].hour <= profile.hours[j].hour);
    }
    assert forall|read: Result<DayProfileModel, RowError>| #[trigger]
        profile_reads(rows, members, read) implies read == Ok::<DayProfileModel, RowError>(
        profile,
    ) by {
        let order = choose|order: Seq<usize>| #[trigger]
            is_stable_order(hours, order) && profile_in_order(rows, members, order) == read;
        lemma_only_order(hours, order);
        assert(order[0] == 0);
        assert(read is Ok);
        assert forall|k: int| 0 <= k < len implies read->Ok_0.hours[k] == profile.hours[k] by {
            assert(order[k] == k);
            assert(members[order[k] as int] == lo + k);
            assert(rows[lo + k].tells(profile, profile.hours[k]));
        }
        assert(read->Ok_0.hours =~= profile.hours);
    }
    p
}

/// The rows of profiles that can be kept are read without an error.
pub proof fn law_kept_profiles_are_read(
    rows: Seq<DayProfileRow>,
    profiles: Seq<DayProfileModel>,
    error: RowError,
)
    requires
        are_rows_of_all(rows, profiles),
        rows.len() <= usize::MAX,
        can_be_kept(profiles),
    ensures
        !profiles_fail(rows, error),
{
    if profiles_fail(rows, error) {
        let (groups, g) = choose|groups: Seq<Vec<usize>>, g: int|
            {
                &&& #[trigger] groups_rows(groups, rows)
                &&& 0 <= g < groups.len()
                &&& profile_reads(rows, (#[trigger] groups[g])@, Err(error))
                &&& forall|h: int| 0 <= h < g ==> profile_is_read(rows, (#[trigger] groups[h])@)
            };
        let keys = choose|keys: Seq<(Vec<char>, Vec<char>)>| #[trigger]
            keys_spell(keys, rows) && is_grouping(keys, groups);
        lemma_group_holds_profile(rows, profiles, keys, groups, g);
        assert(profile_reads(rows, groups[g]@, Err(error)));
    }
}

/// A profile stands before another: by the text of its station, then by that of its date.
pub open spec fn profile_before(a: DayProfileModel, b: DayProfileModel) -> bool {
    if a.station == b.station {
        dictionary(a.date.text(), b.date.text()) && a.date != b.date
    } else {
        dictionary(a.station, b.station)
    }
}

/// The rows of profiles that can be kept read back as these profiles and no others, each once, in
/// the order of the texts of their stations and dates.
pub proof fn law_kept_profiles_read_back(
    rows: Seq<DayProfileRow>,
    profiles: Seq<DayProfileModel>,
    found: Seq<DayProfile>,
)
    requires
        are_rows_of_all(rows, profiles),
        rows.len() <= usize::MAX,
        can_be_kept(profiles),
        profiles_read(rows, found),
    ensures
        forall|p: int|
            0 <= p < profiles.len() ==> profile_models(found).contains(#[trigger] profiles[p]),
        forall|g: int| 0 <= g < found.len() ==> profiles.contains((#[trigger] found[g])@),
        forall|g: int, h: int|
            0 <= g < h < found.len() ==> profile_before(
                (#[trigger] found[g])@,
                (#[trigger] found[h])@,
            ),
{
    let groups = choose|groups: Seq<Vec<usize>>| #[trigger]
        groups_rows(groups, rows) && groups.len() == found.len() && forall|g: int|
            0 <= g < groups.len() ==> profile_reads(
                rows,
                (#[trigger] groups[g])@,
                Ok(found[g]@),
            );
    let keys = choose|keys: Seq<(Vec<char>, Vec<char>)>| #[trigger]
        keys_spell(keys, rows) && is_grouping(keys, groups);
    let n = profiles.len() as int;
    assert forall|g: int| 0 <= g < found.len() implies profiles.contains((#[trigger] found[g])@) by {
        let p = lemma_group_holds_profile(rows, profiles, keys, groups, g);
        assert(profile_reads(rows, groups[g]@, Ok(found[g]@)));
        assert(found[g]@ == profiles[p]);
    }
    assert forall|p: int| 0 <= p < n implies profile_models(found).contains(
        #[trigger] profiles[p],
    ) by {
        let i = hours_before(profiles, p);
        lemma_hours_before_rise(profiles, 0, p);
        lemma_hours_before_rise(profiles, p + 1, n);
        assert(profiles[p].hours.len() > 0);
        assert(rows[i + 0].tells(profiles[p], profiles[p].hours[0]));
        assert(in_some_group(groups, i));
        let g = choose|g: int| #[trigger] in_group(groups, g, i);
        let a = choose|a: int| 0 <= a < groups[g]@.len() && groups[g]@[a] == i as usize;
        let q = lemma_group_holds_profile(rows, profiles, keys, groups, g);
        assert(0 <= groups[g]@[0] < keys.len());
        assert(ties(keys[groups[g]@[a] as int], keys[groups[g]@[0] as int]));
        lemma_keys_tie(keys, rows, i, groups[g]@[0] as int);
        assert(profiles[q].station == profiles[p].station && profiles[q].date == profiles[p].date);
        assert(q == p);
        assert(profile_reads(rows, groups[g]@, Ok(found[g]@)));
        assert(profile_models(found)[g] == profiles[p]);
    }
    assert forall|g: int, h: int| 0 <= g < h < found.len() implies profile_before(
        (#[trigger] found[g])@,
        (#[trigger] found[h])@,
    ) by {
        let p = lemma_group_holds_profile(rows, profiles, keys, groups, g);
        let q = lemma_group_holds_profile(rows, profiles, keys, groups, h);
        assert(profile_reads(rows, groups[g]@, Ok(found[g]@)));
        assert(profile_reads(rows, groups[h]@, Ok(found[h]@)));
        let (left, right) = (keys[groups[g]@[0] as int], keys[groups[h]@[0] as int]);
        assert(0 <= groups[g]@[0] < keys.len());
        assert(0 <= groups[h]@[0] < keys.len());
        assert(!keys[groups[h]@[0] as int].at_most(&keys[groups[g]@[0] as int]));
        <(Vec<char>, Vec<char>)>::total(&left, &right);
        lemma_keys_tie(keys, rows, groups[g]@[0] as int, groups[h]@[0] as int);
        assert(left.at_most(&right));
        if profiles[p].station == profiles[q].station {
            lemma_dictionary_reflexive(right.0@);
        }
    }
}

/// The profiles that are built from observations can be kept.
pub proof fn law_built_profiles_can_be_kept<A: Arithmetic>(
    a: &A,
    observations: Seq<ObservationRecord>,
    profiles: Seq<DayProfile>,
)
    requires
        profiles_are(a, observations, profiles),
        forall|i: int|
            0 <= i < observations.len() ==> station_code((#[trigger] observations[i]).station_id@)
                == observations[i].station_id@,
    ensures
        can_be_kept(profile_models(profiles)),
{
    let models = profile_models(profiles);
    let groups = choose|groups: Seq<Vec<usize>>| #[trigger]
        groups_days(groups, observations) && profiles.len() == groups.len() && forall|g: int|
            0 <= g < groups.len() ==> profiles_day(
                a,
                observations,
                (#[trigger] groups[g])@,
                profiles[g]@,
            );
    let keys = choose|keys: Seq<(Vec<char>, Date)>| #[trigger]
        day_keys(keys, observations) && is_grouping(keys, groups);
    assert forall|p: int, q: int| 0 <= p < q < models.len() implies (
    #[trigger] models[p]).station != (#[trigger] models[q]).station || models[p].date
        != models[q].date by {
        assert(profiles_day(a, observations, groups[p]@, profiles[p]@));
        assert(profiles_day(a, observations, groups[q]@, profiles[q]@));
        assert(0 <= groups[p]@[0] < keys.len());
        assert(0 <= groups[q]@[0] < keys.len());
        let left = keys[groups[p]@[0] as int];
        let right = keys[groups[q]@[0] as int];
        assert(!right.at_most(&left));
        if models[p].station == models[q].station && models[p].date == models[q].date {
            lemma_dictionary_reflexive(left.0@);
        }
    }
    assert forall|p: int| 0 <= p < models.len() implies {
        &&& (#[trigger] models[p]).hours.len() > 0
        &&& station_code(models[p].station) == models[p].station
        &&& hours_rise(models[p].hours)
    } by {
        assert(profiles_day(a, observations, groups[p]@, profiles[p]@));
        assert(0 <= groups[p]@[0] < keys.len());
        let hours = models[p].hours;
        assert forall|i: int, j: int| 0 <= i < j < hours.len() implies (#[trigger] hours[i]).hour
            <= (#[trigger] hours[j]).hour by {
            assert(profiles_hour(a, observations, groups[p]@, i, hours[i]));
            assert(profiles_hour(a, observations, groups[p]@, j, hours[j]));
        }
    }
}

} // verus!
