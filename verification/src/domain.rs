//! Stations, observations, daily summaries, hourly profiles and probability reports.
use vstd::prelude::*;
use crate::calendar::{date_numbered, Date, LocalTime, UtcTime};
use crate::reading::Reading;
use crate::source::DataSource;
use crate::text::{
    byte_count, byte_len, is_letter, is_space, lemma_trim_ends, lemma_trim_fixed, spells, texts, to_chars, to_text, trim, trimmed, upper, upper_char,
    uppered,
};

verus! {

pub const SCHEMA_VERSION: &'static str = "v1";

pub open spec fn is_letters(s: Seq<char>) -> bool {
    forall|i: int| 0 <= i < s.len() ==> is_letter(#[trigger] s[i])
}

/// The code of a station as it is kept: without surrounding white space, in capitals, and with a
/// `K` before three letters.
pub open spec fn station_code(input: Seq<char>) -> Seq<char> {
    let code = upper(trim(input));
    if code.len() == 3 && is_letters(code) {
        seq!['K'] + code
    } else {
        code
    }
}

/// Keeping a code that is kept already changes nothing.
pub proof fn law_station_code_is_settled(input: Seq<char>)
    ensures
        station_code(station_code(input)) == station_code(input),
{
    let code = station_code(input);
    lemma_trim_ends(input);
    assert(forall|c: char| is_space(#[trigger] upper_char(c)) == is_space(c));
    lemma_trim_fixed(code);
    assert(upper(code) =~= code);
}

/// The code that the IEM service uses: a code of four bytes without its leading `K`.
pub open spec fn iem_code(code: Seq<char>) -> Seq<char> {
    if byte_len(code) == 4 && code.len() > 0 && code[0] == 'K' {
        code.skip(1)
    } else {
        code
    }
}

/// The code of a station, with the code that the IEM service uses for it.
#[derive(Debug)]
pub struct StationId {
    code: String,
    iem: String,
}

impl View for StationId {
    type V = Seq<char>;

    closed spec fn view(&self) -> Seq<char> {
        self.code@
    }
}

impl Clone for StationId {
    fn clone(&self) -> (r: Self)
        ensures
            r@ == self@,
    {
        proof {
            use_type_invariant(self);
        }
        StationId { code: self.code.clone(), iem: self.iem.clone() }
    }
}

impl StationId {
    #[verifier::type_invariant]
    pub closed spec fn holds(self) -> bool {
        station_code(self.code@) == self.code@ && self.iem@ == iem_code(self.code@)
    }

    pub fn new(input: &str) -> (r: Self)
        ensures
            r@ == station_code(input@),
    {
        let chars = to_chars(input);
        let mut code = uppered(trimmed(&chars));
        if code.len() == 3 && all_letters(&code) {
            code.insert(0, 'K');
            assert(code@ =~= station_code(input@));
        }
        proof {
            law_station_code_is_settled(input@);
        }
        let bytes: u128 = byte_count(&code);
        if bytes == 4 && code.len() > 0 && code[0] == 'K' {
            let iem = to_text(vstd::slice::slice_subrange(code.as_slice(), 1, code.len()));
            assert(iem@ =~= iem_code(code@));
            StationId { code: to_text(&code), iem }
        } else {
            StationId { code: to_text(&code), iem: to_text(&code) }
        }
    }

    pub fn as_str(&self) -> (r: &str)
        ensures
            r@ == self@,
            station_code(self@) == self@,
    {
        proof {
            use_type_invariant(self);
        }
        self.code.as_str()
    }

    /// The code that the NWS service uses.
    pub fn as_nws_id(&self) -> (r: &str)
        ensures
            r@ == self@,
    {
        self.code.as_str()
    }

    /// The code that the IEM service uses.
    pub fn as_iem_id(&self) -> (r: &str)
        ensures
            r@ == iem_code(self@),
    {
        proof {
            use_type_invariant(self);
        }
        self.iem.as_str()
    }
}

fn all_letters(chars: &Vec<char>) -> (r: bool)
    ensures
        r == is_letters(chars@),
{
    let mut i: usize = 0;
    while i < chars.len()
        invariant
            i <= chars@.len(),
            forall|k: int| 0 <= k < i ==> is_letter(#[trigger] chars@[k]),
        decreases chars@.len() - i,
    {
        let c: char = chars[i];
        if !(('A' <= c && c <= 'Z') || ('a' <= c && c <= 'z')) {
            assert(!is_letter(chars@[i as int]));
            return false;
        }
        i += 1;
    }
    true
}

/// The share of the sky that a cloud code stands for: none of it, an eighth, three eighths, three
/// quarters or all of it.
pub open spec fn cloud_fraction(code: Seq<char>) -> Option<Reading> {
    let name = upper(trim(code));
    if name == "CLR"@ || name == "SKC"@ {
        Some(Reading { bits: 0 })
    } else if name == "FEW"@ {
        Some(Reading { bits: 0x3FC0_0000_0000_0000 })
    } else if name == "SCT"@ {
        Some(Reading { bits: 0x3FD8_0000_0000_0000 })
    } else if name == "BKN"@ {
        Some(Reading { bits: 0x3FE8_0000_0000_0000 })
    } else if name == "OVC"@ || name == "VV"@ {
        Some(Reading { bits: 0x3FF0_0000_0000_0000 })
    } else {
        None
    }
}

/// The share of the sky that a cloud code stands for.
pub fn cloud_fraction_from_code(code: &str) -> (r: Option<Reading>)
    ensures
        r == cloud_fraction(code@),
{
    let chars = to_chars(code);
    cloud_fraction_of(&chars)
}

pub fn cloud_fraction_of(chars: &[char]) -> (r: Option<Reading>)
    ensures
        r == cloud_fraction(chars@),
{
    let name = uppered(trimmed(chars));
    if spells(&name, "CLR") || spells(&name, "SKC") {
        Some(Reading { bits: 0 })
    } else if spells(&name, "FEW") {
        Some(Reading { bits: 0x3FC0_0000_0000_0000 })
    } else if spells(&name, "SCT") {
        Some(Reading { bits: 0x3FD8_0000_0000_0000 })
    } else if spells(&name, "BKN") {
        Some(Reading { bits: 0x3FE8_0000_0000_0000 })
    } else if spells(&name, "OVC") || spells(&name, "VV") {
        Some(Reading { bits: 0x3FF0_0000_0000_0000 })
    } else {
        None
    }
}

/// The share of the sky that a cloud code stands for, where there is a code.
pub open spec fn code_fraction(code: Option<Seq<char>>) -> Option<Reading> {
    match code {
        Some(text) => cloud_fraction(text),
        None => None,
    }
}

pub(crate) fn fraction_of(code: &Option<String>) -> (r: Option<Reading>)
    ensures
        r == code_fraction(opt_text(*code)),
{
    match code {
        Some(text) => cloud_fraction_from_code(text),
        None => None,
    }
}

/// A station as its service describes it.
#[derive(Debug, Clone)]
pub struct StationRecord {
    pub station_id: StationId,
    pub source_station_id: String,
    pub name: String,
    pub timezone: String,
    pub latitude: Reading,
    pub longitude: Reading,
    pub elevation_m: Option<Reading>,
    pub provider: Option<String>,
    pub fetched_at_utc: UtcTime,
}

/// Where a raw file came from.
#[derive(Debug, Clone)]
pub struct SourceMetadata {
    pub source: DataSource,
    pub schema_version: String,
    pub generated_at_utc: UtcTime,
    pub raw_path: String,
}

/// What is kept beside a data file.
#[derive(Debug, Clone)]
pub struct DatasetManifest {
    pub dataset_kind: String,
    pub source: Option<DataSource>,
    pub station_id: String,
    pub year: i32,
    pub schema_version: String,
    pub generated_at_utc: UtcTime,
    pub row_count: usize,
    pub start_date: Option<Date>,
    pub end_date: Option<Date>,
    pub artifact_path: String,
    pub input_paths: Vec<String>,
    pub warnings: Vec<String>,
    pub source_count: usize,
}

/// What an observation lacks, or how a value of it came about.
#[derive(Debug, Clone)]
pub enum QualityFlag {
    MissingTemperature,
    MissingDewpoint,
    MissingWind,
    MissingPressure,
    MissingCloudCover,
    DerivedRelativeHumidity,
    SourceFieldMissing(String),
}

/// A quality flag, with the text of its field.
pub enum FlagModel {
    MissingTemperature,
    MissingDewpoint,
    MissingWind,
    MissingPressure,
    MissingCloudCover,
    DerivedRelativeHumidity,
    SourceFieldMissing(Seq<char>),
}

impl View for QualityFlag {
    type V = FlagModel;

    open spec fn view(&self) -> FlagModel {
        match *self {
            QualityFlag::MissingTemperature => FlagModel::MissingTemperature,
            QualityFlag::MissingDewpoint => FlagModel::MissingDewpoint,
            QualityFlag::MissingWind => FlagModel::MissingWind,
            QualityFlag::MissingPressure => FlagModel::MissingPressure,
            QualityFlag::MissingCloudCover => FlagModel::MissingCloudCover,
            QualityFlag::DerivedRelativeHumidity => FlagModel::DerivedRelativeHumidity,
            QualityFlag::SourceFieldMissing(field) => FlagModel::SourceFieldMissing(field@),
        }
    }
}

pub open spec fn flag_models(flags: Seq<QualityFlag>) -> Seq<FlagModel> {
    flags.map_values(|flag: QualityFlag| flag@)
}

/// The flag, where it applies.
pub open spec fn flag_if(applies: bool, flag: FlagModel) -> Seq<FlagModel> {
    if applies {
        seq![flag]
    } else {
        seq![]
    }
}

/// Adds the flag where it applies.
pub fn push_flag_if(flags: &mut Vec<QualityFlag>, applies: bool, flag: QualityFlag)
    ensures
        flag_models(final(flags)@) == flag_models(old(flags)@) + flag_if(applies, flag@),
{
    let ghost before = flags@;
    if applies {
        flags.push(flag);
        assert(flag_models(flags@) =~= flag_models(before) + flag_if(applies, flag@));
    } else {
        assert(flag_models(flags@) =~= flag_models(before) + flag_if(applies, flag@));
    }
}

pub open spec fn opt_text(text: Option<String>) -> Option<Seq<char>> {
    match text {
        Some(t) => Some(t@),
        None => None,
    }
}

pub fn clone_opt(text: &Option<String>) -> (r: Option<String>)
    ensures
        opt_text(r) == opt_text(*text),
{
    match text {
        Some(t) => Some(t.clone()),
        None => None,
    }
}

/// The values of one observation.
pub struct Measured {
    pub temperature_c: Option<Reading>,
    pub dewpoint_c: Option<Reading>,
    pub relative_humidity_pct: Option<Reading>,
    pub wind_speed_kt: Option<Reading>,
    pub wind_gust_kt: Option<Reading>,
    pub wind_direction_deg: Option<Reading>,
    pub wind_u_kt: Option<Reading>,
    pub wind_v_kt: Option<Reading>,
    pub precipitation_mm: Option<Reading>,
    pub pressure_hpa: Option<Reading>,
    pub sea_level_pressure_hpa: Option<Reading>,
    pub visibility_km: Option<Reading>,
    pub cloud_cover_fraction: Option<Reading>,
}

pub open spec fn nothing_measured() -> Measured {
    Measured {
        temperature_c: None,
        dewpoint_c: None,
        relative_humidity_pct: None,
        wind_speed_kt: None,
        wind_gust_kt: None,
        wind_direction_deg: None,
        wind_u_kt: None,
        wind_v_kt: None,
        precipitation_mm: None,
        pressure_hpa: None,
        sea_level_pressure_hpa: None,
        visibility_km: None,
        cloud_cover_fraction: None,
    }
}

/// One observation of a station.
#[derive(Debug, Clone)]
pub struct ObservationRecord {
    pub station_id: StationId,
    pub source: DataSource,
    pub source_station_id: String,
    pub observed_at_utc: UtcTime,
    pub observed_at_local: LocalTime,
    pub local_date: Date,
    pub minute_of_day: u16,
    pub temperature_c: Option<Reading>,
    pub dewpoint_c: Option<Reading>,
    pub relative_humidity_pct: Option<Reading>,
    pub wind_speed_kt: Option<Reading>,
    pub wind_gust_kt: Option<Reading>,
    pub wind_direction_deg: Option<Reading>,
    pub wind_u_kt: Option<Reading>,
    pub wind_v_kt: Option<Reading>,
    pub precipitation_mm: Option<Reading>,
    pub pressure_hpa: Option<Reading>,
    pub sea_level_pressure_hpa: Option<Reading>,
    pub visibility_km: Option<Reading>,
    pub cloud_cover_code: Option<String>,
    pub cloud_cover_fraction: Option<Reading>,
    pub raw_ref: String,
    pub text_description: Option<String>,
    pub quality_flags: Vec<QualityFlag>,
}

/// An observation, its texts as sequences of characters.
#[verifier::ext_equal]
pub struct ObservationModel {
    pub station: Seq<char>,
    pub source: DataSource,
    pub source_station: Seq<char>,
    pub utc: UtcTime,
    pub local: LocalTime,
    pub date: Date,
    pub minute_of_day: u16,
    pub measured: Measured,
    pub cloud_cover_code: Option<Seq<char>>,
    pub raw_ref: Seq<char>,
    pub text_description: Option<Seq<char>>,
    pub flags: Seq<FlagModel>,
}

impl ObservationRecord {
    pub open spec fn measured(self) -> Measured {
        Measured {
            temperature_c: self.temperature_c,
            dewpoint_c: self.dewpoint_c,
            relative_humidity_pct: self.relative_humidity_pct,
            wind_speed_kt: self.wind_speed_kt,
            wind_gust_kt: self.wind_gust_kt,
            wind_direction_deg: self.wind_direction_deg,
            wind_u_kt: self.wind_u_kt,
            wind_v_kt: self.wind_v_kt,
            precipitation_mm: self.precipitation_mm,
            pressure_hpa: self.pressure_hpa,
            sea_level_pressure_hpa: self.sea_level_pressure_hpa,
            visibility_km: self.visibility_km,
            cloud_cover_fraction: self.cloud_cover_fraction,
        }
    }
}

impl View for ObservationRecord {
    type V = ObservationModel;

    open spec fn view(&self) -> ObservationModel {
        ObservationModel {
            station: self.station_id@,
            source: self.source,
            source_station: self.source_station_id@,
            utc: self.observed_at_utc,
            local: self.observed_at_local,
            date: self.local_date,
            minute_of_day: self.minute_of_day,
            measured: self.measured(),
            cloud_cover_code: opt_text(self.cloud_cover_code),
            raw_ref: self.raw_ref@,
            text_description: opt_text(self.text_description),
            flags: flag_models(self.quality_flags@),
        }
    }
}

proof fn lemma_minute_of_day(clock: int)
    ensures
        clock % 86400 / 3600 * 60 + clock % 3600 / 60 == clock % 86400 / 60,
        0 <= clock % 86400 / 60 < 1440,
{
    let second = clock % 86400;
    assert(clock % 3600 == second % 3600);
}

/// The observation of a time, with nothing measured yet.
pub open spec fn blank_observation(
    station: Seq<char>,
    source: DataSource,
    source_station: Seq<char>,
    local: LocalTime,
    raw_ref: Seq<char>,
) -> ObservationModel {
    ObservationModel {
        station,
        source,
        source_station,
        utc: local.instant(),
        local,
        date: date_numbered(local.day()),
        minute_of_day: (local.clock() % 86400 / 60) as u16,
        measured: nothing_measured(),
        cloud_cover_code: None,
        raw_ref,
        text_description: None,
        flags: Seq::empty(),
    }
}

impl ObservationRecord {
    pub fn from_parts(
        station_id: StationId,
        source: DataSource,
        source_station_id: String,
        observed_at_local: LocalTime,
        raw_ref: String,
    ) -> (r: Self)
        ensures
            r@ == blank_observation(
                station_id@,
                source,
                source_station_id@,
                observed_at_local,
                raw_ref@,
            ),
            r.local_date.valid(),
            r.observed_at_utc.valid(),
            r.observed_at_local.valid(),
            r.quality_flags@.len() == 0,
    {
        let observed_at_utc = observed_at_local.utc();
        let local_date = observed_at_local.date();
        let hour: u32 = observed_at_local.hour();
        let minute: u32 = observed_at_local.minute();
        proof {
            lemma_minute_of_day(observed_at_local.clock());
        }
        let minute_of_day: u16 = (hour * 60 + minute) as u16;
        let r = Self {
            station_id,
            source,
            source_station_id,
            observed_at_utc,
            observed_at_local,
            local_date,
            minute_of_day,
            temperature_c: None,
            dewpoint_c: None,
            relative_humidity_pct: None,
            wind_speed_kt: None,
            wind_gust_kt: None,
            wind_direction_deg: None,
            wind_u_kt: None,
            wind_v_kt: None,
            precipitation_mm: None,
            pressure_hpa: None,
            sea_level_pressure_hpa: None,
            visibility_km: None,
            cloud_cover_code: None,
            cloud_cover_fraction: None,
            raw_ref,
            text_description: None,
            quality_flags: Vec::new(),
        };
        proof {
            assert(r@.flags =~= Seq::empty());
        }
        r
    }
}

/// Why raw data cannot be turned into observations.
#[derive(Debug, Clone)]
pub struct Failure {
    pub message: String,
}

impl Failure {
    pub fn new(message: &str) -> (r: Self)
        ensures
            r.message@ == message@,
    {
        Failure { message: message.to_string() }
    }

    /// A message that ends with a text.
    pub fn about(message: &str, text: &[char]) -> (r: Self)
        ensures
            r.message@ == message@ + text@,
    {
        let mut all: String = message.to_string();
        all.append(&to_text(text));
        Failure { message: all }
    }
}

/// A result, with the views of its observation and message.
pub open spec fn outcome(r: Result<ObservationRecord, Failure>) -> Result<
    ObservationModel,
    Seq<char>,
> {
    match r {
        Ok(observation) => Ok(observation@),
        Err(failure) => Err(failure.message@),
    }
}

/// A result, with the views of its observation and message.
pub open spec fn maybe_outcome(r: Result<Option<ObservationRecord>, Failure>) -> Result<
    Option<ObservationModel>,
    Seq<char>,
> {
    match r {
        Ok(Some(observation)) => Ok(Some(observation@)),
        Ok(None) => Ok(None),
        Err(failure) => Err(failure.message@),
    }
}

/// The observations, with their views.
pub open spec fn observation_models(observations: Seq<ObservationRecord>) -> Seq<ObservationModel> {
    observations.map_values(|observation: ObservationRecord| observation@)
}

/// A result, with the views of its observations and message.
pub open spec fn table_outcome(r: Result<Vec<ObservationRecord>, Failure>) -> Result<
    Seq<ObservationModel>,
    Seq<char>,
> {
    match r {
        Ok(observations) => Ok(observation_models(observations@)),
        Err(failure) => Err(failure.message@),
    }
}

/// The values that are there, in their order.
pub open spec fn kept<T>(values: Seq<Option<T>>) -> Seq<T>
    decreases values.len(),
{
    if values.len() == 0 {
        seq![]
    } else {
        match values.last() {
            Some(value) => kept(values.drop_last()).push(value),
            None => kept(values.drop_last()),
        }
    }
}

pub proof fn lemma_kept_push<T>(values: Seq<Option<T>>, value: Option<T>)
    ensures
        kept(values.push(value)) == (match value {
            Some(v) => kept(values).push(v),
            None => kept(values),
        }),
{
    assert(values.push(value).drop_last() =~= values);
}

/// What a day was like.
#[derive(Debug, Clone)]
pub struct DailySummary {
    pub station_id: StationId,
    pub local_date: Date,
    pub observation_count: usize,
    pub source_slugs: Vec<String>,
    pub high_temp_c: Option<Reading>,
    pub low_temp_c: Option<Reading>,
    pub mean_temp_c: Option<Reading>,
    pub mean_dewpoint_c: Option<Reading>,
    pub mean_relative_humidity_pct: Option<Reading>,
    pub max_wind_speed_kt: Option<Reading>,
    pub mean_wind_u_kt: Option<Reading>,
    pub mean_wind_v_kt: Option<Reading>,
    pub total_precipitation_mm: Option<Reading>,
    pub mean_cloud_cover_fraction: Option<Reading>,
}

/// The values of one day.
pub struct DayValues {
    pub high_temp_c: Option<Reading>,
    pub low_temp_c: Option<Reading>,
    pub mean_temp_c: Option<Reading>,
    pub mean_dewpoint_c: Option<Reading>,
    pub mean_relative_humidity_pct: Option<Reading>,
    pub max_wind_speed_kt: Option<Reading>,
    pub mean_wind_u_kt: Option<Reading>,
    pub mean_wind_v_kt: Option<Reading>,
    pub total_precipitation_mm: Option<Reading>,
    pub mean_cloud_cover_fraction: Option<Reading>,
}

/// A daily summary, its texts as sequences of characters.
#[verifier::ext_equal]
pub struct DailySummaryModel {
    pub station: Seq<char>,
    pub date: Date,
    pub observation_count: usize,
    pub source_slugs: Seq<Seq<char>>,
    pub values: DayValues,
}

impl View for DailySummary {
    type V = DailySummaryModel;

    open spec fn view(&self) -> DailySummaryModel {
        DailySummaryModel {
            station: self.station_id@,
            date: self.local_date,
            observation_count: self.observation_count,
            source_slugs: texts(self.source_slugs@),
            values: DayValues {
                high_temp_c: self.high_temp_c,
                low_temp_c: self.low_temp_c,
                mean_temp_c: self.mean_temp_c,
                mean_dewpoint_c: self.mean_dewpoint_c,
                mean_relative_humidity_pct: self.mean_relative_humidity_pct,
                max_wind_speed_kt: self.max_wind_speed_kt,
                mean_wind_u_kt: self.mean_wind_u_kt,
                mean_wind_v_kt: self.mean_wind_v_kt,
                total_precipitation_mm: self.total_precipitation_mm,
                mean_cloud_cover_fraction: self.mean_cloud_cover_fraction,
            },
        }
    }
}

/// The values of one hour of a profile.
#[derive(Debug, Clone, Copy, PartialEq, Eq, Structural)]
pub struct HourlyProfilePoint {
    pub hour: u8,
    pub sample_count: usize,
    pub temperature_c: Option<Reading>,
    pub dewpoint_c: Option<Reading>,
    pub relative_humidity_pct: Option<Reading>,
    pub wind_u_kt: Option<Reading>,
    pub wind_v_kt: Option<Reading>,
    pub cloud_cover_fraction: Option<Reading>,
    pub precipitation_mm: Option<Reading>,
}

/// The hours of a day.
#[derive(Debug, Clone)]
pub struct DayProfile {
    pub station_id: StationId,
    pub local_date: Date,
    pub observed_hour_count: usize,
    pub source_slugs: Vec<String>,
    pub hours: Vec<HourlyProfilePoint>,
}

/// A profile, its texts as sequences of characters.
#[verifier::ext_equal]
pub struct DayProfileModel {
    pub station: Seq<char>,
    pub date: Date,
    pub observed_hour_count: usize,
    pub source_slugs: Seq<Seq<char>>,
    pub hours: Seq<HourlyProfilePoint>,
}

impl View for DayProfile {
    type V = DayProfileModel;

    open spec fn view(&self) -> DayProfileModel {
        DayProfileModel {
            station: self.station_id@,
            date: self.local_date,
            observed_hour_count: self.observed_hour_count,
            source_slugs: texts(self.source_slugs@),
            hours: self.hours@,
        }
    }
}

/// What one method makes of the probability.
#[derive(Debug, Clone)]
pub struct ProbabilityEstimate {
    pub method: String,
    pub probability: Reading,
    pub sample_size: usize,
    pub weight_used: Option<Reading>,
    pub confidence_note: Option<String>,
    pub note: Option<String>,
}

/// A method that made nothing of the probability, and why.
#[derive(Debug, Clone)]
pub struct MethodAvailability {
    pub method: String,
    pub reason: String,
}

/// What the methods make of the probability, each and together.
#[derive(Debug, Clone)]
pub struct ProbabilityBreakdown {
    pub station_id: StationId,
    pub target_date: Date,
    pub threshold_high_c: Reading,
    pub quality_state: String,
    pub methods: Vec<ProbabilityEstimate>,
    pub unavailable_methods: Vec<MethodAvailability>,
    pub combined: Option<CombinedProbability>,
    pub combined_probability: Option<Reading>,
}

/// What the methods make of the probability together.
#[derive(Debug, Clone)]
pub struct CombinedProbability {
    pub probability: Reading,
    pub method_count: usize,
    pub combination_note: String,
}

/// A past day that was like the target day.
#[derive(Debug, Clone)]
pub struct AnalogResult {
    pub station_id: StationId,
    pub target_date: Date,
    pub analog_date: Date,
    pub distance: Reading,
    pub observed_high_c: Option<Reading>,
    pub compared_hours: usize,
    pub candidate_source_summary: String,
    pub source_mix_note: Option<String>,
}

/// An analog, its texts as sequences of characters.
#[verifier::ext_equal]
pub struct AnalogModel {
    pub station: Seq<char>,
    pub target_date: Date,
    pub analog_date: Date,
    pub distance: Reading,
    pub observed_high_c: Option<Reading>,
    pub compared_hours: usize,
    pub candidate_source_summary: Seq<char>,
    pub source_mix_note: Option<Seq<char>>,
}

impl View for AnalogResult {
    type V = AnalogModel;

    open spec fn view(&self) -> AnalogModel {
        AnalogModel {
            station: self.station_id@,
            target_date: self.target_date,
            analog_date: self.analog_date,
            distance: self.distance,
            observed_high_c: self.observed_high_c,
            compared_hours: self.compared_hours,
            candidate_source_summary: self.candidate_source_summary@,
            source_mix_note: opt_text(self.source_mix_note),
        }
    }
}

/// An estimate, its texts as sequences of characters.
#[verifier::ext_equal]
pub struct EstimateModel {
    pub method: Seq<char>,
    pub probability: Reading,
    pub sample_size: usize,
    pub weight_used: Option<Reading>,
    pub confidence_note: Option<Seq<char>>,
    pub note: Option<Seq<char>>,
}

impl View for ProbabilityEstimate {
    type V = EstimateModel;

    open spec fn view(&self) -> EstimateModel {
        EstimateModel {
            method: self.method@,
            probability: self.probability,
            sample_size: self.sample_size,
            weight_used: self.weight_used,
            confidence_note: opt_text(self.confidence_note),
            note: opt_text(self.note),
        }
    }
}

pub open spec fn opt_estimate(estimate: Option<ProbabilityEstimate>) -> Option<EstimateModel> {
    match estimate {
        Some(e) => Some(e@),
        None => None,
    }
}

/// What the methods make of the probability together, its note as a sequence of characters.
#[verifier::ext_equal]
pub struct CombinedModel {
    pub probability: Reading,
    pub method_count: usize,
    pub combination_note: Seq<char>,
}

/// What the methods make of the probability, its texts as sequences of characters. A method that
/// made nothing of it stands as a pair of its name and the reason.
#[verifier::ext_equal]
pub struct BreakdownModel {
    pub station: Seq<char>,
    pub target_date: Date,
    pub threshold_high_c: Reading,
    pub quality_state: Seq<char>,
    pub methods: Seq<EstimateModel>,
    pub unavailable_methods: Seq<(Seq<char>, Seq<char>)>,
    pub combined: Option<CombinedModel>,
    pub combined_probability: Option<Reading>,
}

impl View for ProbabilityBreakdown {
    type V = BreakdownModel;

    open spec fn view(&self) -> BreakdownModel {
        BreakdownModel {
            station: self.station_id@,
            target_date: self.target_date,
            threshold_high_c: self.threshold_high_c,
            quality_state: self.quality_state@,
            methods: self.methods@.map_values(|estimate: ProbabilityEstimate| estimate@),
            unavailable_methods: self.unavailable_methods@.map_values(
                |method: MethodAvailability| (method.method@, method.reason@),
            ),
            combined: match self.combined {
                Some(combined) => Some(
                    CombinedModel {
                        probability: combined.probability,
                        method_count: combined.method_count,
                        combination_note: combined.combination_note@,
                    },
                ),
                None => None,
            },
            combined_probability: self.combined_probability,
        }
    }
}

} // verus!
