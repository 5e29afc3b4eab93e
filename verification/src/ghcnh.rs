//! The hourly global archive GHCNh: requests, and tables of UTC times and values.
use vstd::prelude::*;
use crate::calendar::{
    civil_read, lemma_utc_time, local_in_zone, parse_civil, time_read, utc_time, zone_known,
    LocalTime, UtcTime, Zone,
};
use crate::domain::{
    blank_observation, code_fraction, flag_if, fraction_of, kept, lemma_kept_push, maybe_outcome,
    observation_models, opt_text, push_flag_if, table_outcome, Failure, FlagModel, Measured,
    ObservationModel, ObservationRecord, QualityFlag, StationId, StationRecord,
};
use crate::evaluate::{humidity, humidity_follows, wind_parts, wind_splits};
use crate::fields::{
    column_named, field, field_at, field_or_empty, field_text, fields_fail, fields_hold,
    find_header, missing_column, number_field, parse_optional_f64_field, raw_texts, read_fields,
    read_headers, read_rows, row_texts, table_headers, table_rows,
};
use crate::numeral::{int_text, signed_decimal};
use crate::reading::{Arithmetic, Reading};
use crate::source::DataSource;
use crate::text::{same_text, texts, to_chars, to_text, trim, trimmed};

verus! {

/// The columns of a table.
#[derive(Debug, Clone, Copy, PartialEq, Eq, Structural)]
pub struct GhcnhHeaderIndexes {
    pub station: usize,
    pub date: usize,
    pub temperature: usize,
    pub dewpoint: usize,
    pub relative_humidity: usize,
    pub station_level_pressure: usize,
    pub sea_level_pressure: usize,
    pub wind_direction: usize,
    pub wind_speed: usize,
    pub wind_gust: usize,
    pub precipitation: usize,
    pub visibility: usize,
    pub altimeter: usize,
    pub sky_cover_layer_1: usize,
}

/// What is said of the first column that is missing.
pub open spec fn ghcnh_missing(headers: Seq<Seq<char>>) -> Option<Seq<char>> {
    if column_named(headers, "STATION"@) is None {
        Some(missing_column("STATION"@))
    } else if column_named(headers, "DATE"@) is None {
        Some(missing_column("DATE"@))
    } else if column_named(headers, "temperature"@) is None {
        Some(missing_column("temperature"@))
    } else if column_named(headers, "dew_point_temperature"@) is None {
        Some(missing_column("dew_point_temperature"@))
    } else if column_named(headers, "relative_humidity"@) is None {
        Some(missing_column("relative_humidity"@))
    } else if column_named(headers, "station_level_pressure"@) is None {
        Some(missing_column("station_level_pressure"@))
    } else if column_named(headers, "sea_level_pressure"@) is None {
        Some(missing_column("sea_level_pressure"@))
    } else if column_named(headers, "wind_direction"@) is None {
        Some(missing_column("wind_direction"@))
    } else if column_named(headers, "wind_speed"@) is None {
        Some(missing_column("wind_speed"@))
    } else if column_named(headers, "wind_gust"@) is None {
        Some(missing_column("wind_gust"@))
    } else if column_named(headers, "precipitation"@) is None {
        Some(missing_column("precipitation"@))
    } else if column_named(headers, "visibility"@) is None {
        Some(missing_column("visibility"@))
    } else if column_named(headers, "altimeter"@) is None {
        Some(missing_column("altimeter"@))
    } else if column_named(headers, "sky_cover_layer_1"@) is None {
        Some(missing_column("sky_cover_layer_1"@))
    } else {
        None
    }
}

impl GhcnhHeaderIndexes {
    /// These are the columns of a table with these names.
    pub open spec fn locates(self, headers: Seq<Seq<char>>) -> bool {
        &&& column_named(headers, "STATION"@) == Some(self.station as nat)
        &&& column_named(headers, "DATE"@) == Some(self.date as nat)
        &&& column_named(headers, "temperature"@) == Some(self.temperature as nat)
        &&& column_named(headers, "dew_point_temperature"@) == Some(self.dewpoint as nat)
        &&& column_named(headers, "relative_humidity"@) == Some(self.relative_humidity as nat)
        &&& column_named(headers, "station_level_pressure"@) == Some(self.station_level_pressure as nat)
        &&& column_named(headers, "sea_level_pressure"@) == Some(self.sea_level_pressure as nat)
        &&& column_named(headers, "wind_direction"@) == Some(self.wind_direction as nat)
        &&& column_named(headers, "wind_speed"@) == Some(self.wind_speed as nat)
        &&& column_named(headers, "wind_gust"@) == Some(self.wind_gust as nat)
        &&& column_named(headers, "precipitation"@) == Some(self.precipitation as nat)
        &&& column_named(headers, "visibility"@) == Some(self.visibility as nat)
        &&& column_named(headers, "altimeter"@) == Some(self.altimeter as nat)
        &&& column_named(headers, "sky_cover_layer_1"@) == Some(self.sky_cover_layer_1 as nat)
    }

    /// The columns of a table; where one is missing, a failure that names the first.
    pub fn from_headers(headers: &Vec<String>) -> (r: Result<Self, Failure>)
        ensures
            match r {
                Ok(columns) => columns.locates(texts(headers@)) && ghcnh_missing(
                    texts(headers@),
                ) is None,
                Err(failure) => ghcnh_missing(texts(headers@)) == Some(failure.message@),
            },
    {
        let station: usize = match find_header(headers, "STATION") {
            Ok(k) => k,
            Err(failure) => {
                return Err(failure);
            },
        };
        let date: usize = match find_header(headers, "DATE") {
            Ok(k) => k,
            Err(failure) => {
                return Err(failure);
            },
        };
        let temperature: usize = match find_header(headers, "temperature") {
            Ok(k) => k,
            Err(failure) => {
                return Err(failure);
            },
        };
        let dewpoint: usize = match find_header(headers, "dew_point_temperature") {
            Ok(k) => k,
            Err(failure) => {
                return Err(failure);
            },
        };
        let relative_humidity: usize = match find_header(headers, "relative_humidity") {
            Ok(k) => k,
            Err(failure) => {
                return Err(failure);
            },
        };
        let station_level_pressure: usize = match find_header(headers, "station_level_pressure") {
            Ok(k) => k,
            Err(failure) => {
                return Err(failure);
            },
        };
        let sea_level_pressure: usize = match find_header(headers, "sea_level_pressure") {
            Ok(k) => k,
            Err(failure) => {
                return Err(failure);
            },
        };
        let wind_direction: usize = match find_header(headers, "wind_direction") {
            Ok(k) => k,
            Err(failure) => {
                return Err(failure);
            },
        };
        let wind_speed: usize = match find_header(headers, "wind_speed") {
            Ok(k) => k,
            Err(failure) => {
                return Err(failure);
            },
        };
        let wind_gust: usize = match find_header(headers, "wind_gust") {
            Ok(k) => k,
            Err(failure) => {
                return Err(failure);
            },
        };
        let precipitation: usize = match find_header(headers, "precipitation") {
            Ok(k) => k,
            Err(failure) => {
                return Err(failure);
            },
        };
        let visibility: usize = match find_header(headers, "visibility") {
            Ok(k) => k,
            Err(failure) => {
                return Err(failure);
            },
        };
        let altimeter: usize = match find_header(headers, "altimeter") {
            Ok(k) => k,
            Err(failure) => {
                return Err(failure);
            },
        };
        let sky_cover_layer_1: usize = match find_header(headers, "sky_cover_layer_1") {
            Ok(k) => k,
            Err(failure) => {
                return Err(failure);
            },
        };
        Ok(
            Self {
                station,
                date,
                temperature,
                dewpoint,
                relative_humidity,
                station_level_pressure,
                sea_level_pressure,
                wind_direction,
                wind_speed,
                wind_gust,
                precipitation,
                visibility,
                altimeter,
                sky_cover_layer_1,
            },
        )
    }

    /// The fields of a row that hold numbers: temperature, dew point, humidity, wind direction,
    /// speed and gust, rain, pressure at the station and at sea level, and visibility.
    pub open spec fn numbers_in(self, row: Seq<Seq<char>>) -> Seq<Option<Seq<char>>> {
        seq![
            field_at(row, self.temperature as nat),
            field_at(row, self.dewpoint as nat),
            field_at(row, self.relative_humidity as nat),
            field_at(row, self.wind_direction as nat),
            field_at(row, self.wind_speed as nat),
            field_at(row, self.wind_gust as nat),
            field_at(row, self.precipitation as nat),
            field_at(row, self.station_level_pressure as nat),
            field_at(row, self.sea_level_pressure as nat),
            field_at(row, self.visibility as nat),
        ]
    }

    /// The cloud code of a row: its field without surrounding white space, unless nothing is left.
    pub open spec fn sky_in(self, row: Seq<Seq<char>>) -> Option<Seq<char>> {
        match field_at(row, self.sky_cover_layer_1 as nat) {
            Some(text) => if trim(text).len() == 0 {
                None
            } else {
                Some(trim(text))
            },
            None => None,
        }
    }

    fn numbers<'a>(&self, row: &'a Vec<String>) -> (r: Vec<Option<&'a str>>)
        ensures
            raw_texts(r@) == self.numbers_in(texts(row@)),
    {
        let mut raws: Vec<Option<&'a str>> = Vec::new();
        raws.push(field(row, self.temperature));
        raws.push(field(row, self.dewpoint));
        raws.push(field(row, self.relative_humidity));
        raws.push(field(row, self.wind_direction));
        raws.push(field(row, self.wind_speed));
        raws.push(field(row, self.wind_gust));
        raws.push(field(row, self.precipitation));
        raws.push(field(row, self.station_level_pressure));
        raws.push(field(row, self.sea_level_pressure));
        raws.push(field(row, self.visibility));
        assert(raw_texts(raws@) =~= self.numbers_in(texts(row@)));
        raws
    }

    fn sky(&self, row: &Vec<String>) -> (r: Option<String>)
        ensures
            opt_text(r) == self.sky_in(texts(row@)),
    {
        match field(row, self.sky_cover_layer_1) {
            Some(text) => {
                let chars = to_chars(text);
                let body = trimmed(&chars);
                if body.len() == 0 {
                    None
                } else {
                    Some(to_text(body))
                }
            },
            None => None,
        }
    }

    /// The observation of a row, on the clock of the zone; none where the row has no time.
    pub fn to_observation<A: Arithmetic>(
        &self,
        a: &A,
        row: &Vec<String>,
        station: &StationId,
        zone: &Zone,
        raw_ref: &str,
    ) -> (r: Result<Option<ObservationRecord>, Failure>)
        ensures
            ghcnh_row_means(
                a,
                *self,
                texts(row@),
                station@,
                zone.called(),
                raw_ref@,
                maybe_outcome(r),
            ),
    {
        let stamp = field_text(row, self.date);
        if is_no_stamp(stamp) {
            return Ok(None);
        }
        let local = match read_time(stamp, zone) {
            Ok(local) => local,
            Err(failure) => {
                return Err(failure);
            },
        };
        let blank = ObservationRecord::from_parts(
            station.clone(),
            DataSource::Ghcnh,
            field_text(row, self.station).to_string(),
            local,
            raw_ref.to_string(),
        );
        let raws = self.numbers(row);
        let numbers = match read_fields(a, &raws) {
            Ok(numbers) => numbers,
            Err(failure) => {
                return Err(failure);
            },
        };
        let mut altimeter: Option<Reading> = None;
        if numbers[7].is_none() {
            match parse_optional_f64_field(a, field(row, self.altimeter)) {
                Ok(value) => {
                    altimeter = value;
                },
                Err(failure) => {
                    assert(ghcnh_numbers_fail(a, *self, texts(row@), failure.message@));
                    return Err(failure);
                },
            }
        }
        let code = self.sky(row);
        let r = assemble_ghcnh(a, blank, &numbers, altimeter, code);
        assert(altimeter_holds(a, *self, texts(row@), numbers@[7], altimeter));
        assert(ghcnh_row_makes(a, blank@, *self, texts(row@), r@));
        Ok(Some(r))
    }
}

/// The text stands for no time.
pub open spec fn no_stamp(text: Seq<char>) -> bool {
    text.len() == 0 || text == "DATE"@
}

fn is_no_stamp(text: &str) -> (r: bool)
    ensures
        r == no_stamp(text@),
{
    let chars = to_chars(text);
    chars.len() == 0 || same_text(text, "DATE")
}

/// The instant that a text says: in the RFC 3339 form, or without an offset for UTC.
pub open spec fn ghcnh_instant(text: Seq<char>) -> Option<UtcTime> {
    match time_read(text) {
        Some(time) => Some(time.instant()),
        None => match civil_read(text, "%Y-%m-%dT%H:%M:%S"@) {
            Some((seconds, nanos)) => Some(utc_time(seconds, nanos)),
            None => None,
        },
    }
}

/// The time that a text says, on the clock of the zone, or why it says none.
pub open spec fn ghcnh_time(text: Seq<char>, zone: Seq<char>) -> Result<LocalTime, Seq<char>> {
    match ghcnh_instant(text) {
        None => Err("failed to parse GHCNh timestamp "@ + text),
        Some(utc) => match local_in_zone(zone, utc) {
            None => Err("GHCNh timestamp is out of range in station timezone"@),
            Some(local) => Ok(local),
        },
    }
}

fn read_instant(text: &str) -> (r: Option<UtcTime>)
    ensures
        r == ghcnh_instant(text@),
{
    match LocalTime::parse_rfc3339(text) {
        Some(time) => Some(time.utc()),
        None => match parse_civil(text, "%Y-%m-%dT%H:%M:%S") {
            Some(civil) => {
                let utc = UtcTime::new(civil.seconds, civil.nanos);
                proof {
                    lemma_utc_time(utc->0);
                }
                utc
            },
            None => None,
        },
    }
}

/// The time that a text says, on the clock of the zone.
fn read_time(text: &str, zone: &Zone) -> (r: Result<LocalTime, Failure>)
    ensures
        match r {
            Ok(local) => ghcnh_time(text@, zone.called()) == Ok::<LocalTime, Seq<char>>(local),
            Err(failure) => ghcnh_time(text@, zone.called()) == Err::<LocalTime, Seq<char>>(
                failure.message@,
            ),
        },
{
    match read_instant(text) {
        Some(utc) => match zone.local(utc) {
            Some(local) => Ok(local),
            None => Err(Failure::new("GHCNh timestamp is out of range in station timezone")),
        },
        None => Err(Failure::about("failed to parse GHCNh timestamp ", &to_chars(text))),
    }
}

/// The altimeter of a row, which is read where the row has no pressure at the station.
pub open spec fn altimeter_holds<A: Arithmetic>(
    a: &A,
    columns: GhcnhHeaderIndexes,
    row: Seq<Seq<char>>,
    pressure: Option<Reading>,
    altimeter: Option<Reading>,
) -> bool {
    if pressure is Some {
        altimeter is None
    } else {
        number_field(a, field_at(row, columns.altimeter as nat), Ok(altimeter))
    }
}

/// The values of an observation, of the numbers of a row. The altimeter stands in for the pressure
/// at the station; the humidity follows from the temperatures where it is not given.
pub open spec fn ghcnh_measures<A: Arithmetic>(
    a: &A,
    numbers: Seq<Option<Reading>>,
    altimeter: Option<Reading>,
    code: Option<Seq<char>>,
    measured: Measured,
) -> bool {
    &&& measured.temperature_c == numbers[0]
    &&& measured.dewpoint_c == numbers[1]
    &&& match numbers[2] {
        Some(humidity) => measured.relative_humidity_pct == Some(humidity),
        None => humidity_follows(a, numbers[0], numbers[1], measured.relative_humidity_pct),
    }
    &&& measured.wind_direction_deg == numbers[3]
    &&& measured.wind_speed_kt == numbers[4]
    &&& measured.wind_gust_kt == numbers[5]
    &&& measured.precipitation_mm == numbers[6]
    &&& measured.pressure_hpa == (match numbers[7] {
        Some(pressure) => Some(pressure),
        None => altimeter,
    })
    &&& measured.sea_level_pressure_hpa == numbers[8]
    &&& measured.visibility_km == numbers[9]
    &&& measured.cloud_cover_fraction == code_fraction(code)
    &&& wind_splits(
        a,
        measured.wind_direction_deg,
        measured.wind_speed_kt,
        measured.wind_u_kt,
        measured.wind_v_kt,
    )
}

/// The flags of an observation with these values, `given` telling whether the row gave a humidity.
pub open spec fn ghcnh_flags(measured: Measured, given: bool) -> Seq<FlagModel> {
    flag_if(measured.pressure_hpa is None, FlagModel::SourceFieldMissing("altimeter"@)) + flag_if(
        !given && measured.relative_humidity_pct is Some,
        FlagModel::DerivedRelativeHumidity,
    ) + flag_if(
        !given && measured.relative_humidity_pct is None,
        FlagModel::SourceFieldMissing("relative_humidity"@),
    )
}

/// The observation of a row with these numbers.
pub open spec fn ghcnh_makes<A: Arithmetic>(
    a: &A,
    blank: ObservationModel,
    numbers: Seq<Option<Reading>>,
    altimeter: Option<Reading>,
    code: Option<Seq<char>>,
    observation: ObservationModel,
) -> bool {
    &&& ghcnh_measures(a, numbers, altimeter, code, observation.measured)
    &&& observation == ObservationModel {
        measured: observation.measured,
        cloud_cover_code: code,
        flags: ghcnh_flags(observation.measured, numbers[2] is Some),
        ..blank
    }
}

/// The numbers of a row make this observation.
pub open spec fn ghcnh_row_makes<A: Arithmetic>(
    a: &A,
    blank: ObservationModel,
    columns: GhcnhHeaderIndexes,
    row: Seq<Seq<char>>,
    observation: ObservationModel,
) -> bool {
    exists|numbers: Seq<Option<Reading>>, altimeter: Option<Reading>|
        {
            &&& #[trigger] fields_hold(a, columns.numbers_in(row), numbers)
            &&& #[trigger] altimeter_holds(a, columns, row, numbers[7], altimeter)
            &&& ghcnh_makes(a, blank, numbers, altimeter, columns.sky_in(row), observation)
        }
}

/// The numbers of a row fail so: the first that fails, or after them the altimeter.
pub open spec fn ghcnh_numbers_fail<A: Arithmetic>(
    a: &A,
    columns: GhcnhHeaderIndexes,
    row: Seq<Seq<char>>,
    message: Seq<char>,
) -> bool {
    fields_fail(a, columns.numbers_in(row), message) || exists|numbers: Seq<Option<Reading>>|
        {
            &&& #[trigger] fields_hold(a, columns.numbers_in(row), numbers)
            &&& numbers[7] is None
            &&& number_field(a, field_at(row, columns.altimeter as nat), Err(message))
        }
}

/// A row makes this observation, none where it has no time, or fails so.
pub open spec fn ghcnh_row_means<A: Arithmetic>(
    a: &A,
    columns: GhcnhHeaderIndexes,
    row: Seq<Seq<char>>,
    station: Seq<char>,
    zone: Seq<char>,
    raw_ref: Seq<char>,
    out: Result<Option<ObservationModel>, Seq<char>>,
) -> bool {
    let stamp = field_or_empty(row, columns.date);
    if no_stamp(stamp) {
        out == Ok::<Option<ObservationModel>, Seq<char>>(None)
    } else {
        match ghcnh_time(stamp, zone) {
            Err(message) => out == Err::<Option<ObservationModel>, Seq<char>>(message),
            Ok(local) => match out {
                Ok(Some(observation)) => ghcnh_row_makes(
                    a,
                    blank_observation(
                        station,
                        DataSource::Ghcnh,
                        field_or_empty(row, columns.station),
                        local,
                        raw_ref,
                    ),
                    columns,
                    row,
                    observation,
                ),
                Ok(None) => false,
                Err(message) => ghcnh_numbers_fail(a, columns, row, message),
            },
        }
    }
}

/// Puts the numbers of a row into a blank observation.
pub fn assemble_ghcnh<A: Arithmetic>(
    a: &A,
    blank: ObservationRecord,
    numbers: &Vec<Option<Reading>>,
    altimeter: Option<Reading>,
    code: Option<String>,
) -> (r: ObservationRecord)
    requires
        numbers@.len() == 10,
        blank@.flags == Seq::<FlagModel>::empty(),
    ensures
        ghcnh_makes(a, blank@, numbers@, altimeter, opt_text(code), r@),
{
    let mut next = blank;
    next.temperature_c = numbers[0];
    next.dewpoint_c = numbers[1];
    next.relative_humidity_pct = match numbers[2] {
        Some(value) => Some(value),
        None => humidity(a, numbers[0], numbers[1]),
    };
    next.wind_direction_deg = numbers[3];
    next.wind_speed_kt = numbers[4];
    next.wind_gust_kt = numbers[5];
    next.precipitation_mm = numbers[6];
    next.pressure_hpa = match numbers[7] {
        Some(value) => Some(value),
        None => altimeter,
    };
    next.sea_level_pressure_hpa = numbers[8];
    next.visibility_km = numbers[9];
    next.cloud_cover_fraction = fraction_of(&code);
    next.cloud_cover_code = code;
    let (u, v) = wind_parts(a, next.wind_direction_deg, next.wind_speed_kt);
    next.wind_u_kt = u;
    next.wind_v_kt = v;
    let given = numbers[2].is_some();
    let mut flags: Vec<QualityFlag> = Vec::new();
    push_flag_if(
        &mut flags,
        next.pressure_hpa.is_none(),
        QualityFlag::SourceFieldMissing("altimeter".to_string()),
    );
    push_flag_if(
        &mut flags,
        !given && next.relative_humidity_pct.is_some(),
        QualityFlag::DerivedRelativeHumidity,
    );
    push_flag_if(
        &mut flags,
        !given && next.relative_humidity_pct.is_none(),
        QualityFlag::SourceFieldMissing("relative_humidity".to_string()),
    );
    next.quality_flags = flags;
    assert(next@.flags =~= ghcnh_flags(next@.measured, given));
    next
}

/// A row of a table, where it can be read, makes this observation or none, or fails so.
pub open spec fn ghcnh_table_row_means<A: Arithmetic>(
    a: &A,
    columns: GhcnhHeaderIndexes,
    row: Option<Seq<Seq<char>>>,
    station: Seq<char>,
    zone: Seq<char>,
    raw_ref: Seq<char>,
    out: Result<Option<ObservationModel>, Seq<char>>,
) -> bool {
    match row {
        Some(fields) => ghcnh_row_means(a, columns, fields, station, zone, raw_ref, out),
        None => out == Err::<Option<ObservationModel>, Seq<char>>("failed to parse GHCNh row"@),
    }
}

pub open spec fn ghcnh_row_is_read<A: Arithmetic>(
    a: &A,
    columns: GhcnhHeaderIndexes,
    row: Option<Seq<Seq<char>>>,
    station: Seq<char>,
    zone: Seq<char>,
    raw_ref: Seq<char>,
) -> bool {
    exists|out: Option<ObservationModel>| #[trigger]
        ghcnh_table_row_means(a, columns, row, station, zone, raw_ref, Ok(out))
}

/// The rows, each in turn, make these observations.
pub open spec fn ghcnh_rows_make<A: Arithmetic>(
    a: &A,
    columns: GhcnhHeaderIndexes,
    rows: Seq<Option<Seq<Seq<char>>>>,
    station: Seq<char>,
    zone: Seq<char>,
    raw_ref: Seq<char>,
    observations: Seq<ObservationModel>,
) -> bool {
    exists|outs: Seq<Option<ObservationModel>>|
        {
            &&& outs.len() == rows.len()
            &&& forall|i: int|
                0 <= i < rows.len() ==> ghcnh_table_row_means(
                    a,
                    columns,
                    rows[i],
                    station,
                    zone,
                    raw_ref,
                    Ok(#[trigger] outs[i]),
                )
            &&& observations == #[trigger] kept(outs)
        }
}

/// The first of the rows that fails fails with this message.
pub open spec fn ghcnh_rows_fail<A: Arithmetic>(
    a: &A,
    columns: GhcnhHeaderIndexes,
    rows: Seq<Option<Seq<Seq<char>>>>,
    station: Seq<char>,
    zone: Seq<char>,
    raw_ref: Seq<char>,
    message: Seq<char>,
) -> bool {
    exists|i: int|
        {
            &&& 0 <= i < rows.len()
            &&& ghcnh_table_row_means(
                a,
                columns,
                #[trigger] rows[i],
                station,
                zone,
                raw_ref,
                Err(message),
            )
            &&& forall|j: int|
                0 <= j < i ==> ghcnh_row_is_read(
                    a,
                    columns,
                    #[trigger] rows[j],
                    station,
                    zone,
                    raw_ref,
                )
        }
}

/// A table makes these observations, or fails so: for its time zone, its column names, or the
/// first of its rows that fails.
pub open spec fn ghcnh_table_means<A: Arithmetic>(
    a: &A,
    content: Seq<u8>,
    station: Seq<char>,
    zone: Seq<char>,
    raw_ref: Seq<char>,
    out: Result<Seq<ObservationModel>, Seq<char>>,
) -> bool {
    if !zone_known(zone) {
        out == Err::<Seq<ObservationModel>, Seq<char>>("unsupported timezone "@ + zone)
    } else {
        match table_headers(content, 0x7c, true) {
            None => out == Err::<Seq<ObservationModel>, Seq<char>>("failed to read GHCNh headers"@),
            Some(headers) => match ghcnh_missing(headers) {
                Some(message) => out == Err::<Seq<ObservationModel>, Seq<char>>(message),
                None => ghcnh_columns_mean(a, headers, content, station, zone, raw_ref, out),
            },
        }
    }
}

/// The rows of a table with these column names make these observations, or fail so.
pub open spec fn ghcnh_columns_mean<A: Arithmetic>(
    a: &A,
    headers: Seq<Seq<char>>,
    content: Seq<u8>,
    station: Seq<char>,
    zone: Seq<char>,
    raw_ref: Seq<char>,
    out: Result<Seq<ObservationModel>, Seq<char>>,
) -> bool {
    exists|columns: GhcnhHeaderIndexes| #[trigger]
        columns.locates(headers) && match out {
            Ok(observations) => ghcnh_rows_make(
                a,
                columns,
                table_rows(content, 0x7c, true),
                station,
                zone,
                raw_ref,
                observations,
            ),
            Err(message) => ghcnh_rows_fail(
                a,
                columns,
                table_rows(content, 0x7c, true),
                station,
                zone,
                raw_ref,
                message,
            ),
        }
}

/// The observations of a table, its fields separated by bars.
pub fn normalize_ghcnh<A: Arithmetic>(
    a: &A,
    content: &[u8],
    station: &StationRecord,
    raw_ref: &str,
) -> (r: Result<Vec<ObservationRecord>, Failure>)
    ensures
        ghcnh_table_means(
            a,
            content@,
            station.station_id@,
            station.timezone@,
            raw_ref@,
            table_outcome(r),
        ),
{
    let zone = match Zone::parse(&station.timezone) {
        Some(zone) => zone,
        None => {
            return Err(Failure::about("unsupported timezone ", &to_chars(&station.timezone)));
        },
    };
    let headers = match read_headers(content, 0x7c, true) {
        Some(headers) => headers,
        None => {
            return Err(Failure::new("failed to read GHCNh headers"));
        },
    };
    let columns = match GhcnhHeaderIndexes::from_headers(&headers) {
        Ok(columns) => columns,
        Err(failure) => {
            return Err(failure);
        },
    };
    let rows = read_rows(content, 0x7c, true);
    let ghost all = table_rows(content@, 0x7c, true);
    let ghost code = station.station_id@;
    let ghost place = station.timezone@;
    let mut observations: Vec<ObservationRecord> = Vec::new();
    let ghost mut outs: Seq<Option<ObservationModel>> = Seq::empty();
    assert(observation_models(observations@) =~= kept(outs));
    let mut i: usize = 0;
    while i < rows.len()
        invariant
            i <= rows@.len(),
            rows@.map_values(|row: Option<Vec<String>>| row_texts(row)) == all,
            all == table_rows(content@, 0x7c, true),
            table_headers(content@, 0x7c, true) == Some(texts(headers@)),
            ghcnh_missing(texts(headers@)) is None,
            columns.locates(texts(headers@)),
            zone_known(place),
            zone.called() == place,
            place == station.timezone@,
            code == station.station_id@,
            outs.len() == i,
            observation_models(observations@) == kept(outs),
            forall|k: int|
                0 <= k < i ==> ghcnh_table_row_means(
                    a,
                    columns,
                    all[k],
                    code,
                    place,
                    raw_ref@,
                    Ok(#[trigger] outs[k]),
                ),
        decreases rows@.len() - i,
    {
        assert(all[i as int] == row_texts(rows@[i as int]));
        let result = match &rows[i] {
            Some(row) => columns.to_observation(a, row, &station.station_id, &zone, raw_ref),
            None => Err(Failure::new("failed to parse GHCNh row")),
        };
        assert(ghcnh_table_row_means(
            a,
            columns,
            all[i as int],
            code,
            place,
            raw_ref@,
            maybe_outcome(result),
        ));
        match result {
            Ok(Some(observation)) => {
                proof {
                    lemma_kept_push(outs, Some(observation@));
                    outs = outs.push(Some(observation@));
                    assert(observation_models(observations@.push(observation)) =~= observation_models(
                        observations@,
                    ).push(observation@));
                }
                observations.push(observation);
            },
            Ok(None) => {
                proof {
                    lemma_kept_push(outs, None);
                    outs = outs.push(None);
                }
            },
            Err(failure) => {
                proof {
                    assert forall|j: int| 0 <= j < i implies ghcnh_row_is_read(
                        a,
                        columns,
                        #[trigger] all[j],
                        code,
                        place,
                        raw_ref@,
                    ) by {
                        assert(ghcnh_table_row_means(
                            a,
                            columns,
                            all[j],
                            code,
                            place,
                            raw_ref@,
                            Ok(outs[j]),
                        ));
                    }
                    assert(ghcnh_rows_fail(
                        a,
                        columns,
                        all,
                        code,
                        place,
                        raw_ref@,
                        failure.message@,
                    ));
                    assert(ghcnh_columns_mean(
                        a,
                        texts(headers@),
                        content@,
                        code,
                        place,
                        raw_ref@,
                        Err(failure.message@),
                    ));
                }
                return Err(failure);
            },
        }
        i += 1;
    }
    proof {
        let models = observation_models(observations@);
        assert(ghcnh_rows_make(a, columns, all, code, place, raw_ref@, models));
        assert(ghcnh_columns_mean(a, texts(headers@), content@, code, place, raw_ref@, Ok(models)));
    }
    Ok(observations)
}

/// The address of the observations of a station in a year.
pub open spec fn ghcnh_url(station: Seq<char>, year: int) -> Seq<char> {
    "https://www.ncei.noaa.gov/oa/global-historical-climatology-network/hourly/access/by-year/"@
        + int_text(year) + "/psv/GHCNh_"@ + station + "_"@ + int_text(year) + ".psv"@
}

/// The address of the observations of a station in a year.
pub fn year_url(ghcnh_station_id: &str, year: i32) -> (r: String)
    ensures
        r@ == ghcnh_url(ghcnh_station_id@, year as int),
{
    let digits = signed_decimal(year as i64);
    let mut url: String = "https://www.ncei.noaa.gov/oa/global-historical-climatology-network/hourly/access/by-year/".to_string();
    url.append(&digits);
    url.append("/psv/GHCNh_");
    url.append(ghcnh_station_id);
    url.append("_");
    url.append(&digits);
    url.append(".psv");
    url
}

/// A line of the list of stations.
#[derive(Debug, Clone)]
pub struct GhcnhStationListRow {
    pub ghcn_id: String,
    pub icao: Option<String>,
}

/// The row is about the station of this code.
pub open spec fn row_names(row: GhcnhStationListRow, station: Seq<char>) -> bool {
    opt_text(row.icao) == Some(station)
}

/// The code that the archive uses for a station: that of the first row about it.
pub open spec fn mapped_station(rows: Seq<GhcnhStationListRow>, station: Seq<char>) -> Option<
    Seq<char>,
>
    decreases rows.len(),
{
    if rows.len() == 0 {
        None
    } else if row_names(rows[0], station) {
        Some(rows[0].ghcn_id@)
    } else {
        mapped_station(rows.drop_first(), station)
    }
}

/// The code that the archive uses for a station.
pub fn ghcnh_station_id(rows: &Vec<GhcnhStationListRow>, station_id: &StationId) -> (r: Result<
    String,
    Failure,
>)
    ensures
        match r {
            Ok(id) => mapped_station(rows@, station_id@) == Some(id@),
            Err(failure) => mapped_station(rows@, station_id@) is None && failure.message@
                == "no GHCNh station mapping found for "@ + station_id@,
        },
{
    let station = station_id.as_nws_id();
    let mut i: usize = 0;
    assert(rows@.skip(0) =~= rows@);
    while i < rows.len()
        invariant
            i <= rows@.len(),
            station@ == station_id@,
            mapped_station(rows@, station_id@) == mapped_station(
                rows@.skip(i as int),
                station_id@,
            ),
        decreases rows@.len() - i,
    {
        assert(rows@.skip(i as int).drop_first() =~= rows@.skip(i + 1));
        if let Some(icao) = &rows[i].icao {
            if same_text(icao, station) {
                return Ok(rows[i].ghcn_id.clone());
            }
        }
        i += 1;
    }
    Err(Failure::about("no GHCNh station mapping found for ", &to_chars(station)))
}

} // verus!
