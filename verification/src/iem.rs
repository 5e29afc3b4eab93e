//! The one-minute ASOS observations of IEM: requests, and tables of local times and values.
use vstd::prelude::*;
use crate::calendar::{
    civil_read, parse_civil, resolved_in_zone, two_digits, year_text, zone_known, Date, LocalTime,
    Zone,
};
use crate::domain::{
    blank_observation, code_fraction, flag_if, fraction_of, iem_code, observation_models, opt_text,
    outcome, push_flag_if, table_outcome, Failure, FlagModel, Measured, ObservationModel,
    ObservationRecord, QualityFlag, StationId, StationRecord,
};
use crate::evaluate::{
    celsius, hectopascals, humidity, humidity_follows, kilometres, millimetres, to_celsius,
    to_hectopascals, to_kilometres, to_millimetres, wind_parts, wind_splits,
};
use crate::fields::{
    column_named, column_starting, field, field_at, field_or_empty, field_text, fields_fail,
    fields_hold, find_header, find_header_starting, find_optional_header, missing_column,
    optional_field, optional_field_at, position_of, raw_texts, read_fields, read_headers,
    read_rows, row_texts, table_headers, table_rows,
};
use crate::reading::{Arithmetic, Reading};
use crate::source::DataSource;
use crate::text::{replace_char, replaced, spells, texts, to_chars, to_text, trim, trimmed};

verus! {

/// The columns of a table.
#[derive(Debug, Clone, Copy, PartialEq, Eq, Structural)]
pub struct IemHeaderIndexes {
    pub station: usize,
    pub valid: usize,
    pub tmpf: usize,
    pub dwpf: usize,
    pub drct: usize,
    pub sknt: usize,
    pub pres1: usize,
    pub p01i: Option<usize>,
    pub vsby: Option<usize>,
    pub skyc1: Option<usize>,
}

/// What is said of the first required column that is missing.
pub open spec fn iem_missing(headers: Seq<Seq<char>>) -> Option<Seq<char>> {
    if column_named(headers, "station"@) is None {
        Some(missing_column("station"@))
    } else if column_starting(headers, "valid("@) is None {
        Some("IEM CSV missing valid(...) column"@)
    } else if column_named(headers, "tmpf"@) is None {
        Some(missing_column("tmpf"@))
    } else if column_named(headers, "dwpf"@) is None {
        Some(missing_column("dwpf"@))
    } else if column_named(headers, "drct"@) is None {
        Some(missing_column("drct"@))
    } else if column_named(headers, "sknt"@) is None {
        Some(missing_column("sknt"@))
    } else if column_named(headers, "pres1"@) is None {
        Some(missing_column("pres1"@))
    } else {
        None
    }
}

impl IemHeaderIndexes {
    /// These are the columns of a table with these names.
    pub open spec fn locates(self, headers: Seq<Seq<char>>) -> bool {
        &&& column_named(headers, "station"@) == Some(self.station as nat)
        &&& column_starting(headers, "valid("@) == Some(self.valid as nat)
        &&& column_named(headers, "tmpf"@) == Some(self.tmpf as nat)
        &&& column_named(headers, "dwpf"@) == Some(self.dwpf as nat)
        &&& column_named(headers, "drct"@) == Some(self.drct as nat)
        &&& column_named(headers, "sknt"@) == Some(self.sknt as nat)
        &&& column_named(headers, "pres1"@) == Some(self.pres1 as nat)
        &&& column_named(headers, "p01i"@) == position_of(self.p01i)
        &&& column_named(headers, "vsby"@) == position_of(self.vsby)
        &&& column_named(headers, "skyc1"@) == position_of(self.skyc1)
    }

    /// The columns of a table; where a required one is missing, a failure that names the first.
    pub fn from_headers(headers: &Vec<String>) -> (r: Result<Self, Failure>)
        ensures
            match r {
                Ok(columns) => columns.locates(texts(headers@)) && iem_missing(
                    texts(headers@),
                ) is None,
                Err(failure) => iem_missing(texts(headers@)) == Some(failure.message@),
            },
    {
        let station: usize = match find_header(headers, "station") {
            Ok(k) => k,
            Err(failure) => {
                return Err(failure);
            },
        };
        let valid: usize = match find_header_starting(headers, "valid(") {
            Some(k) => k,
            None => {
                return Err(Failure::new("IEM CSV missing valid(...) column"));
            },
        };
        let tmpf: usize = match find_header(headers, "tmpf") {
            Ok(k) => k,
            Err(failure) => {
                return Err(failure);
            },
        };
        let dwpf: usize = match find_header(headers, "dwpf") {
            Ok(k) => k,
            Err(failure) => {
                return Err(failure);
            },
        };
        let drct: usize = match find_header(headers, "drct") {
            Ok(k) => k,
            Err(failure) => {
                return Err(failure);
            },
        };
        let sknt: usize = match find_header(headers, "sknt") {
            Ok(k) => k,
            Err(failure) => {
                return Err(failure);
            },
        };
        let pres1: usize = match find_header(headers, "pres1") {
            Ok(k) => k,
            Err(failure) => {
                return Err(failure);
            },
        };
        Ok(
            Self {
                station,
                valid,
                tmpf,
                dwpf,
                drct,
                sknt,
                pres1,
                p01i: find_optional_header(headers, "p01i"),
                vsby: find_optional_header(headers, "vsby"),
                skyc1: find_optional_header(headers, "skyc1"),
            },
        )
    }

    /// The fields of a row that hold numbers: temperature, dew point, pressure, wind direction,
    /// wind speed, rain and visibility.
    pub open spec fn numbers_in(self, row: Seq<Seq<char>>) -> Seq<Option<Seq<char>>> {
        seq![
            field_at(row, self.tmpf as nat),
            field_at(row, self.dwpf as nat),
            field_at(row, self.pres1 as nat),
            field_at(row, self.drct as nat),
            field_at(row, self.sknt as nat),
            optional_field_at(row, self.p01i),
            optional_field_at(row, self.vsby),
        ]
    }

    /// The cloud code of a row: its field without surrounding white space, unless nothing or `M`
    /// is left.
    pub open spec fn sky_in(self, row: Seq<Seq<char>>) -> Option<Seq<char>> {
        match optional_field_at(row, self.skyc1) {
            Some(text) => if trim(text).len() == 0 || trim(text) == "M"@ {
                None
            } else {
                Some(trim(text))
            },
            None => None,
        }
    }

    fn numbers<'a>(&self, row: &'a Vec<String>) -> (r: Vec<Option<&'a str>>)
        ensures
            raw_texts(r@) == self.numbers_in(texts(row@)),
    {
        let mut raws: Vec<Option<&'a str>> = Vec::new();
        raws.push(field(row, self.tmpf));
        raws.push(field(row, self.dwpf));
        raws.push(field(row, self.pres1));
        raws.push(field(row, self.drct));
        raws.push(field(row, self.sknt));
        raws.push(optional_field(row, self.p01i));
        raws.push(optional_field(row, self.vsby));
        assert(raw_texts(raws@) =~= self.numbers_in(texts(row@)));
        raws
    }

    fn sky(&self, row: &Vec<String>) -> (r: Option<String>)
        ensures
            opt_text(r) == self.sky_in(texts(row@)),
    {
        match optional_field(row, self.skyc1) {
            Some(text) => {
                let chars = to_chars(text);
                let body = trimmed(&chars);
                if body.len() == 0 || spells(body, "M") {
                    None
                } else {
                    Some(to_text(body))
                }
            },
            None => None,
        }
    }
}

/// The time that a text says on the clock of the zone, or why it says none.
pub open spec fn iem_time(text: Seq<char>, zone: Seq<char>) -> Result<LocalTime, Seq<char>> {
    match civil_read(text, "%Y-%m-%d %H:%M"@) {
        None => Err("failed to parse IEM local timestamp "@ + text),
        Some((clock, _)) => match resolved_in_zone(zone, clock) {
            None => Err("failed to resolve IEM local timestamp in station timezone"@),
            Some(local) => Ok(local),
        },
    }
}

/// The time that a text says on the clock of the zone.
pub fn parse_local_datetime(text: &str, zone: &Zone) -> (r: Result<LocalTime, Failure>)
    ensures
        match r {
            Ok(local) => iem_time(text@, zone.called()) == Ok::<LocalTime, Seq<char>>(local),
            Err(failure) => iem_time(text@, zone.called()) == Err::<LocalTime, Seq<char>>(
                failure.message@,
            ),
        },
{
    match parse_civil(text, "%Y-%m-%d %H:%M") {
        Some(civil) => match zone.resolve(civil) {
            Some(local) => Ok(local),
            None => Err(Failure::new("failed to resolve IEM local timestamp in station timezone")),
        },
        None => Err(Failure::about("failed to parse IEM local timestamp ", &to_chars(text))),
    }
}

/// The values of an observation, of the numbers of a row.
pub open spec fn iem_measures<A: Arithmetic>(
    a: &A,
    numbers: Seq<Option<Reading>>,
    code: Option<Seq<char>>,
    measured: Measured,
) -> bool {
    &&& celsius(a, numbers[0], measured.temperature_c)
    &&& celsius(a, numbers[1], measured.dewpoint_c)
    &&& hectopascals(a, numbers[2], measured.pressure_hpa)
    &&& measured.wind_direction_deg == numbers[3]
    &&& measured.wind_speed_kt == numbers[4]
    &&& millimetres(a, numbers[5], measured.precipitation_mm)
    &&& kilometres(a, numbers[6], measured.visibility_km)
    &&& measured.cloud_cover_fraction == code_fraction(code)
    &&& humidity_follows(
        a,
        measured.temperature_c,
        measured.dewpoint_c,
        measured.relative_humidity_pct,
    )
    &&& wind_splits(
        a,
        measured.wind_direction_deg,
        measured.wind_speed_kt,
        measured.wind_u_kt,
        measured.wind_v_kt,
    )
    &&& measured.wind_gust_kt is None
    &&& measured.sea_level_pressure_hpa is None
}

/// The flags of an observation with these values, of a table with these columns.
pub open spec fn iem_flags(columns: IemHeaderIndexes, measured: Measured) -> Seq<FlagModel> {
    flag_if(measured.relative_humidity_pct is Some, FlagModel::DerivedRelativeHumidity) + flag_if(
        measured.wind_direction_deg is None || measured.wind_speed_kt is None,
        FlagModel::MissingWind,
    ) + flag_if(measured.temperature_c is None, FlagModel::MissingTemperature) + flag_if(
        measured.dewpoint_c is None,
        FlagModel::MissingDewpoint,
    ) + flag_if(measured.pressure_hpa is None, FlagModel::MissingPressure) + flag_if(
        columns.skyc1 is None,
        FlagModel::SourceFieldMissing("skyc1"@),
    ) + flag_if(columns.p01i is None, FlagModel::SourceFieldMissing("p01i"@)) + flag_if(
        columns.vsby is None,
        FlagModel::SourceFieldMissing("vsby"@),
    )
}

/// The observation of a row with these numbers.
pub open spec fn iem_makes<A: Arithmetic>(
    a: &A,
    blank: ObservationModel,
    columns: IemHeaderIndexes,
    numbers: Seq<Option<Reading>>,
    code: Option<Seq<char>>,
    observation: ObservationModel,
) -> bool {
    &&& iem_measures(a, numbers, code, observation.measured)
    &&& observation == ObservationModel {
        measured: observation.measured,
        cloud_cover_code: code,
        flags: iem_flags(columns, observation.measured),
        ..blank
    }
}

/// The numbers of a row make this observation.
pub open spec fn iem_row_makes<A: Arithmetic>(
    a: &A,
    blank: ObservationModel,
    columns: IemHeaderIndexes,
    row: Seq<Seq<char>>,
    observation: ObservationModel,
) -> bool {
    exists|numbers: Seq<Option<Reading>>| #[trigger]
        fields_hold(a, columns.numbers_in(row), numbers) && iem_makes(
            a,
            blank,
            columns,
            numbers,
            columns.sky_in(row),
            observation,
        )
}

/// A row makes this observation, or fails so.
pub open spec fn iem_row_means<A: Arithmetic>(
    a: &A,
    columns: IemHeaderIndexes,
    row: Seq<Seq<char>>,
    station: Seq<char>,
    zone: Seq<char>,
    raw_ref: Seq<char>,
    out: Result<ObservationModel, Seq<char>>,
) -> bool {
    match iem_time(field_or_empty(row, columns.valid), zone) {
        Err(message) => out == Err::<ObservationModel, Seq<char>>(message),
        Ok(local) => match out {
            Ok(observation) => iem_row_makes(
                a,
                blank_observation(
                    station,
                    DataSource::IemAsosOneMinute,
                    field_or_empty(row, columns.station),
                    local,
                    raw_ref,
                ),
                columns,
                row,
                observation,
            ),
            Err(message) => fields_fail(a, columns.numbers_in(row), message),
        },
    }
}

/// Puts the numbers of a row into a blank observation.
pub fn assemble_iem<A: Arithmetic>(
    a: &A,
    blank: ObservationRecord,
    columns: &IemHeaderIndexes,
    numbers: &Vec<Option<Reading>>,
    code: Option<String>,
) -> (r: ObservationRecord)
    requires
        numbers@.len() == 7,
        blank@.measured.wind_gust_kt is None,
        blank@.measured.sea_level_pressure_hpa is None,
        blank@.flags == Seq::<FlagModel>::empty(),
    ensures
        iem_makes(a, blank@, *columns, numbers@, opt_text(code), r@),
{
    let mut next = blank;
    next.temperature_c = to_celsius(a, numbers[0]);
    next.dewpoint_c = to_celsius(a, numbers[1]);
    next.pressure_hpa = to_hectopascals(a, numbers[2]);
    next.wind_direction_deg = numbers[3];
    next.wind_speed_kt = numbers[4];
    next.precipitation_mm = to_millimetres(a, numbers[5]);
    next.visibility_km = to_kilometres(a, numbers[6]);
    next.cloud_cover_fraction = fraction_of(&code);
    next.cloud_cover_code = code;
    next.relative_humidity_pct = humidity(a, next.temperature_c, next.dewpoint_c);
    let (u, v) = wind_parts(a, next.wind_direction_deg, next.wind_speed_kt);
    next.wind_u_kt = u;
    next.wind_v_kt = v;
    let mut flags: Vec<QualityFlag> = Vec::new();
    push_flag_if(
        &mut flags,
        next.relative_humidity_pct.is_some(),
        QualityFlag::DerivedRelativeHumidity,
    );
    push_flag_if(
        &mut flags,
        next.wind_direction_deg.is_none() || next.wind_speed_kt.is_none(),
        QualityFlag::MissingWind,
    );
    push_flag_if(&mut flags, next.temperature_c.is_none(), QualityFlag::MissingTemperature);
    push_flag_if(&mut flags, next.dewpoint_c.is_none(), QualityFlag::MissingDewpoint);
    push_flag_if(&mut flags, next.pressure_hpa.is_none(), QualityFlag::MissingPressure);
    push_flag_if(
        &mut flags,
        columns.skyc1.is_none(),
        QualityFlag::SourceFieldMissing("skyc1".to_string()),
    );
    push_flag_if(
        &mut flags,
        columns.p01i.is_none(),
        QualityFlag::SourceFieldMissing("p01i".to_string()),
    );
    push_flag_if(
        &mut flags,
        columns.vsby.is_none(),
        QualityFlag::SourceFieldMissing("vsby".to_string()),
    );
    next.quality_flags = flags;
    assert(next@.flags =~= iem_flags(*columns, next@.measured));
    next
}

/// The observation of a row, on the clock of the zone.
pub fn read_iem_row<A: Arithmetic>(
    a: &A,
    columns: &IemHeaderIndexes,
    row: &Vec<String>,
    station: &StationId,
    zone: &Zone,
    raw_ref: &str,
) -> (r: Result<ObservationRecord, Failure>)
    ensures
        iem_row_means(
            a,
            *columns,
            texts(row@),
            station@,
            zone.called(),
            raw_ref@,
            outcome(r),
        ),
{
    let local = match parse_local_datetime(field_text(row, columns.valid), zone) {
        Ok(local) => local,
        Err(failure) => {
            return Err(failure);
        },
    };
    let blank = ObservationRecord::from_parts(
        station.clone(),
        DataSource::IemAsosOneMinute,
        field_text(row, columns.station).to_string(),
        local,
        raw_ref.to_string(),
    );
    let raws = columns.numbers(row);
    let numbers = match read_fields(a, &raws) {
        Ok(numbers) => numbers,
        Err(failure) => {
            return Err(failure);
        },
    };
    let code = columns.sky(row);
    let r = assemble_iem(a, blank, columns, &numbers, code);
    assert(iem_row_makes(a, blank@, *columns, texts(row@), r@));
    Ok(r)
}

/// A row of a table, where it can be read, makes this observation, or fails so.
pub open spec fn iem_table_row_means<A: Arithmetic>(
    a: &A,
    columns: IemHeaderIndexes,
    row: Option<Seq<Seq<char>>>,
    station: Seq<char>,
    zone: Seq<char>,
    raw_ref: Seq<char>,
    out: Result<ObservationModel, Seq<char>>,
) -> bool {
    match row {
        Some(fields) => iem_row_means(a, columns, fields, station, zone, raw_ref, out),
        None => out == Err::<ObservationModel, Seq<char>>("failed to parse IEM row"@),
    }
}

pub open spec fn iem_row_is_read<A: Arithmetic>(
    a: &A,
    columns: IemHeaderIndexes,
    row: Option<Seq<Seq<char>>>,
    station: Seq<char>,
    zone: Seq<char>,
    raw_ref: Seq<char>,
) -> bool {
    exists|observation: ObservationModel| #[trigger]
        iem_table_row_means(a, columns, row, station, zone, raw_ref, Ok(observation))
}

/// The rows, each in turn, make these observations.
pub open spec fn iem_rows_make<A: Arithmetic>(
    a: &A,
    columns: IemHeaderIndexes,
    rows: Seq<Option<Seq<Seq<char>>>>,
    station: Seq<char>,
    zone: Seq<char>,
    raw_ref: Seq<char>,
    observations: Seq<ObservationModel>,
) -> bool {
    observations.len() == rows.len() && forall|i: int|
        0 <= i < rows.len() ==> iem_table_row_means(
            a,
            columns,
            rows[i],
            station,
            zone,
            raw_ref,
            Ok(#[trigger] observations[i]),
        )
}

/// The first of the rows that fails fails with this message.
pub open spec fn iem_rows_fail<A: Arithmetic>(
    a: &A,
    columns: IemHeaderIndexes,
    rows: Seq<Option<Seq<Seq<char>>>>,
    station: Seq<char>,
    zone: Seq<char>,
    raw_ref: Seq<char>,
    message: Seq<char>,
) -> bool {
    exists|i: int|
        {
            &&& 0 <= i < rows.len()
            &&& iem_table_row_means(
                a,
                columns,
                #[trigger] rows[i],
                station,
                zone,
                raw_ref,
                Err(message),
            )
            &&& forall|j: int|
                0 <= j < i ==> iem_row_is_read(
                    a,
                    columns,
                    #[trigger] rows[j],
                    station,
                    zone,
                    raw_ref,
                )
        }
}

/// A table makes these observations, or fails so: for its time zone, its column names, or the
/// first of its rows that fails.
pub open spec fn iem_table_means<A: Arithmetic>(
    a: &A,
    content: Seq<u8>,
    station: Seq<char>,
    zone: Seq<char>,
    raw_ref: Seq<char>,
    out: Result<Seq<ObservationModel>, Seq<char>>,
) -> bool {
    if !zone_known(zone) {
        out == Err::<Seq<ObservationModel>, Seq<char>>("unsupported timezone "@ + zone)
    } else {
        match table_headers(content, 0x2c, false) {
            None => out == Err::<Seq<ObservationModel>, Seq<char>>(
                "failed to read IEM CSV headers"@,
            ),
            Some(headers) => match iem_missing(headers) {
                Some(message) => out == Err::<Seq<ObservationModel>, Seq<char>>(message),
                None => iem_columns_mean(a, headers, content, station, zone, raw_ref, out),
            },
        }
    }
}

/// The rows of a table with these column names make these observations, or fail so.
pub open spec fn iem_columns_mean<A: Arithmetic>(
    a: &A,
    headers: Seq<Seq<char>>,
    content: Seq<u8>,
    station: Seq<char>,
    zone: Seq<char>,
    raw_ref: Seq<char>,
    out: Result<Seq<ObservationModel>, Seq<char>>,
) -> bool {
    exists|columns: IemHeaderIndexes| #[trigger]
        columns.locates(headers) && match out {
            Ok(observations) => iem_rows_make(
                a,
                columns,
                table_rows(content, 0x2c, false),
                station,
                zone,
                raw_ref,
                observations,
            ),
            Err(message) => iem_rows_fail(
                a,
                columns,
                table_rows(content, 0x2c, false),
                station,
                zone,
                raw_ref,
                message,
            ),
        }
}

/// The observations of a table, its fields separated by commas.
pub fn normalize_iem<A: Arithmetic>(
    a: &A,
    content: &[u8],
    station: &StationRecord,
    raw_ref: &str,
) -> (r: Result<Vec<ObservationRecord>, Failure>)
    ensures
        iem_table_means(
            a,
            content@,
            station.station_id@,
            station.timezone@,
            raw_ref@,
            table_outcome(r),
        ),
{
    let zone = match Zone::parse(&station.timezone) {
        Some(zone) => zone,
        None => {
            return Err(Failure::about("unsupported timezone ", &to_chars(&station.timezone)));
        },
    };
    let headers = match read_headers(content, 0x2c, false) {
        Some(headers) => headers,
        None => {
            return Err(Failure::new("failed to read IEM CSV headers"));
        },
    };
    let columns = match IemHeaderIndexes::from_headers(&headers) {
        Ok(columns) => columns,
        Err(failure) => {
            return Err(failure);
        },
    };
    let rows = read_rows(content, 0x2c, false);
    let ghost all = table_rows(content@, 0x2c, false);
    let ghost code = station.station_id@;
    let ghost place = station.timezone@;
    let mut observations: Vec<ObservationRecord> = Vec::new();
    let mut i: usize = 0;
    while i < rows.len()
        invariant
            i <= rows@.len(),
            rows@.map_values(|row: Option<Vec<String>>| row_texts(row)) == all,
            all == table_rows(content@, 0x2c, false),
            table_headers(content@, 0x2c, false) == Some(texts(headers@)),
            iem_missing(texts(headers@)) is None,
            columns.locates(texts(headers@)),
            zone_known(place),
            zone.called() == place,
            place == station.timezone@,
            code == station.station_id@,
            observations@.len() == i,
            forall|k: int|
                0 <= k < i ==> iem_table_row_means(
                    a,
                    columns,
                    all[k],
                    code,
                    place,
                    raw_ref@,
                    Ok((#[trigger] observations@[k])@),
                ),
        decreases rows@.len() - i,
    {
        assert(all[i as int] == row_texts(rows@[i as int]));
        let result = match &rows[i] {
            Some(row) => read_iem_row(a, &columns, row, &station.station_id, &zone, raw_ref),
            None => Err(Failure::new("failed to parse IEM row")),
        };
        assert(iem_table_row_means(
            a,
            columns,
            all[i as int],
            code,
            place,
            raw_ref@,
            outcome(result),
        ));
        match result {
            Ok(observation) => {
                observations.push(observation);
            },
            Err(failure) => {
                proof {
                    assert forall|j: int| 0 <= j < i implies iem_row_is_read(
                        a,
                        columns,
                        #[trigger] all[j],
                        code,
                        place,
                        raw_ref@,
                    ) by {
                        assert(iem_table_row_means(
                            a,
                            columns,
                            all[j],
                            code,
                            place,
                            raw_ref@,
                            Ok(observations@[j]@),
                        ));
                    }
                    assert(iem_rows_fail(
                        a,
                        columns,
                        all,
                        code,
                        place,
                        raw_ref@,
                        failure.message@,
                    ));
                    assert(iem_columns_mean(
                        a,
                        texts(headers@),
                        content@,
                        code,
                        place,
                        raw_ref@,
                        Err(failure.message@),
                    ));
                }
                return Err(failure);
            },
        }
        i += 1;
    }
    proof {
        let models = observation_models(observations@);
        assert(iem_rows_make(a, columns, all, code, place, raw_ref@, models));
        assert(iem_columns_mean(a, texts(headers@), content@, code, place, raw_ref@, Ok(models)));
    }
    Ok(observations)
}

/// The address of the observations of a station from the start of one day to the end of another,
/// on the clock of a time zone; with rain, visibility and sky on request.
pub open spec fn iem_url(
    station: Seq<char>,
    timezone: Seq<char>,
    start: Date,
    end: Date,
    with_optional: bool,
) -> Seq<char> {
    "https://mesonet.agron.iastate.edu/cgi-bin/request/asos1min.py?station="@ + iem_code(station)
        + "&vars=tmpf&vars=dwpf&vars=drct&vars=sknt&vars=pres1"@ + (if with_optional {
        "&vars=p01i&vars=vsby&vars=skyc1"@
    } else {
        ""@
    }) + "&year1="@ + year_text(start.y()) + "&month1="@ + two_digits(start.m()) + "&day1="@
        + two_digits(start.d()) + "&hour1=0&minute1=0&year2="@ + year_text(end.y()) + "&month2="@
        + two_digits(end.m()) + "&day2="@ + two_digits(end.d())
        + "&hour2=23&minute2=59&what=download&tz="@ + replaced(timezone, '/', "%2F"@)
}

/// The address of the observations of a station.
pub fn request_url(
    station_id: &StationId,
    timezone: &str,
    start: Date,
    end: Date,
    with_optional: bool,
) -> (r: String)
    ensures
        r@ == iem_url(station_id@, timezone@, start, end, with_optional),
{
    let mut url: String = "https://mesonet.agron.iastate.edu/cgi-bin/request/asos1min.py?station=".to_string();
    url.append(station_id.as_iem_id());
    url.append("&vars=tmpf&vars=dwpf&vars=drct&vars=sknt&vars=pres1");
    if with_optional {
        url.append("&vars=p01i&vars=vsby&vars=skyc1");
    } else {
        url.append("");
    }
    url.append("&year1=");
    url.append(&start.year_digits());
    url.append("&month1=");
    url.append(&start.month_digits());
    url.append("&day1=");
    url.append(&start.day_digits());
    url.append("&hour1=0&minute1=0&year2=");
    url.append(&end.year_digits());
    url.append("&month2=");
    url.append(&end.month_digits());
    url.append("&day2=");
    url.append(&end.day_digits());
    url.append("&hour2=23&minute2=59&what=download&tz=");
    url.append(&replace_char(timezone, '/', "%2F"));
    url
}

} // verus!
