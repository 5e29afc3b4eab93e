//! Tables: each value of an observation is the number in the column of its name.
use vstd::prelude::*;
use crate::calendar::{civil_read, date_numbered, resolved_in_zone, time_read};
use crate::domain::{
    flag_if, kept, observation_models, Failure, FlagModel, ObservationModel, ObservationRecord,
    StationRecord,
};
use crate::fields::{
    column_named, column_starting, field_at, field_or_empty, fields_hold, number_field,
    table_headers, table_rows,
};
use crate::ghcnh::{
    altimeter_holds, ghcnh_flags, ghcnh_makes, ghcnh_row_makes, ghcnh_row_means,
    ghcnh_table_row_means, normalize_ghcnh, GhcnhHeaderIndexes,
};
use crate::iem::{iem_makes, iem_row_makes, iem_row_means, normalize_iem, IemHeaderIndexes};
use crate::laws::lists::{lemma_kept_count, lemma_kept_positions};
use crate::reading::{Arithmetic, Reading};
use crate::source::DataSource;
use crate::text::{starts_with, texts, trim};

verus! {

/// The text holds this number: what the arithmetic reads of it without the white space around it,
/// and none where nothing, `M` or `VRB` is left.
pub open spec fn is_number_of<A: Arithmetic>(a: &A, text: Seq<char>,
    value: Option<Reading>) -> bool {
    if trim(text).len() == 0 || trim(text) == "M"@ || trim(text) == "VRB"@ {
        value is None
    } else {
        value is Some && exists|s: &str|
            s@ == trim(text) && #[trigger] call_ensures(A::number, (a, s), value)
    }
}

/// This is the first column of the name.
pub open spec fn is_first_called(headers: Seq<Seq<char>>, name: Seq<char>, c: int) -> bool {
    &&& 0 <= c < headers.len()
    &&& headers[c] == name
    &&& forall|j: int| 0 <= j < c ==> #[trigger] headers[j] != name
}

/// The value is the number in the first column of the name, and none where the row does not reach
/// that column or there is no such column.
pub open spec fn is_number_in_column<A: Arithmetic>(
    a: &A,
    headers: Seq<Seq<char>>,
    row: Seq<Seq<char>>,
    name: Seq<char>,
    value: Option<Reading>,
) -> bool {
    &&& forall|c: int|
        #[trigger] is_first_called(headers, name, c) ==> if c < row.len() {
            is_number_of(a, row[c], value)
        } else {
            value is None
        }
    &&& (forall|c: int| 0 <= c < headers.len() ==> #[trigger] headers[c] != name) ==> value is None
}

proof fn lemma_column(headers: Seq<Seq<char>>, name: Seq<char>)
    ensures
        column_named(headers, name) is Some ==> is_first_called(
            headers,
            name,
            column_named(headers, name)->0 as int,
        ),
        column_named(headers, name) is None ==> forall|c: int|
            0 <= c < headers.len() ==> #[trigger] headers[c] != name,
        forall|c: int|
            #[trigger] is_first_called(headers, name, c) ==> column_named(headers, name) == Some(
                c as nat,
            ),
    decreases headers.len(),
{
    if headers.len() > 0 && headers[0] != name {
        let rest = headers.drop_first();
        lemma_column(rest, name);
        assert forall|c: int| 0 < c < headers.len()
            implies #[trigger] headers[c] == rest[c - 1] by {}
        if let Some(k) = column_named(rest, name) {
            assert(headers[k as int + 1] == rest[k as int]);
            assert forall|j: int| 0 <= j < k + 1 implies #[trigger] headers[j] != name by {
                if j > 0 {
                    assert(rest[j - 1] != name);
                }
            }
        }
        assert forall|c: int| #[trigger] is_first_called(headers, name, c) implies column_named(
            headers,
            name,
        ) == Some(c as nat) by {
            assert(c > 0);
            assert forall|j: int| 0 <= j < c - 1 implies #[trigger] rest[j] != name by {
                assert(headers[j + 1] != name);
            }
            assert(is_first_called(rest, name, c - 1));
        }
    } else if headers.len() > 0 {
        assert forall|c: int| #[trigger] is_first_called(headers, name, c) implies c == 0 by {
            if c > 0 {
                assert(headers[0] != name);
            }
        }
    }
}

proof fn lemma_number_in_column<A: Arithmetic>(
    a: &A,
    headers: Seq<Seq<char>>,
    row: Seq<Seq<char>>,
    name: Seq<char>,
    value: Option<Reading>,
)
    requires
        match column_named(headers, name) {
            Some(k) => number_field(a, field_at(row, k), Ok(value)),
            None => value is None,
        },
    ensures
        is_number_in_column(a, headers, row, name, value),
{
    lemma_column(headers, name);
}

/// An observation of a GHCNh table: its temperature is the number in the column called
/// `temperature`, its dew point that in `dew_point_temperature`, and so on with each column and its
/// value. The pressure is that at the station, or else the altimeter's; the humidity is that of its
/// column, or else what the arithmetic makes of the two temperatures.
pub proof fn law_ghcnh_values_are_in_their_columns<A: Arithmetic>(
    a: &A,
    columns: GhcnhHeaderIndexes,
    headers: Seq<Seq<char>>,
    row: Seq<Seq<char>>,
    station: Seq<char>,
    zone: Seq<char>,
    raw_ref: Seq<char>,
    o: ObservationRecord,
)
    requires
        columns.locates(headers),
        ghcnh_row_means(a, columns, row, station, zone, raw_ref, Ok(Some(o@))),
    ensures
        is_number_in_column(a, headers, row, "temperature"@, o.temperature_c),
        is_number_in_column(a, headers, row, "dew_point_temperature"@, o.dewpoint_c),
        is_number_in_column(a, headers, row, "wind_direction"@, o.wind_direction_deg),
        is_number_in_column(a, headers, row, "wind_speed"@, o.wind_speed_kt),
        is_number_in_column(a, headers, row, "wind_gust"@, o.wind_gust_kt),
        is_number_in_column(a, headers, row, "precipitation"@, o.precipitation_mm),
        is_number_in_column(a, headers, row, "sea_level_pressure"@, o.sea_level_pressure_hpa),
        is_number_in_column(a, headers, row, "visibility"@, o.visibility_km),
        exists|pressure: Option<Reading>|
            {
                &&& #[trigger] is_number_in_column(
                    a,
                    headers,
                    row,
                    "station_level_pressure"@,
                    pressure,
                )
                &&& pressure is Some ==> o.pressure_hpa == pressure
                &&& pressure is None ==> is_number_in_column(
                    a,
                    headers,
                    row,
                    "altimeter"@,
                    o.pressure_hpa,
                )
            },
        exists|humidity: Option<Reading>|
            {
                &&& #[trigger] is_number_in_column(
                    a,
                    headers,
                    row,
                    "relative_humidity"@,
                    humidity,
                )
                &&& humidity is Some ==> o.relative_humidity_pct == humidity
                &&& humidity is None ==> {
                    &&& o.relative_humidity_pct is Some <==> o.temperature_c is Some
                        && o.dewpoint_c is Some
                    &&& o.relative_humidity_pct is Some ==> call_ensures(
                        A::relative_humidity_from_celsius,
                        (a, o.temperature_c->0, o.dewpoint_c->0),
                        o.relative_humidity_pct->0,
                    )
                }
            },
        o.wind_u_kt is Some <==> o.wind_direction_deg is Some && o.wind_speed_kt is Some,
        o.wind_v_kt is Some <==> o.wind_direction_deg is Some && o.wind_speed_kt is Some,
        o.wind_u_kt is Some ==> call_ensures(
            A::wind_components_knots,
            (a, o.wind_direction_deg->0, o.wind_speed_kt->0),
            (o.wind_u_kt->0, o.wind_v_kt->0),
        ),
{
    let blank = lemma_ghcnh_row(a, columns, row, station, zone, raw_ref, o);
    let (numbers, altimeter) = choose|numbers: Seq<Option<Reading>>, altimeter: Option<Reading>|
        {
            &&& #[trigger] fields_hold(a, columns.numbers_in(row), numbers)
            &&& #[trigger] altimeter_holds(a, columns, row, numbers[7], altimeter)
            &&& ghcnh_makes(a, blank, numbers, altimeter, columns.sky_in(row), o@)
        };
    let raws = columns.numbers_in(row);
    assert(raws.len() == 10);
    assert(o@.measured == o.measured());
    assert(number_field(a, raws[0], Ok(numbers[0])));
    lemma_number_in_column(a, headers, row, "temperature"@, numbers[0]);
    assert(number_field(a, raws[1], Ok(numbers[1])));
    lemma_number_in_column(a, headers, row, "dew_point_temperature"@, numbers[1]);
    assert(number_field(a, raws[3], Ok(numbers[3])));
    lemma_number_in_column(a, headers, row, "wind_direction"@, numbers[3]);
    assert(number_field(a, raws[4], Ok(numbers[4])));
    lemma_number_in_column(a, headers, row, "wind_speed"@, numbers[4]);
    assert(number_field(a, raws[5], Ok(numbers[5])));
    lemma_number_in_column(a, headers, row, "wind_gust"@, numbers[5]);
    assert(number_field(a, raws[6], Ok(numbers[6])));
    lemma_number_in_column(a, headers, row, "precipitation"@, numbers[6]);
    assert(number_field(a, raws[8], Ok(numbers[8])));
    lemma_number_in_column(a, headers, row, "sea_level_pressure"@, numbers[8]);
    assert(number_field(a, raws[9], Ok(numbers[9])));
    lemma_number_in_column(a, headers, row, "visibility"@, numbers[9]);
    assert(number_field(a, raws[2], Ok(numbers[2])));
    lemma_number_in_column(a, headers, row, "relative_humidity"@, numbers[2]);
    assert(number_field(a, raws[7], Ok(numbers[7])));
    lemma_number_in_column(a, headers, row, "station_level_pressure"@, numbers[7]);
    if numbers[7] is None {
        lemma_number_in_column(a, headers, row, "altimeter"@, altimeter);
    }
}

proof fn lemma_ghcnh_row<A: Arithmetic>(
    a: &A,
    columns: GhcnhHeaderIndexes,
    row: Seq<Seq<char>>,
    station: Seq<char>,
    zone: Seq<char>,
    raw_ref: Seq<char>,
    o: ObservationRecord,
) -> (blank: ObservationModel)
    requires
        ghcnh_row_means(a, columns, row, station, zone, raw_ref, Ok(Some(o@))),
    ensures
        ghcnh_row_makes(a, blank, columns, row, o@),
        crate::ghcnh::ghcnh_time(field_or_empty(row, columns.date), zone) is Ok,
        blank == crate::domain::blank_observation(
            station,
            DataSource::Ghcnh,
            field_or_empty(row, columns.station),
            crate::ghcnh::ghcnh_time(field_or_empty(row, columns.date), zone)->Ok_0,
            raw_ref,
        ),
{
    let local = crate::ghcnh::ghcnh_time(field_or_empty(row, columns.date), zone)->Ok_0;
    crate::domain::blank_observation(
        station,
        DataSource::Ghcnh,
        field_or_empty(row, columns.station),
        local,
        raw_ref,
    )
}

/// The arithmetic reads one number of the same text.
pub open spec fn reads_alike<A: Arithmetic>(a: &A) -> bool {
    forall|s: &str, t: &str, x: Option<Reading>, y: Option<Reading>|
        s@ == t@ && #[trigger] call_ensures(A::number, (a, s), x) && #[trigger] call_ensures(
            A::number,
            (a, t),
            y,
        ) ==> x == y
}

/// The rows agree in the column of the name.
pub open spec fn agree_in_column(
    headers: Seq<Seq<char>>,
    one: Seq<Seq<char>>,
    other: Seq<Seq<char>>,
    name: Seq<char>,
) -> bool {
    forall|c: int|
        #[trigger] is_first_called(headers, name, c) ==> (c < one.len() <==> c < other.len()) && (c
            < one.len() ==> one[c] == other[c])
}

proof fn lemma_same_number<A: Arithmetic>(
    a: &A,
    headers: Seq<Seq<char>>,
    one: Seq<Seq<char>>,
    other: Seq<Seq<char>>,
    name: Seq<char>,
    x: Option<Reading>,
    y: Option<Reading>,
)
    requires
        reads_alike(a),
        agree_in_column(headers, one, other, name),
        is_number_in_column(a, headers, one, name, x),
        is_number_in_column(a, headers, other, name, y),
    ensures
        x == y,
{
    lemma_column(headers, name);
    if let Some(k) = column_named(headers, name) {
        let c = k as int;
        assert(is_first_called(headers, name, c));
        if c < one.len() {
            let text = one[c];
            if x is Some {
                let s = choose|s: &str| s@ == trim(text)
                    && #[trigger] call_ensures(A::number, (a, s), x);
                let t = choose|s: &str| s@ == trim(text)
                    && #[trigger] call_ensures(A::number, (a, s), y);
                assert(s@ == t@);
            }
        }
    }
}

/// Of two rows of a GHCNh table that agree in a column the observations agree in its value,
/// whatever the other columns hold: a change of one column changes only its own value and what is
/// made of it.
pub proof fn law_ghcnh_values_depend_on_their_own_columns<A: Arithmetic>(
    a: &A,
    columns: GhcnhHeaderIndexes,
    headers: Seq<Seq<char>>,
    row: Seq<Seq<char>>,
    other_row: Seq<Seq<char>>,
    station: Seq<char>,
    zone: Seq<char>,
    raw_ref: Seq<char>,
    o: ObservationRecord,
    other: ObservationRecord,
)
    requires
        reads_alike(a),
        columns.locates(headers),
        ghcnh_row_means(a, columns, row, station, zone, raw_ref, Ok(Some(o@))),
        ghcnh_row_means(a, columns, other_row, station, zone, raw_ref, Ok(Some(other@))),
    ensures
        agree_in_column(headers, row, other_row, "temperature"@)
            ==> o.temperature_c == other.temperature_c,
        agree_in_column(headers, row, other_row, "dew_point_temperature"@)
            ==> o.dewpoint_c == other.dewpoint_c,
        agree_in_column(headers, row, other_row, "wind_direction"@)
            ==> o.wind_direction_deg == other.wind_direction_deg,
        agree_in_column(headers, row, other_row, "wind_speed"@)
            ==> o.wind_speed_kt == other.wind_speed_kt,
        agree_in_column(headers, row, other_row, "wind_gust"@)
            ==> o.wind_gust_kt == other.wind_gust_kt,
        agree_in_column(headers, row, other_row, "precipitation"@)
            ==> o.precipitation_mm == other.precipitation_mm,
        agree_in_column(headers, row, other_row, "sea_level_pressure"@)
            ==> o.sea_level_pressure_hpa == other.sea_level_pressure_hpa,
        agree_in_column(headers, row, other_row, "visibility"@)
            ==> o.visibility_km == other.visibility_km,
{
    law_ghcnh_values_are_in_their_columns(a, columns, headers, row, station, zone, raw_ref, o);
    law_ghcnh_values_are_in_their_columns(
        a,
        columns,
        headers,
        other_row,
        station,
        zone,
        raw_ref,
        other,
    );
    if agree_in_column(headers, row, other_row, "temperature"@) {
        lemma_same_number(a, headers, row, other_row, "temperature"@, o.temperature_c,
            other.temperature_c);
    }
    if agree_in_column(headers, row, other_row, "dew_point_temperature"@) {
        lemma_same_number(a, headers, row, other_row, "dew_point_temperature"@, o.dewpoint_c,
            other.dewpoint_c);
    }
    if agree_in_column(headers, row, other_row, "wind_direction"@) {
        lemma_same_number(a, headers, row, other_row, "wind_direction"@, o.wind_direction_deg,
            other.wind_direction_deg);
    }
    if agree_in_column(headers, row, other_row, "wind_speed"@) {
        lemma_same_number(a, headers, row, other_row, "wind_speed"@, o.wind_speed_kt,
            other.wind_speed_kt);
    }
    if agree_in_column(headers, row, other_row, "wind_gust"@) {
        lemma_same_number(a, headers, row, other_row, "wind_gust"@, o.wind_gust_kt,
            other.wind_gust_kt);
    }
    if agree_in_column(headers, row, other_row, "precipitation"@) {
        lemma_same_number(a, headers, row, other_row, "precipitation"@, o.precipitation_mm,
            other.precipitation_mm);
    }
    if agree_in_column(headers, row, other_row, "sea_level_pressure"@) {
        lemma_same_number(a, headers, row, other_row, "sea_level_pressure"@,
            o.sea_level_pressure_hpa, other.sea_level_pressure_hpa);
    }
    if agree_in_column(headers, row, other_row, "visibility"@) {
        lemma_same_number(a, headers, row, other_row, "visibility"@, o.visibility_km,
            other.visibility_km);
    }
}

/// An observation of a GHCNh table has the station and the name of the row, the instant that the
/// row says in the RFC 3339 form or else in UTC, and the code of its first layer of clouds.
pub proof fn law_ghcnh_rows_say_when_and_where<A: Arithmetic>(
    a: &A,
    columns: GhcnhHeaderIndexes,
    headers: Seq<Seq<char>>,
    row: Seq<Seq<char>>,
    station: Seq<char>,
    zone: Seq<char>,
    raw_ref: Seq<char>,
    o: ObservationRecord,
    date: int,
    name: int,
    sky: int,
)
    requires
        columns.locates(headers),
        ghcnh_row_means(a, columns, row, station, zone, raw_ref, Ok(Some(o@))),
        is_first_called(headers, "DATE"@, date),
        is_first_called(headers, "STATION"@, name),
        is_first_called(headers, "sky_cover_layer_1"@, sky),
        date < row.len(),
        name < row.len(),
        sky < row.len(),
    ensures
        o.source == DataSource::Ghcnh,
        o.station_id@ == station,
        o.source_station_id@ == row[name],
        o.raw_ref@ == raw_ref,
        row[date].len() > 0,
        o.observed_at_utc == o.observed_at_local.instant(),
        time_read(row[date]) is Some ==> o.observed_at_utc == time_read(row[date])->0.instant(),
        time_read(row[date]) is None ==> civil_read(row[date], "%Y-%m-%dT%H:%M:%S"@) is Some
            && o.observed_at_utc == crate::calendar::utc_time(
            (civil_read(row[date], "%Y-%m-%dT%H:%M:%S"@)->0).0,
            (civil_read(row[date], "%Y-%m-%dT%H:%M:%S"@)->0).1,
        ),
        o.local_date == date_numbered(o.observed_at_local.clock() / 86400),
        o.minute_of_day == o.observed_at_local.clock() % 86400 / 60,
        trim(row[sky]).len() == 0 ==> o.cloud_cover_code is None && o.cloud_cover_fraction is None,
        trim(row[sky]).len() > 0 ==> o.cloud_cover_code is Some && o.cloud_cover_code->0@ == trim(
            row[sky],
        ) && o.cloud_cover_fraction == crate::domain::cloud_fraction(trim(row[sky])),
        o.text_description is None,
{
    let blank = lemma_ghcnh_row(a, columns, row, station, zone, raw_ref, o);
    let (numbers, altimeter) = choose|numbers: Seq<Option<Reading>>, altimeter: Option<Reading>|
        {
            &&& #[trigger] fields_hold(a, columns.numbers_in(row), numbers)
            &&& #[trigger] altimeter_holds(a, columns, row, numbers[7], altimeter)
            &&& ghcnh_makes(a, blank, numbers, altimeter, columns.sky_in(row), o@)
        };
    lemma_column(headers, "DATE"@);
    lemma_column(headers, "STATION"@);
    lemma_column(headers, "sky_cover_layer_1"@);
    assert(o@.measured == o.measured());
    assert(o@.local == o.observed_at_local && o@.utc == o.observed_at_utc);
    crate::calendar::law_zones_keep_the_instant(zone, crate::ghcnh::ghcnh_instant(row[date])->0);
}

/// An observation of an IEM table: its temperature is what the arithmetic makes in degrees Celsius
/// of the number in the column called `tmpf`, its dew point of that in `dwpf`, its pressure of that
/// in `pres1`, its rain of that in `p01i` and its visibility of that in `vsby`; its wind is the
/// numbers in `drct` and `sknt`. Its humidity follows from the two temperatures.
pub proof fn law_iem_values_are_in_their_columns<A: Arithmetic>(
    a: &A,
    columns: IemHeaderIndexes,
    headers: Seq<Seq<char>>,
    row: Seq<Seq<char>>,
    station: Seq<char>,
    zone: Seq<char>,
    raw_ref: Seq<char>,
    o: ObservationRecord,
)
    requires
        columns.locates(headers),
        iem_row_means(a, columns, row, station, zone, raw_ref, Ok(o@)),
    ensures
        exists|raw: Option<Reading>|
            {
                &&& #[trigger] is_number_in_column(a, headers, row, "tmpf"@, raw)
                &&& o.temperature_c is Some <==> raw is Some
                &&& raw is Some
                    ==> call_ensures(A::fahrenheit_to_celsius, (a, raw->0), o.temperature_c->0)
            },
        exists|raw: Option<Reading>|
            {
                &&& #[trigger] is_number_in_column(a, headers, row, "dwpf"@, raw)
                &&& o.dewpoint_c is Some <==> raw is Some
                &&& raw is Some
                    ==> call_ensures(A::fahrenheit_to_celsius, (a, raw->0), o.dewpoint_c->0)
            },
        exists|raw: Option<Reading>|
            {
                &&& #[trigger] is_number_in_column(a, headers, row, "pres1"@, raw)
                &&& o.pressure_hpa is Some <==> raw is Some
                &&& raw is Some
                    ==> call_ensures(A::inches_hg_to_hpa, (a, raw->0), o.pressure_hpa->0)
            },
        exists|raw: Option<Reading>|
            {
                &&& #[trigger] is_number_in_column(a, headers, row, "p01i"@, raw)
                &&& o.precipitation_mm is Some <==> raw is Some
                &&& raw is Some
                    ==> call_ensures(A::inches_to_mm, (a, raw->0), o.precipitation_mm->0)
            },
        exists|raw: Option<Reading>|
            {
                &&& #[trigger] is_number_in_column(a, headers, row, "vsby"@, raw)
                &&& o.visibility_km is Some <==> raw is Some
                &&& raw is Some ==> call_ensures(A::miles_to_km, (a, raw->0), o.visibility_km->0)
            },
        is_number_in_column(a, headers, row, "drct"@, o.wind_direction_deg),
        is_number_in_column(a, headers, row, "sknt"@, o.wind_speed_kt),
        o.relative_humidity_pct is Some <==> o.temperature_c is Some && o.dewpoint_c is Some,
        o.relative_humidity_pct is Some ==> call_ensures(
            A::relative_humidity_from_celsius,
            (a, o.temperature_c->0, o.dewpoint_c->0),
            o.relative_humidity_pct->0,
        ),
        o.wind_u_kt is Some <==> o.wind_direction_deg is Some && o.wind_speed_kt is Some,
        o.wind_v_kt is Some <==> o.wind_direction_deg is Some && o.wind_speed_kt is Some,
        o.wind_u_kt is Some ==> call_ensures(
            A::wind_components_knots,
            (a, o.wind_direction_deg->0, o.wind_speed_kt->0),
            (o.wind_u_kt->0, o.wind_v_kt->0),
        ),
        o.wind_gust_kt is None,
        o.sea_level_pressure_hpa is None,
{
    let numbers = lemma_iem_row(a, columns, row, station, zone, raw_ref, o);
    let raws = columns.numbers_in(row);
    assert(raws.len() == 7);
    assert(o@.measured == o.measured());
    assert(number_field(a, raws[0], Ok(numbers[0])));
    lemma_number_in_column(a, headers, row, "tmpf"@, numbers[0]);
    assert(number_field(a, raws[1], Ok(numbers[1])));
    lemma_number_in_column(a, headers, row, "dwpf"@, numbers[1]);
    assert(number_field(a, raws[2], Ok(numbers[2])));
    lemma_number_in_column(a, headers, row, "pres1"@, numbers[2]);
    assert(number_field(a, raws[5], Ok(numbers[5])));
    lemma_number_in_column(a, headers, row, "p01i"@, numbers[5]);
    assert(number_field(a, raws[6], Ok(numbers[6])));
    lemma_number_in_column(a, headers, row, "vsby"@, numbers[6]);
    assert(number_field(a, raws[3], Ok(numbers[3])));
    lemma_number_in_column(a, headers, row, "drct"@, numbers[3]);
    assert(number_field(a, raws[4], Ok(numbers[4])));
    lemma_number_in_column(a, headers, row, "sknt"@, numbers[4]);
}

proof fn lemma_iem_row<A: Arithmetic>(
    a: &A,
    columns: IemHeaderIndexes,
    row: Seq<Seq<char>>,
    station: Seq<char>,
    zone: Seq<char>,
    raw_ref: Seq<char>,
    o: ObservationRecord,
) -> (numbers: Seq<Option<Reading>>)
    requires
        iem_row_means(a, columns, row, station, zone, raw_ref, Ok(o@)),
    ensures
        fields_hold(a, columns.numbers_in(row), numbers),
        crate::iem::iem_time(field_or_empty(row, columns.valid), zone) is Ok,
        iem_makes(
            a,
            crate::domain::blank_observation(
                station,
                DataSource::IemAsosOneMinute,
                field_or_empty(row, columns.station),
                crate::iem::iem_time(field_or_empty(row, columns.valid), zone)->Ok_0,
                raw_ref,
            ),
            columns,
            numbers,
            columns.sky_in(row),
            o@,
        ),
{
    let local = crate::iem::iem_time(field_or_empty(row, columns.valid), zone)->Ok_0;
    let blank = crate::domain::blank_observation(
        station,
        DataSource::IemAsosOneMinute,
        field_or_empty(row, columns.station),
        local,
        raw_ref,
    );
    assert(iem_row_makes(a, blank, columns, row, o@));
    choose|numbers: Seq<Option<Reading>>| #[trigger]
        fields_hold(a, columns.numbers_in(row), numbers) && iem_makes(
            a,
            blank,
            columns,
            numbers,
            columns.sky_in(row),
            o@,
        )
}

/// An observation of an IEM table has the station and the name of the row, the time that the row
/// says on the clock of the zone, and the code of its first layer of clouds.
pub proof fn law_iem_rows_say_when_and_where<A: Arithmetic>(
    a: &A,
    columns: IemHeaderIndexes,
    headers: Seq<Seq<char>>,
    row: Seq<Seq<char>>,
    station: Seq<char>,
    zone: Seq<char>,
    raw_ref: Seq<char>,
    o: ObservationRecord,
    valid: int,
    name: int,
    sky: int,
)
    requires
        columns.locates(headers),
        iem_row_means(a, columns, row, station, zone, raw_ref, Ok(o@)),
        0 <= valid < headers.len(),
        starts_with(headers[valid], "valid("@),
        forall|j: int| 0 <= j < valid ==> !starts_with(#[trigger] headers[j], "valid("@),
        is_first_called(headers, "station"@, name),
        is_first_called(headers, "skyc1"@, sky),
        valid < row.len(),
        name < row.len(),
        sky < row.len(),
    ensures
        o.source == DataSource::IemAsosOneMinute,
        o.station_id@ == station,
        o.source_station_id@ == row[name],
        o.raw_ref@ == raw_ref,
        civil_read(row[valid], "%Y-%m-%d %H:%M"@) is Some,
        resolved_in_zone(zone, (civil_read(row[valid], "%Y-%m-%d %H:%M"@)->0).0) == Some(
            o.observed_at_local,
        ),
        o.observed_at_utc == o.observed_at_local.instant(),
        o.local_date == date_numbered(o.observed_at_local.clock() / 86400),
        o.minute_of_day == o.observed_at_local.clock() % 86400 / 60,
        trim(row[sky]).len() == 0 || trim(row[sky]) == "M"@ ==> o.cloud_cover_code is None
            && o.cloud_cover_fraction is None,
        !(trim(row[sky]).len() == 0 || trim(row[sky]) == "M"@) ==> o.cloud_cover_code is Some
            && o.cloud_cover_code->0@ == trim(row[sky]) && o.cloud_cover_fraction
            == crate::domain::cloud_fraction(trim(row[sky])),
        o.text_description is None,
{
    let numbers = lemma_iem_row(a, columns, row, station, zone, raw_ref, o);
    lemma_column_starting(headers, "valid("@, valid);
    lemma_column(headers, "station"@);
    lemma_column(headers, "skyc1"@);
    assert(o@.measured == o.measured());
    assert(o@.local == o.observed_at_local && o@.utc == o.observed_at_utc);
}

proof fn lemma_column_starting(headers: Seq<Seq<char>>, start: Seq<char>, at: int)
    requires
        0 <= at < headers.len(),
        starts_with(headers[at], start),
        forall|j: int| 0 <= j < at ==> !starts_with(#[trigger] headers[j], start),
    ensures
        column_starting(headers, start) == Some(at as nat),
    decreases headers.len(),
{
    if at > 0 {
        let rest = headers.drop_first();
        assert(!starts_with(headers[0], start));
        assert forall|j: int| 0 <= j < at - 1 implies !starts_with(#[trigger] rest[j], start) by {
            assert(!starts_with(headers[j + 1], start));
        }
        assert(rest[at - 1] == headers[at]);
        lemma_column_starting(rest, start, at - 1);
    }
}

/// The names of the columns are read exactly where each column that is needed is there, and each is
/// then the first of its name.
pub proof fn law_ghcnh_columns_are_found_by_name(
    names: &Vec<String>,
    out: Result<GhcnhHeaderIndexes, Failure>,
)
    requires
        call_ensures(GhcnhHeaderIndexes::from_headers, (names,), out),
    ensures
        out is Ok <==> {
            &&& texts(names@).contains("STATION"@)
            &&& texts(names@).contains("DATE"@)
            &&& texts(names@).contains("temperature"@)
            &&& texts(names@).contains("dew_point_temperature"@)
            &&& texts(names@).contains("relative_humidity"@)
            &&& texts(names@).contains("station_level_pressure"@)
            &&& texts(names@).contains("sea_level_pressure"@)
            &&& texts(names@).contains("wind_direction"@)
            &&& texts(names@).contains("wind_speed"@)
            &&& texts(names@).contains("wind_gust"@)
            &&& texts(names@).contains("precipitation"@)
            &&& texts(names@).contains("visibility"@)
            &&& texts(names@).contains("altimeter"@)
            &&& texts(names@).contains("sky_cover_layer_1"@)
        },
        out is Ok ==> is_first_called(texts(names@), "STATION"@, out->Ok_0.station as int),
        out is Ok ==> is_first_called(texts(names@), "DATE"@, out->Ok_0.date as int),
        out is Ok ==> is_first_called(texts(names@), "temperature"@, out->Ok_0.temperature as int),
        out is Ok
            ==> is_first_called(texts(names@), "dew_point_temperature"@, out->Ok_0.dewpoint as int),
        out is Ok
            ==> is_first_called(texts(names@), "relative_humidity"@,
                out->Ok_0.relative_humidity as int),
        out is Ok
            ==> is_first_called(texts(names@), "station_level_pressure"@,
                out->Ok_0.station_level_pressure as int),
        out is Ok
            ==> is_first_called(texts(names@), "sea_level_pressure"@,
                out->Ok_0.sea_level_pressure as int),
        out is Ok
            ==> is_first_called(texts(names@), "wind_direction"@, out->Ok_0.wind_direction as int),
        out is Ok ==> is_first_called(texts(names@), "wind_speed"@, out->Ok_0.wind_speed as int),
        out is Ok ==> is_first_called(texts(names@), "wind_gust"@, out->Ok_0.wind_gust as int),
        out is Ok
            ==> is_first_called(texts(names@), "precipitation"@, out->Ok_0.precipitation as int),
        out is Ok ==> is_first_called(texts(names@), "visibility"@, out->Ok_0.visibility as int),
        out is Ok ==> is_first_called(texts(names@), "altimeter"@, out->Ok_0.altimeter as int),
        out is Ok
            ==> is_first_called(texts(names@), "sky_cover_layer_1"@,
                out->Ok_0.sky_cover_layer_1 as int),
{
    let headers = texts(names@);
    lemma_has_column(headers, "STATION"@);
    lemma_has_column(headers, "DATE"@);
    lemma_has_column(headers, "temperature"@);
    lemma_has_column(headers, "dew_point_temperature"@);
    lemma_has_column(headers, "relative_humidity"@);
    lemma_has_column(headers, "station_level_pressure"@);
    lemma_has_column(headers, "sea_level_pressure"@);
    lemma_has_column(headers, "wind_direction"@);
    lemma_has_column(headers, "wind_speed"@);
    lemma_has_column(headers, "wind_gust"@);
    lemma_has_column(headers, "precipitation"@);
    lemma_has_column(headers, "visibility"@);
    lemma_has_column(headers, "altimeter"@);
    lemma_has_column(headers, "sky_cover_layer_1"@);
}

proof fn lemma_has_column(headers: Seq<Seq<char>>, name: Seq<char>)
    ensures
        column_named(headers, name) is Some <==> headers.contains(name),
        column_named(headers, name) is Some ==> is_first_called(
            headers,
            name,
            column_named(headers, name)->0 as int,
        ),
{
    lemma_column(headers, name);
    if headers.contains(name) {
        let c = choose|c: int| 0 <= c < headers.len() && headers[c] == name;
        assert(headers[c] == name);
    }
}

/// The names of the columns of an IEM table are read exactly where each column that is needed is
/// there; rain, visibility and sky are not needed.
pub proof fn law_iem_columns_are_found_by_name(
    names: &Vec<String>,
    out: Result<IemHeaderIndexes, Failure>,
)
    requires
        call_ensures(IemHeaderIndexes::from_headers, (names,), out),
    ensures
        out is Ok <==> {
            &&& texts(names@).contains("station"@)
            &&& texts(names@).contains("tmpf"@)
            &&& texts(names@).contains("dwpf"@)
            &&& texts(names@).contains("drct"@)
            &&& texts(names@).contains("sknt"@)
            &&& texts(names@).contains("pres1"@)
            &&& exists|c: int|
                0 <= c < names@.len() && starts_with((#[trigger] names@[c])@, "valid("@)
        },
        out is Ok ==> is_first_called(texts(names@), "station"@, out->Ok_0.station as int),
        out is Ok ==> is_first_called(texts(names@), "tmpf"@, out->Ok_0.tmpf as int),
        out is Ok ==> is_first_called(texts(names@), "dwpf"@, out->Ok_0.dwpf as int),
        out is Ok ==> is_first_called(texts(names@), "drct"@, out->Ok_0.drct as int),
        out is Ok ==> is_first_called(texts(names@), "sknt"@, out->Ok_0.sknt as int),
        out is Ok ==> is_first_called(texts(names@), "pres1"@, out->Ok_0.pres1 as int),
        out is Ok ==> (out->Ok_0.p01i is Some <==> texts(names@).contains("p01i"@)),
        out is Ok && out->Ok_0.p01i is Some ==> is_first_called(
            texts(names@),
            "p01i"@,
            out->Ok_0.p01i->0 as int,
        ),
        out is Ok ==> (out->Ok_0.vsby is Some <==> texts(names@).contains("vsby"@)),
        out is Ok && out->Ok_0.vsby is Some ==> is_first_called(
            texts(names@),
            "vsby"@,
            out->Ok_0.vsby->0 as int,
        ),
        out is Ok ==> (out->Ok_0.skyc1 is Some <==> texts(names@).contains("skyc1"@)),
        out is Ok && out->Ok_0.skyc1 is Some ==> is_first_called(
            texts(names@),
            "skyc1"@,
            out->Ok_0.skyc1->0 as int,
        ),
{
    let headers = texts(names@);
    assert(headers.len() == names@.len());
    lemma_has_column(headers, "station"@);
    lemma_has_column(headers, "tmpf"@);
    lemma_has_column(headers, "dwpf"@);
    lemma_has_column(headers, "drct"@);
    lemma_has_column(headers, "sknt"@);
    lemma_has_column(headers, "pres1"@);
    lemma_has_column(headers, "p01i"@);
    lemma_has_column(headers, "vsby"@);
    lemma_has_column(headers, "skyc1"@);
    lemma_some_column_starts(headers, "valid("@);
    if exists|c: int| 0 <= c < names@.len() && starts_with((#[trigger] names@[c])@, "valid("@) {
        let c = choose|c: int| 0 <= c < names@.len()
            && starts_with((#[trigger] names@[c])@, "valid("@);
        assert(headers[c] == names@[c]@);
    }
    if exists|c: int| 0 <= c < headers.len() && starts_with(#[trigger] headers[c], "valid("@) {
        let c = choose|c: int| 0 <= c < headers.len()
            && starts_with(#[trigger] headers[c], "valid("@);
        assert(headers[c] == names@[c]@);
    }
}

proof fn lemma_some_column_starts(headers: Seq<Seq<char>>, start: Seq<char>)
    ensures
        column_starting(headers, start) is Some <==> exists|c: int|
            0 <= c < headers.len() && starts_with(#[trigger] headers[c], start),
    decreases headers.len(),
{
    if headers.len() > 0 {
        let rest = headers.drop_first();
        lemma_some_column_starts(rest, start);
        if starts_with(headers[0], start) {
            assert(starts_with(headers[0], start));
        } else {
            if exists|c: int| 0 <= c < headers.len() && starts_with(#[trigger] headers[c], start) {
                let c = choose|c: int| 0 <= c < headers.len()
                    && starts_with(#[trigger] headers[c], start);
                assert(rest[c - 1] == headers[c]);
            }
            if exists|c: int| 0 <= c < rest.len() && starts_with(#[trigger] rest[c], start) {
                let c = choose|c: int| 0 <= c < rest.len()
                    && starts_with(#[trigger] rest[c], start);
                assert(headers[c + 1] == rest[c]);
            }
        }
    }
}

/// A row of a GHCNh table makes no observation exactly where it says no date.
pub proof fn law_ghcnh_rows_without_a_date_are_passed_over<A: Arithmetic>(
    a: &A,
    columns: GhcnhHeaderIndexes,
    headers: Seq<Seq<char>>,
    row: Seq<Seq<char>>,
    station: Seq<char>,
    zone: Seq<char>,
    raw_ref: Seq<char>,
    out: Result<Option<ObservationModel>, Seq<char>>,
    date: int,
)
    requires
        columns.locates(headers),
        ghcnh_row_means(a, columns, row, station, zone, raw_ref, out),
        is_first_called(headers, "DATE"@, date),
    ensures
        (out is Ok && out->Ok_0 is None) <==> date >= row.len() || row[date].len() == 0 || row[date]
            == "DATE"@,
{
    lemma_column(headers, "DATE"@);
    reveal_strlit("");
}

/// The observations of a GHCNh table are those of its rows that say a date, in their order, each
/// made of the values of its own row.
pub proof fn law_ghcnh_tables_are_read_row_by_row<A: Arithmetic>(
    a: &A,
    content: &[u8],
    station: &StationRecord,
    raw_ref: &str,
    observations: Vec<ObservationRecord>,
)
    requires
        call_ensures(
            normalize_ghcnh::<A>,
            (a, content, station, raw_ref),
            Ok::<Vec<ObservationRecord>, Failure>(observations),
        ),
    ensures
        table_headers(content@, 0x7c, true) is Some,
        exists|columns: GhcnhHeaderIndexes, positions: Seq<int>|
            {
                let rows = table_rows(content@, 0x7c, true);
                &&& #[trigger] columns.locates(table_headers(content@, 0x7c, true)->0)
                &&& #[trigger] are_rising_positions(
                    positions,
                    table_rows(content@, 0x7c, true).len(),
                )
                &&& positions.len() == observations@.len()
                &&& forall|k: int|
                    0 <= k < observations@.len() ==> rows[positions[k]] is Some && ghcnh_row_means(
                        a,
                        columns,
                        rows[positions[k]]->0,
                        station.station_id@,
                        station.timezone@,
                        raw_ref@,
                        Ok(Some((#[trigger] observations@[k])@)),
                    )
                &&& observations@.len() == rows.filter(
                    |row: Option<Seq<Seq<char>>>|
                        row is Some && columns.date < row->0.len()
                            && row->0[columns.date as int].len()
                            > 0 && row->0[columns.date as int] != "DATE"@,
                ).len()
            },
{
    let headers = table_headers(content@, 0x7c, true)->0;
    let rows = table_rows(content@, 0x7c, true);
    let models = observation_models(observations@);
    let code = station.station_id@;
    let zone = station.timezone@;
    assert(crate::ghcnh::ghcnh_columns_mean(a, headers, content@, code, zone, raw_ref@,
        Ok(models)));
    let columns = choose|columns: GhcnhHeaderIndexes| #[trigger]
        columns.locates(headers) && crate::ghcnh::ghcnh_rows_make(
            a,
            columns,
            rows,
            code,
            zone,
            raw_ref@,
            models,
        );
    let outs = choose|outs: Seq<Option<ObservationModel>>|
        {
            &&& outs.len() == rows.len()
            &&& forall|i: int|
                0 <= i < rows.len() ==> ghcnh_table_row_means(
                    a,
                    columns,
                    rows[i],
                    code,
                    zone,
                    raw_ref@,
                    Ok(#[trigger] outs[i]),
                )
            &&& models == #[trigger] kept(outs)
        };
    let positions = lemma_kept_positions(outs);
    assert(models.len() == observations@.len());
    assert(are_rising_positions(positions, rows.len()));
    assert forall|k: int| 0 <= k < observations@.len() implies rows[positions[k]] is Some
        && ghcnh_row_means(
        a,
        columns,
        rows[positions[k]]->0,
        code,
        zone,
        raw_ref@,
        Ok(Some((#[trigger] observations@[k])@)),
    ) by {
        assert(models[k] == observations@[k]@);
        assert(outs[positions[k]] == Some(kept(outs)[k]));
        assert(ghcnh_table_row_means(
            a,
            columns,
            rows[positions[k]],
            code,
            zone,
            raw_ref@,
            Ok(outs[positions[k]]),
        ));
    }
    let p = |row: Option<Seq<Seq<char>>>|
        row is Some && columns.date < row->0.len() && row->0[columns.date as int].len() > 0
            && row->0[columns.date as int] != "DATE"@;
    assert forall|k: int| 0 <= k < rows.len()
        implies ((#[trigger] outs[k]) is Some <==> p(rows[k])) by {
        reveal_strlit("");
        assert(ghcnh_table_row_means(a, columns, rows[k], code, zone, raw_ref@, Ok(outs[k])));
    }
    lemma_kept_count(rows, outs, p);
}

/// Positions in a list, each behind the one before.
pub open spec fn are_rising_positions(positions: Seq<int>, n: nat) -> bool {
    &&& forall|k: int| 0 <= k < positions.len() ==> 0 <= #[trigger] positions[k] < n
    &&& forall|k: int, l: int|
        0 <= k < l < positions.len() ==> #[trigger] positions[k] < #[trigger] positions[l]
}

/// The row can be read, and makes this observation of the station.
pub open spec fn is_made_of_row<A: Arithmetic>(
    a: &A,
    columns: IemHeaderIndexes,
    row: Option<Seq<Seq<char>>>,
    station: StationRecord,
    raw_ref: Seq<char>,
    o: ObservationRecord,
) -> bool {
    row is Some && iem_row_means(
        a,
        columns,
        row->0,
        station.station_id@,
        station.timezone@,
        raw_ref,
        Ok(o@),
    )
}

/// The observations of an IEM table are those of its rows, one for each, in their order, each made
/// of the values of its own row.
pub proof fn law_iem_tables_are_read_row_by_row<A: Arithmetic>(
    a: &A,
    content: &[u8],
    station: &StationRecord,
    raw_ref: &str,
    observations: Vec<ObservationRecord>,
)
    requires
        call_ensures(
            normalize_iem::<A>,
            (a, content, station, raw_ref),
            Ok::<Vec<ObservationRecord>, Failure>(observations),
        ),
    ensures
        table_headers(content@, 0x2c, false) is Some,
        observations@.len() == table_rows(content@, 0x2c, false).len(),
        exists|columns: IemHeaderIndexes|
            {
                let rows = table_rows(content@, 0x2c, false);
                &&& #[trigger] columns.locates(table_headers(content@, 0x2c, false)->0)
                &&& forall|k: int|
                    0 <= k < observations@.len() ==> is_made_of_row(
                        a,
                        columns,
                        rows[k],
                        *station,
                        raw_ref@,
                        #[trigger] observations@[k],
                    )
            },
{
    let headers = table_headers(content@, 0x2c, false)->0;
    let rows = table_rows(content@, 0x2c, false);
    let models = observation_models(observations@);
    let code = station.station_id@;
    let zone = station.timezone@;
    assert(crate::iem::iem_columns_mean(a, headers, content@, code, zone, raw_ref@, Ok(models)));
    let columns = choose|columns: IemHeaderIndexes| #[trigger]
        columns.locates(headers) && crate::iem::iem_rows_make(
            a,
            columns,
            rows,
            code,
            zone,
            raw_ref@,
            models,
        );
    assert(models.len() == observations@.len());
    assert forall|k: int| 0 <= k < observations@.len() implies is_made_of_row(
        a,
        columns,
        rows[k],
        *station,
        raw_ref@,
        #[trigger] observations@[k],
    ) by {
        assert(models[k] == observations@[k]@);
        assert(crate::iem::iem_table_row_means(
            a,
            columns,
            rows[k],
            code,
            zone,
            raw_ref@,
            Ok(models[k]),
        ));
    }
    assert(columns.locates(table_headers(content@, 0x2c, false)->0));
}

/// An observation of a GHCNh table says where its humidity was derived, and where it or its
/// pressure is missing.
pub proof fn law_ghcnh_observations_say_what_is_missing<A: Arithmetic>(
    a: &A,
    columns: GhcnhHeaderIndexes,
    headers: Seq<Seq<char>>,
    row: Seq<Seq<char>>,
    station: Seq<char>,
    zone: Seq<char>,
    raw_ref: Seq<char>,
    o: ObservationRecord,
)
    requires
        columns.locates(headers),
        ghcnh_row_means(a, columns, row, station, zone, raw_ref, Ok(Some(o@))),
    ensures
        o@.flags.contains(FlagModel::SourceFieldMissing("altimeter"@)) <==> o.pressure_hpa is None,
        o@.flags.contains(FlagModel::SourceFieldMissing("relative_humidity"@))
            <==> o.relative_humidity_pct is None,
        exists|humidity: Option<Reading>| #[trigger]
            is_number_in_column(a, headers, row, "relative_humidity"@, humidity)
                && (o@.flags.contains(
                FlagModel::DerivedRelativeHumidity,
            ) <==> humidity is None && o.relative_humidity_pct is Some),
{
    let blank = lemma_ghcnh_row(a, columns, row, station, zone, raw_ref, o);
    let (numbers, altimeter) = choose|numbers: Seq<Option<Reading>>, altimeter: Option<Reading>|
        {
            &&& #[trigger] fields_hold(a, columns.numbers_in(row), numbers)
            &&& #[trigger] altimeter_holds(a, columns, row, numbers[7], altimeter)
            &&& ghcnh_makes(a, blank, numbers, altimeter, columns.sky_in(row), o@)
        };
    let raws = columns.numbers_in(row);
    assert(o@.measured == o.measured());
    assert(number_field(a, raws[2], Ok(numbers[2])));
    lemma_number_in_column(a, headers, row, "relative_humidity"@, numbers[2]);
    let flags = ghcnh_flags(o@.measured, numbers[2] is Some);
    reveal_strlit("altimeter");
    reveal_strlit("relative_humidity");
    assert("altimeter"@.len() == 9 && "relative_humidity"@.len() == 17);
    let x = flag_if(o.pressure_hpa is None, FlagModel::SourceFieldMissing("altimeter"@));
    if o.pressure_hpa is None {
        assert(flags[0] == FlagModel::SourceFieldMissing("altimeter"@));
    }
    if numbers[2] is None && o.relative_humidity_pct is Some {
        assert(flags[x.len() as int] == FlagModel::DerivedRelativeHumidity);
    }
    if o.relative_humidity_pct is None {
        assert(flags.last() == FlagModel::SourceFieldMissing("relative_humidity"@));
    }
}

/// An observation of an IEM table says where its humidity was derived, and which of its wind, its
/// temperature, its dew point and its pressure are missing.
pub proof fn law_iem_observations_say_what_is_missing<A: Arithmetic>(
    a: &A,
    columns: IemHeaderIndexes,
    headers: Seq<Seq<char>>,
    row: Seq<Seq<char>>,
    station: Seq<char>,
    zone: Seq<char>,
    raw_ref: Seq<char>,
    o: ObservationRecord,
)
    requires
        columns.locates(headers),
        iem_row_means(a, columns, row, station, zone, raw_ref, Ok(o@)),
    ensures
        o@.flags.contains(FlagModel::DerivedRelativeHumidity) <==> o.relative_humidity_pct is Some,
        o@.flags.contains(FlagModel::MissingWind) <==> o.wind_direction_deg is None
            || o.wind_speed_kt is None,
        o@.flags.contains(FlagModel::MissingTemperature) <==> o.temperature_c is None,
        o@.flags.contains(FlagModel::MissingDewpoint) <==> o.dewpoint_c is None,
        o@.flags.contains(FlagModel::MissingPressure) <==> o.pressure_hpa is None,
        o@.flags.contains(FlagModel::SourceFieldMissing("skyc1"@)) <==> !headers.contains("skyc1"@),
        o@.flags.contains(FlagModel::SourceFieldMissing("p01i"@)) <==> !headers.contains("p01i"@),
        o@.flags.contains(FlagModel::SourceFieldMissing("vsby"@)) <==> !headers.contains("vsby"@),
{
    let numbers = lemma_iem_row(a, columns, row, station, zone, raw_ref, o);
    assert(o@.measured == o.measured());
    lemma_has_column(headers, "skyc1"@);
    lemma_has_column(headers, "p01i"@);
    lemma_has_column(headers, "vsby"@);
    reveal_strlit("skyc1");
    reveal_strlit("p01i");
    reveal_strlit("vsby");
    assert("skyc1"@[0] == 's' && "p01i"@[0] == 'p' && "vsby"@[0] == 'v');
    lemma_flag_if(o.relative_humidity_pct is Some, FlagModel::DerivedRelativeHumidity);
    lemma_flag_if(
        o.wind_direction_deg is None || o.wind_speed_kt is None,
        FlagModel::MissingWind,
    );
    lemma_flag_if(o.temperature_c is None, FlagModel::MissingTemperature);
    lemma_flag_if(o.dewpoint_c is None, FlagModel::MissingDewpoint);
    lemma_flag_if(o.pressure_hpa is None, FlagModel::MissingPressure);
    lemma_flag_if(columns.skyc1 is None, FlagModel::SourceFieldMissing("skyc1"@));
    lemma_flag_if(columns.p01i is None, FlagModel::SourceFieldMissing("p01i"@));
    lemma_flag_if(columns.vsby is None, FlagModel::SourceFieldMissing("vsby"@));
    lemma_eight_flags(
        flag_if(o.relative_humidity_pct is Some, FlagModel::DerivedRelativeHumidity),
        flag_if(
            o.wind_direction_deg is None || o.wind_speed_kt is None,
            FlagModel::MissingWind,
        ),
        flag_if(o.temperature_c is None, FlagModel::MissingTemperature),
        flag_if(o.dewpoint_c is None, FlagModel::MissingDewpoint),
        flag_if(o.pressure_hpa is None, FlagModel::MissingPressure),
        flag_if(columns.skyc1 is None, FlagModel::SourceFieldMissing("skyc1"@)),
        flag_if(columns.p01i is None, FlagModel::SourceFieldMissing("p01i"@)),
        flag_if(columns.vsby is None, FlagModel::SourceFieldMissing("vsby"@)),
    );
}

/// A flag that applies where the condition holds is the only one in its list.
pub proof fn lemma_flag_if(applies: bool, flag: FlagModel)
    ensures
        forall|other: FlagModel| #[trigger]
            flag_if(applies, flag).contains(other) <==> applies && other == flag,
{
    if applies {
        assert(flag_if(applies, flag)[0] == flag);
    }
}

/// A flag is among several lists exactly where it is in one of them.
proof fn lemma_eight_flags(
    s0: Seq<FlagModel>,
    s1: Seq<FlagModel>,
    s2: Seq<FlagModel>,
    s3: Seq<FlagModel>,
    s4: Seq<FlagModel>,
    s5: Seq<FlagModel>,
    s6: Seq<FlagModel>,
    s7: Seq<FlagModel>,
)
    ensures
        forall|flag: FlagModel| #[trigger]
            (s0 + s1 + s2 + s3 + s4 + s5 + s6 + s7).contains(flag) <==> {
                ||| s0.contains(flag)
                ||| s1.contains(flag)
                ||| s2.contains(flag)
                ||| s3.contains(flag)
                ||| s4.contains(flag)
                ||| s5.contains(flag)
                ||| s6.contains(flag)
                ||| s7.contains(flag)
            },
{
    lemma_either(s0, s1);
    lemma_either(s0 + s1, s2);
    lemma_either(s0 + s1 + s2, s3);
    lemma_either(s0 + s1 + s2 + s3, s4);
    lemma_either(s0 + s1 + s2 + s3 + s4, s5);
    lemma_either(s0 + s1 + s2 + s3 + s4 + s5, s6);
    lemma_either(s0 + s1 + s2 + s3 + s4 + s5 + s6, s7);
}

pub proof fn lemma_either(one: Seq<FlagModel>, other: Seq<FlagModel>)
    ensures
        forall|flag: FlagModel| #[trigger]
            (one + other).contains(flag) <==> one.contains(flag) || other.contains(flag),
{
    assert forall|flag: FlagModel| #[trigger]
        (one + other).contains(flag) <==> one.contains(flag) || other.contains(flag) by {
        if (one + other).contains(flag) {
            let k = choose|k: int| 0 <= k < (one + other).len() && (one + other)[k] == flag;
            if k < one.len() {
                assert(one[k] == flag);
            } else {
                assert(other[k - one.len()] == flag);
            }
        }
        if one.contains(flag) {
            let k = choose|k: int| 0 <= k < one.len() && one[k] == flag;
            assert((one + other)[k] == flag);
        }
        if other.contains(flag) {
            let k = choose|k: int| 0 <= k < other.len() && other[k] == flag;
            assert((one + other)[one.len() + k] == flag);
        }
    }
}

} // verus!
