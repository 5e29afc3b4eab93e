//! Rows: each column holds the value of its name, and is read back into it.
use vstd::prelude::*;
use crate::calendar::{date_read, rfc3339_text, time_read};
use crate::domain::{station_code, DailySummary, DayProfile, ObservationRecord, QualityFlag};
use crate::order::is_stable_order;
use crate::rows::{
    groups_rows, hours_in, profile_in_order, profile_reads, profiles_read, strings_read,
    DailySummaryRow, DayProfileRow, ObservationRow, RowError,
};
use crate::source::{slug_of, DataSource};
use crate::text::texts;

verus! {

/// The row of an observation holds each of its values under its own name, and its texts, its times
/// in the RFC 3339 form and the short name of its source.
pub proof fn law_observation_rows_hold_each_value(
    value: &ObservationRecord,
    json: String,
    row: ObservationRow,
)
    requires
        call_ensures(ObservationRow::from_observation, (value, json), row),
    ensures
        row.temperature_c == value.temperature_c,
        row.dewpoint_c == value.dewpoint_c,
        row.relative_humidity_pct == value.relative_humidity_pct,
        row.wind_speed_kt == value.wind_speed_kt,
        row.wind_gust_kt == value.wind_gust_kt,
        row.wind_direction_deg == value.wind_direction_deg,
        row.wind_u_kt == value.wind_u_kt,
        row.wind_v_kt == value.wind_v_kt,
        row.precipitation_mm == value.precipitation_mm,
        row.pressure_hpa == value.pressure_hpa,
        row.sea_level_pressure_hpa == value.sea_level_pressure_hpa,
        row.visibility_km == value.visibility_km,
        row.cloud_cover_fraction == value.cloud_cover_fraction,
        row.schema_version@ == "v1"@,
        row.station_id@ == value.station_id@,
        row.source_station_id@ == value.source_station_id@,
        row.raw_ref@ == value.raw_ref@,
        row.minute_of_day == value.minute_of_day,
        row.local_date@ == value.local_date.text(),
        row.observed_at_utc@
            == rfc3339_text(value.observed_at_utc.s(), value.observed_at_utc.n(), 0),
        row.observed_at_local@ == rfc3339_text(
            value.observed_at_local.instant().s(),
            value.observed_at_local.instant().n(),
            value.observed_at_local.east(),
        ),
        row.cloud_cover_code is Some <==> value.cloud_cover_code is Some,
        row.cloud_cover_code is Some ==> row.cloud_cover_code->0@ == value.cloud_cover_code->0@,
        row.text_description is Some <==> value.text_description is Some,
        row.text_description is Some ==> row.text_description->0@ == value.text_description->0@,
        row.quality_flags_json@ == json@,
        value.source == DataSource::Ghcnh <==> row.source@ == "ghcnh"@,
        value.source == DataSource::IemAsosOneMinute <==> row.source@ == "iem-asos-1min"@,
        value.source == DataSource::NceiAsosFiveMinute <==> row.source@ == "ncei-asos-5min"@,
        value.source == DataSource::NwsApi <==> row.source@ == "nws-api"@,
{
    let left = row@;
    let right = value@;
    assert(left.measured == right.measured);
    assert(right.measured == value.measured());
    assert(left.cloud_cover_code == right.cloud_cover_code);
    assert(left.text_description == right.text_description);
    crate::source::lemma_slug_lens();
}

/// An observation that is read out of a row has each of the row's values under its own name.
pub proof fn law_observations_have_each_value_of_their_row(
    row: ObservationRow,
    flags: Option<Vec<QualityFlag>>,
    out: Result<ObservationRecord, RowError>,
)
    requires
        call_ensures(ObservationRow::into_observation, (row, flags), out),
    ensures
        out is Ok <==> {
            &&& row.source@ == "ghcnh"@ || row.source@ == "iem-asos-1min"@ || row.source@
                == "ncei-asos-5min"@ || row.source@ == "nws-api"@
            &&& time_read(row.observed_at_utc@) is Some
            &&& time_read(row.observed_at_local@) is Some
            &&& date_read(row.local_date@) is Some
            &&& flags is Some
        },
        out is Ok ==> out->Ok_0.temperature_c == row.temperature_c,
        out is Ok ==> out->Ok_0.dewpoint_c == row.dewpoint_c,
        out is Ok ==> out->Ok_0.relative_humidity_pct == row.relative_humidity_pct,
        out is Ok ==> out->Ok_0.wind_speed_kt == row.wind_speed_kt,
        out is Ok ==> out->Ok_0.wind_gust_kt == row.wind_gust_kt,
        out is Ok ==> out->Ok_0.wind_direction_deg == row.wind_direction_deg,
        out is Ok ==> out->Ok_0.wind_u_kt == row.wind_u_kt,
        out is Ok ==> out->Ok_0.wind_v_kt == row.wind_v_kt,
        out is Ok ==> out->Ok_0.precipitation_mm == row.precipitation_mm,
        out is Ok ==> out->Ok_0.pressure_hpa == row.pressure_hpa,
        out is Ok ==> out->Ok_0.sea_level_pressure_hpa == row.sea_level_pressure_hpa,
        out is Ok ==> out->Ok_0.visibility_km == row.visibility_km,
        out is Ok ==> out->Ok_0.cloud_cover_fraction == row.cloud_cover_fraction,
        out is Ok ==> {
            let o = out->Ok_0;
            &&& o.station_id@ == station_code(row.station_id@)
            &&& slug_of(o.source) == row.source@
            &&& o.source_station_id@ == row.source_station_id@
            &&& o.observed_at_utc == time_read(row.observed_at_utc@)->0.instant()
            &&& o.observed_at_local == time_read(row.observed_at_local@)->0
            &&& o.local_date == date_read(row.local_date@)->0
            &&& o.minute_of_day == row.minute_of_day
            &&& o.raw_ref@ == row.raw_ref@
            &&& o.cloud_cover_code is Some <==> row.cloud_cover_code is Some
            &&& o.cloud_cover_code is Some ==> o.cloud_cover_code->0@ == row.cloud_cover_code->0@
            &&& o.text_description is Some <==> row.text_description is Some
            &&& o.text_description is Some ==> o.text_description->0@ == row.text_description->0@
        },
{
    if out is Ok {
        let o = out->Ok_0;
        assert(o@.measured == row@.measured);
        assert(o@.measured == o.measured());
        assert(o@.cloud_cover_code == row@.cloud_cover_code);
        assert(o@.text_description == row@.text_description);
    }
}

/// The row of a summary holds each of its values under its own name.
pub proof fn law_summary_rows_hold_each_value(value: &DailySummary, row: DailySummaryRow)
    requires
        call_ensures(DailySummaryRow::from_summary, (value,), row),
    ensures
        row.high_temp_c == value.high_temp_c,
        row.low_temp_c == value.low_temp_c,
        row.mean_temp_c == value.mean_temp_c,
        row.mean_dewpoint_c == value.mean_dewpoint_c,
        row.mean_relative_humidity_pct == value.mean_relative_humidity_pct,
        row.max_wind_speed_kt == value.max_wind_speed_kt,
        row.mean_wind_u_kt == value.mean_wind_u_kt,
        row.mean_wind_v_kt == value.mean_wind_v_kt,
        row.total_precipitation_mm == value.total_precipitation_mm,
        row.mean_cloud_cover_fraction == value.mean_cloud_cover_fraction,
        row.schema_version@ == "v1"@,
        row.station_id@ == value.station_id@,
        row.local_date@ == value.local_date.text(),
        row.observation_count == value.observation_count,
        strings_read(row.source_slugs_json@) == Some(texts(value.source_slugs@)),
{
    assert(row@.values == value@.values);
}

/// A summary that is read out of a row has each of the row's values under its own name.
pub proof fn law_summaries_have_each_value_of_their_row(
    row: DailySummaryRow,
    out: Result<DailySummary, RowError>,
)
    requires
        call_ensures(DailySummaryRow::into_summary, (row,), out),
    ensures
        out is Ok <==> date_read(row.local_date@) is Some && strings_read(
            row.source_slugs_json@,
        ) is Some,
        out is Ok ==> out->Ok_0.high_temp_c == row.high_temp_c,
        out is Ok ==> out->Ok_0.low_temp_c == row.low_temp_c,
        out is Ok ==> out->Ok_0.mean_temp_c == row.mean_temp_c,
        out is Ok ==> out->Ok_0.mean_dewpoint_c == row.mean_dewpoint_c,
        out is Ok ==> out->Ok_0.mean_relative_humidity_pct == row.mean_relative_humidity_pct,
        out is Ok ==> out->Ok_0.max_wind_speed_kt == row.max_wind_speed_kt,
        out is Ok ==> out->Ok_0.mean_wind_u_kt == row.mean_wind_u_kt,
        out is Ok ==> out->Ok_0.mean_wind_v_kt == row.mean_wind_v_kt,
        out is Ok ==> out->Ok_0.total_precipitation_mm == row.total_precipitation_mm,
        out is Ok ==> out->Ok_0.mean_cloud_cover_fraction == row.mean_cloud_cover_fraction,
        out is Ok ==> {
            let day = out->Ok_0;
            &&& day.station_id@ == station_code(row.station_id@)
            &&& day.local_date == date_read(row.local_date@)->0
            &&& day.observation_count == row.observation_count as usize
            &&& texts(day.source_slugs@) == strings_read(row.source_slugs_json@)->0
        },
{
    if out is Ok {
        assert(out->Ok_0@.values == row@.values);
    }
}

/// A profile has a row for each of its hours, which holds each value of the hour under its own
/// name.
pub proof fn law_profile_rows_hold_each_value_of_their_hour(
    value: &DayProfile,
    rows: Vec<DayProfileRow>,
    i: int,
)
    requires
        call_ensures(DayProfileRow::from_profile, (value,), rows),
        0 <= i < value.hours@.len(),
    ensures
        rows@.len() == value.hours@.len(),
        rows@[i].hour == value.hours@[i].hour,
        rows@[i].sample_count == value.hours@[i].sample_count,
        rows@[i].temperature_c == value.hours@[i].temperature_c,
        rows@[i].dewpoint_c == value.hours@[i].dewpoint_c,
        rows@[i].relative_humidity_pct == value.hours@[i].relative_humidity_pct,
        rows@[i].wind_u_kt == value.hours@[i].wind_u_kt,
        rows@[i].wind_v_kt == value.hours@[i].wind_v_kt,
        rows@[i].cloud_cover_fraction == value.hours@[i].cloud_cover_fraction,
        rows@[i].precipitation_mm == value.hours@[i].precipitation_mm,
        rows@[i].station_id@ == value.station_id@,
        rows@[i].local_date@ == value.local_date.text(),
        rows@[i].observed_hour_count == value.observed_hour_count,
        strings_read(rows@[i].source_slugs_json@) == Some(texts(value.source_slugs@)),
{
    assert(value@.hours == value.hours@);
    assert(rows@[i].tells(value@, value@.hours[i]));
    assert(rows@[i].point() == value.hours@[i]);
}

/// Each hour of a profile that is read out of rows is one of the rows, of the same station and
/// date, with each of its values under its own name.
pub proof fn law_hours_have_each_value_of_their_row(
    rows: Seq<DayProfileRow>,
    profiles: Seq<DayProfile>,
    g: int,
    k: int,
)
    requires
        profiles_read(rows, profiles),
        0 <= g < profiles.len(),
        0 <= k < profiles[g].hours@.len(),
    ensures
        exists|i: int|
            {
                let hour = profiles[g].hours@[k];
                &&& 0 <= i < rows.len()
                &&& (#[trigger] rows[i]).hour == hour.hour
                &&& date_read(rows[i].local_date@) == Some(profiles[g].local_date)
                &&& station_code(rows[i].station_id@) == profiles[g].station_id@
                &&& rows[i].sample_count as usize == hour.sample_count
                &&& rows[i].temperature_c == hour.temperature_c
                &&& rows[i].dewpoint_c == hour.dewpoint_c
                &&& rows[i].relative_humidity_pct == hour.relative_humidity_pct
                &&& rows[i].wind_u_kt == hour.wind_u_kt
                &&& rows[i].wind_v_kt == hour.wind_v_kt
                &&& rows[i].cloud_cover_fraction == hour.cloud_cover_fraction
                &&& rows[i].precipitation_mm == hour.precipitation_mm
            },
        k + 1 < profiles[g].hours@.len() ==> profiles[g].hours@[k].hour
            <= profiles[g].hours@[k + 1].hour,
{
    let groups = choose|groups: Seq<Vec<usize>>| #[trigger]
        groups_rows(groups, rows) && groups.len() == profiles.len() && forall|g: int|
            0 <= g < groups.len() ==> profile_reads(
                rows,
                (#[trigger] groups[g])@,
                Ok(profiles[g]@),
            );
    let members = groups[g]@;
    assert(profile_reads(rows, groups[g]@, Ok(profiles[g]@)));
    let order = choose|order: Seq<usize>| #[trigger]
        is_stable_order(hours_in(rows, members), order) && profile_in_order(rows, members, order)
            == Ok::<crate::domain::DayProfileModel, RowError>(profiles[g]@);
    let keys = choose|keys: Seq<(Vec<char>, Vec<char>)>| #[trigger]
        crate::rows::keys_spell(keys, rows) && crate::order::is_grouping(keys, groups);
    assert(profiles[g]@.hours == profiles[g].hours@);
    assert(order[k] < members.len());
    let i = groups[g]@[order[k] as int] as int;
    assert(0 <= groups[g]@[order[k] as int] < keys.len());
    assert(rows[i].point() == profiles[g].hours@[k]);
    assert(order[0] < members.len());
    let first = groups[g]@[order[0] as int] as int;
    assert(0 <= groups[g]@[order[0] as int] < keys.len());
    assert(crate::order::ties(keys[groups[g]@[order[k] as int] as int],
        keys[groups[g]@[0] as int]));
    assert(crate::order::ties(keys[groups[g]@[order[0] as int] as int],
        keys[groups[g]@[0] as int]));
    assert(keys[i].0@ == rows[i].station_id@ && keys[i].1@ == rows[i].local_date@);
    assert(keys[first].0@ == rows[first].station_id@ && keys[first].1@ == rows[first].local_date@);
    let head = keys[groups[g]@[0] as int];
    crate::order::lemma_dictionary_ties(keys[i].0@, head.0@);
    crate::order::lemma_dictionary_ties(keys[first].0@, head.0@);
    crate::order::lemma_dictionary_ties(keys[i].1@, head.1@);
    crate::order::lemma_dictionary_ties(keys[first].1@, head.1@);
    assert(rows[i].local_date@ == rows[first].local_date@);
    if k + 1 < profiles[g].hours@.len() {
        let next = groups[g]@[order[k + 1] as int] as int;
        assert(order[k + 1] < members.len());
        assert(rows[next].point() == profiles[g].hours@[k + 1]);
        assert(crate::order::precedes(
            hours_in(rows, members),
            order[k] as int,
            order[k + 1] as int,
        ));
    }
}

} // verus!
