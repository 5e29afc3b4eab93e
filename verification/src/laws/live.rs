//! Observations of the live service: each value is that of its property, in the unit that is kept.
use vstd::prelude::*;
use crate::calendar::{date_numbered, law_zones_keep_the_instant, stamp_of, time_read, Date};
use crate::domain::{cloud_fraction, Failure, FlagModel, ObservationRecord, StationId};
use crate::json::inner_text_in_json;
use crate::numeral::digits;
use crate::nws::{
    features_mean, latest_name, latest_observation_place, latest_url, nws_means, nws_time, observations_url, points_url,
    station_url, NwsFeature, NwsObservationProperties,
};
use crate::reading::{Arithmetic, Reading};
use crate::source::DataSource;

verus! {

/// What the conversion makes of the value, and none where there is no value.
pub open spec fn is_made_of(
    conversion: spec_fn(Reading, Reading) -> bool,
    from: Option<Reading>,
    to: Option<Reading>,
) -> bool {
    &&& to is Some <==> from is Some
    &&& to is Some ==> conversion(from->0, to->0)
}

/// An observation of the service: temperature, dew point, wind direction and rain as they were
/// sent, winds in knots, pressures in hectopascals and the visibility in kilometres. The humidity
/// is as it was sent, or else follows from the two temperatures.
pub proof fn law_live_values_are_those_of_their_properties<A: Arithmetic>(
    a: &A,
    properties: NwsObservationProperties,
    station: Seq<char>,
    zone: Seq<char>,
    raw_ref: Seq<char>,
    o: ObservationRecord,
)
    requires
        nws_means(a, properties, station, zone, raw_ref, Ok(o@)),
    ensures
        o.temperature_c == properties.temperature,
        o.dewpoint_c == properties.dewpoint,
        o.wind_direction_deg == properties.wind_direction,
        o.precipitation_mm == properties.precipitation_last_3_hours,
        is_made_of(
            |x: Reading, y: Reading| call_ensures(A::kmh_to_knots, (a, x), y),
            properties.wind_speed,
            o.wind_speed_kt,
        ),
        is_made_of(
            |x: Reading, y: Reading| call_ensures(A::kmh_to_knots, (a, x), y),
            properties.wind_gust,
            o.wind_gust_kt,
        ),
        is_made_of(
            |x: Reading, y: Reading| call_ensures(A::pa_to_hpa, (a, x), y),
            properties.barometric_pressure,
            o.pressure_hpa,
        ),
        is_made_of(
            |x: Reading, y: Reading| call_ensures(A::pa_to_hpa, (a, x), y),
            properties.sea_level_pressure,
            o.sea_level_pressure_hpa,
        ),
        is_made_of(
            |x: Reading, y: Reading| call_ensures(A::meters_to_km, (a, x), y),
            properties.visibility,
            o.visibility_km,
        ),
        properties.relative_humidity is Some ==> o.relative_humidity_pct
            == properties.relative_humidity,
        properties.relative_humidity is None ==> {
            &&& o.relative_humidity_pct is Some <==> o.temperature_c is Some && o.dewpoint_c is Some
            &&& o.relative_humidity_pct is Some ==> call_ensures(
                A::relative_humidity_from_celsius,
                (a, o.temperature_c->0, o.dewpoint_c->0),
                o.relative_humidity_pct->0,
            )
        },
        o.wind_u_kt is Some <==> o.wind_direction_deg is Some && o.wind_speed_kt is Some,
        o.wind_v_kt is Some <==> o.wind_direction_deg is Some && o.wind_speed_kt is Some,
        o.wind_u_kt is Some ==> call_ensures(
            A::wind_components_knots,
            (a, o.wind_direction_deg->0, o.wind_speed_kt->0),
            (o.wind_u_kt->0, o.wind_v_kt->0),
        ),
        properties.cloud_amounts@.len() == 0 ==> o.cloud_cover_code is None
            && o.cloud_cover_fraction is None,
        properties.cloud_amounts@.len() > 0 ==> o.cloud_cover_code is Some
            && o.cloud_cover_code->0@ == properties.cloud_amounts@[0]@ && o.cloud_cover_fraction
            == cloud_fraction(properties.cloud_amounts@[0]@),
{
    let local = nws_time(properties.timestamp@, zone)->Ok_0;
    assert(o@.measured == o.measured());
}

/// An observation of the service has the instant and the texts that were sent, and says of itself
/// where its clouds are missing and where its humidity was derived.
pub proof fn law_live_observations_say_when_and_where<A: Arithmetic>(
    a: &A,
    properties: NwsObservationProperties,
    station: Seq<char>,
    zone: Seq<char>,
    raw_ref: Seq<char>,
    o: ObservationRecord,
)
    requires
        nws_means(a, properties, station, zone, raw_ref, Ok(o@)),
    ensures
        o.source == DataSource::NwsApi,
        o.station_id@ == station,
        o.source_station_id@ == properties.station_id@,
        o.raw_ref@ == raw_ref,
        o.text_description is Some,
        o.text_description->0@ == properties.text_description@,
        time_read(properties.timestamp@) is Some,
        o.observed_at_utc == time_read(properties.timestamp@)->0.instant(),
        o.observed_at_local.instant() == o.observed_at_utc,
        o.local_date == date_numbered(o.observed_at_local.clock() / 86400),
        o.minute_of_day == o.observed_at_local.clock() % 86400 / 60,
        o@.flags.contains(FlagModel::MissingCloudCover) <==> o.cloud_cover_code is None,
        o@.flags.contains(FlagModel::DerivedRelativeHumidity)
            <==> properties.relative_humidity is None && o.relative_humidity_pct is Some,
{
    let time = time_read(properties.timestamp@)->0;
    law_zones_keep_the_instant(zone, time.instant());
    assert(o@.local == o.observed_at_local && o@.utc == o.observed_at_utc);
    assert(o@.measured == o.measured());
    let flags = crate::nws::nws_flags(properties, o@.measured);
    if o.cloud_cover_code is None {
        assert(flags[0] == FlagModel::MissingCloudCover);
    }
    if properties.relative_humidity is None && o.relative_humidity_pct is Some {
        assert(flags.last() == FlagModel::DerivedRelativeHumidity);
    }
}

/// The observations of a list are those of its items, one for each, in their order; a list with an
/// item that has no properties, or properties of another form, is refused.
pub proof fn law_live_lists_are_read_item_by_item<A: Arithmetic>(
    a: &A,
    features: Vec<NwsFeature>,
    station: Seq<char>,
    zone: Seq<char>,
    raw_ref: Seq<char>,
    observations: Seq<ObservationRecord>,
    k: int,
)
    requires
        features_mean(
            a,
            features@,
            station,
            zone,
            raw_ref,
            Ok(crate::domain::observation_models(observations)),
        ),
        0 <= k < features@.len(),
    ensures
        observations.len() == features@.len(),
        features@[k] is Observed,
        nws_means(a, features@[k]->Observed_0, station, zone, raw_ref, Ok(observations[k]@)),
{
    let models = crate::domain::observation_models(observations);
    assert(models.len() == observations.len());
    assert(models[k] == observations[k]@);
    assert(crate::nws::feature_means(a, features@[k], station, zone, raw_ref, Ok(models[k])));
}

/// The latest observation is kept under the date of its instant in UTC, and under a name that says
/// the instant.
pub proof fn law_latest_observations_are_named_by_their_instant(text: Seq<char>)
    requires
        time_read(text) is Some,
    ensures
        latest_name(Some(text)) is Ok,
        (latest_name(Some(text))->Ok_0).0
            == date_numbered(time_read(text)->0.instant().s() / 86400),
        (latest_name(Some(text))->Ok_0).1 == "obs-"@ + stamp_of(time_read(text)->0.instant()),
{
}

/// What the service sent as the latest observation is kept where it says a time in its properties,
/// under the date and the name of that instant, and is refused where it says none.
pub proof fn law_latest_observations_are_kept_where_they_say_a_time(
    body: &str,
    out: Result<(Date, String), Failure>,
)
    requires
        call_ensures(latest_observation_place, (body,), out),
    ensures
        ({
            let sent = inner_text_in_json(body@, "properties"@, "timestamp"@);
            &&& out is Ok <==> sent is Some && sent->0 is Some && time_read(sent->0->0) is Some
            &&& out is Ok ==> {
                let utc = time_read(sent->0->0)->0.instant();
                &&& (out->Ok_0).0 == date_numbered(utc.s() / 86400)
                &&& (out->Ok_0).1@ == "obs-"@ + stamp_of(utc)
            }
        }),
{
}

/// The address of a place has its latitude first, then its longitude.
pub proof fn law_places_are_asked_for_by_latitude_then_longitude(
    latitude: &str,
    longitude: &str,
    url: String,
)
    requires
        call_ensures(points_url, (latitude, longitude), url),
    ensures
        url@ == "https://api.weather.gov/points/"@ + latitude@ + ","@ + longitude@,
{
}

/// The addresses of a station start with the address of what the service says of it.
pub proof fn law_live_addresses_are_below_the_station(
    station: &StationId,
    limit: usize,
    base: String,
    latest: String,
    last: String,
)
    requires
        call_ensures(station_url, (station,), base),
        call_ensures(latest_url, (station,), latest),
        call_ensures(observations_url, (station, limit), last),
    ensures
        base@ == "https://api.weather.gov/stations/"@ + station@,
        latest@ == base@ + "/observations/latest"@,
        last@ == base@ + "/observations?limit="@ + digits(limit as nat),
{
}

} // verus!
