//! The service of the NWS: requests, and current and recent observations.
use vstd::prelude::*;
use crate::cache::{lemma_current_file, CacheLayout};
use crate::calendar::{
    date_numbered, law_stamps_tell_seconds_apart, lemma_stamp_plain, local_in_zone, stamp_of,
    time_read, zone_known, Date, LocalTime, UtcTime, Zone,
};
use crate::domain::{
    blank_observation, cloud_fraction, cloud_fraction_from_code, flag_if, observation_models,
    outcome, push_flag_if, table_outcome, Failure, FlagModel, Measured, ObservationModel,
    ObservationRecord, QualityFlag, StationId, StationRecord,
};
use crate::evaluate::{humidity, humidity_follows, wind_parts, wind_splits};
use crate::fields::opt_str;
use crate::json::{inner_text_at, inner_text_in_json};
use crate::numeral::{decimal, digits};
use crate::reading::{Arithmetic, Reading};
use crate::source::DataSource;
use crate::text::{slashless, to_chars};

verus! {

/// One period of an hourly forecast.
#[derive(Debug, Clone)]
pub struct NwsHourlyForecastPeriod {
    pub number: u32,
    pub start_time: String,
    pub end_time: String,
    pub temperature: i32,
    pub temperature_unit: String,
    pub short_forecast: String,
}

/// An observation as the service sends it: temperatures in degrees Celsius, winds in kilometres
/// per hour, pressures in pascals, the visibility in metres, rain in millimetres.
#[derive(Debug, Clone)]
pub struct NwsObservationProperties {
    pub station_id: String,
    pub timestamp: String,
    pub text_description: String,
    pub temperature: Option<Reading>,
    pub dewpoint: Option<Reading>,
    pub relative_humidity: Option<Reading>,
    pub wind_direction: Option<Reading>,
    pub wind_speed: Option<Reading>,
    pub wind_gust: Option<Reading>,
    pub barometric_pressure: Option<Reading>,
    pub sea_level_pressure: Option<Reading>,
    pub visibility: Option<Reading>,
    pub precipitation_last_3_hours: Option<Reading>,
    pub cloud_amounts: Vec<String>,
}

/// The time that a text says, on the clock of the zone, or why it says none.
pub open spec fn nws_time(text: Seq<char>, zone: Seq<char>) -> Result<LocalTime, Seq<char>> {
    match time_read(text) {
        None => Err("failed to parse NWS observation timestamp"@),
        Some(time) => match local_in_zone(zone, time.instant()) {
            None => Err("NWS observation timestamp is out of range in station timezone"@),
            Some(local) => Ok(local),
        },
    }
}

/// A value in knots, of one in kilometres per hour.
pub open spec fn knots<A: Arithmetic>(a: &A, from: Option<Reading>, to: Option<Reading>) -> bool {
    match (from, to) {
        (Some(k), Some(n)) => call_ensures(A::kmh_to_knots, (a, k), n),
        (None, None) => true,
        _ => false,
    }
}

/// A value in hectopascals, of one in pascals.
pub open spec fn hectopascals_of_pascals<A: Arithmetic>(
    a: &A,
    from: Option<Reading>,
    to: Option<Reading>,
) -> bool {
    match (from, to) {
        (Some(p), Some(h)) => call_ensures(A::pa_to_hpa, (a, p), h),
        (None, None) => true,
        _ => false,
    }
}

/// A value in kilometres, of one in metres.
pub open spec fn kilometres_of_metres<A: Arithmetic>(
    a: &A,
    from: Option<Reading>,
    to: Option<Reading>,
) -> bool {
    match (from, to) {
        (Some(m), Some(k)) => call_ensures(A::meters_to_km, (a, m), k),
        (None, None) => true,
        _ => false,
    }
}

fn to_knots<A: Arithmetic>(a: &A, from: Option<Reading>) -> (r: Option<Reading>)
    ensures
        knots(a, from, r),
{
    match from {
        Some(value) => Some(a.kmh_to_knots(value)),
        None => None,
    }
}

fn pascals_to_hectopascals<A: Arithmetic>(a: &A, from: Option<Reading>) -> (r: Option<Reading>)
    ensures
        hectopascals_of_pascals(a, from, r),
{
    match from {
        Some(value) => Some(a.pa_to_hpa(value)),
        None => None,
    }
}

fn metres_to_kilometres<A: Arithmetic>(a: &A, from: Option<Reading>) -> (r: Option<Reading>)
    ensures
        kilometres_of_metres(a, from, r),
{
    match from {
        Some(value) => Some(a.meters_to_km(value)),
        None => None,
    }
}

/// The cloud code of an observation: the amount of its first layer.
pub open spec fn first_amount(properties: NwsObservationProperties) -> Option<Seq<char>> {
    if properties.cloud_amounts@.len() > 0 {
        Some(properties.cloud_amounts@[0]@)
    } else {
        None
    }
}

/// The values of an observation, in the units that are kept; the humidity follows from the
/// temperatures where it is not given.
pub open spec fn nws_measures<A: Arithmetic>(
    a: &A,
    properties: NwsObservationProperties,
    measured: Measured,
) -> bool {
    &&& measured.temperature_c == properties.temperature
    &&& measured.dewpoint_c == properties.dewpoint
    &&& match properties.relative_humidity {
        Some(humidity) => measured.relative_humidity_pct == Some(humidity),
        None => humidity_follows(
            a,
            properties.temperature,
            properties.dewpoint,
            measured.relative_humidity_pct,
        ),
    }
    &&& measured.wind_direction_deg == properties.wind_direction
    &&& knots(a, properties.wind_speed, measured.wind_speed_kt)
    &&& knots(a, properties.wind_gust, measured.wind_gust_kt)
    &&& hectopascals_of_pascals(a, properties.barometric_pressure, measured.pressure_hpa)
    &&& hectopascals_of_pascals(
        a,
        properties.sea_level_pressure,
        measured.sea_level_pressure_hpa,
    )
    &&& kilometres_of_metres(a, properties.visibility, measured.visibility_km)
    &&& measured.precipitation_mm == properties.precipitation_last_3_hours
    &&& measured.cloud_cover_fraction == (match first_amount(properties) {
        Some(code) => cloud_fraction(code),
        None => None,
    })
    &&& wind_splits(
        a,
        measured.wind_direction_deg,
        measured.wind_speed_kt,
        measured.wind_u_kt,
        measured.wind_v_kt,
    )
}

/// The flags of an observation with these values.
pub open spec fn nws_flags(properties: NwsObservationProperties, measured: Measured) -> Seq<
    FlagModel,
> {
    flag_if(first_amount(properties) is None, FlagModel::MissingCloudCover) + flag_if(
        properties.relative_humidity is None && measured.relative_humidity_pct is Some,
        FlagModel::DerivedRelativeHumidity,
    )
}

/// The observation with these properties.
pub open spec fn nws_makes<A: Arithmetic>(
    a: &A,
    properties: NwsObservationProperties,
    blank: ObservationModel,
    observation: ObservationModel,
) -> bool {
    &&& nws_measures(a, properties, observation.measured)
    &&& observation == ObservationModel {
        measured: observation.measured,
        cloud_cover_code: first_amount(properties),
        text_description: Some(properties.text_description@),
        flags: nws_flags(properties, observation.measured),
        ..blank
    }
}

/// The properties make this observation, or fail so.
pub open spec fn nws_means<A: Arithmetic>(
    a: &A,
    properties: NwsObservationProperties,
    station: Seq<char>,
    zone: Seq<char>,
    raw_ref: Seq<char>,
    out: Result<ObservationModel, Seq<char>>,
) -> bool {
    match nws_time(properties.timestamp@, zone) {
        Err(message) => out == Err::<ObservationModel, Seq<char>>(message),
        Ok(local) => out matches Ok(observation) && nws_makes(
            a,
            properties,
            blank_observation(
                station,
                DataSource::NwsApi,
                properties.station_id@,
                local,
                raw_ref,
            ),
            observation,
        ),
    }
}

/// The observation with these properties, on the clock of the zone.
pub fn nws_observation_from_properties<A: Arithmetic>(
    a: &A,
    properties: &NwsObservationProperties,
    station: &StationId,
    zone: &Zone,
    raw_ref: &str,
) -> (r: Result<ObservationRecord, Failure>)
    ensures
        nws_means(a, *properties, station@, zone.called(), raw_ref@, outcome(r)),
{
    let utc = match LocalTime::parse_rfc3339(&properties.timestamp) {
        Some(time) => time.utc(),
        None => {
            return Err(Failure::new("failed to parse NWS observation timestamp"));
        },
    };
    let local = match zone.local(utc) {
        Some(local) => local,
        None => {
            return Err(
                Failure::new("NWS observation timestamp is out of range in station timezone"),
            );
        },
    };
    let mut next = ObservationRecord::from_parts(
        station.clone(),
        DataSource::NwsApi,
        properties.station_id.clone(),
        local,
        raw_ref.to_string(),
    );
    next.temperature_c = properties.temperature;
    next.dewpoint_c = properties.dewpoint;
    next.relative_humidity_pct =
    match properties.relative_humidity {
        Some(given) => Some(given),
        None => humidity(a, properties.temperature, properties.dewpoint),
    };
    next.wind_direction_deg = properties.wind_direction;
    next.wind_speed_kt = to_knots(a, properties.wind_speed);
    next.wind_gust_kt = to_knots(a, properties.wind_gust);
    next.pressure_hpa = pascals_to_hectopascals(a, properties.barometric_pressure);
    next.sea_level_pressure_hpa = pascals_to_hectopascals(a, properties.sea_level_pressure);
    next.visibility_km = metres_to_kilometres(a, properties.visibility);
    next.precipitation_mm = properties.precipitation_last_3_hours;
    next.text_description = Some(properties.text_description.clone());
    let mut flags: Vec<QualityFlag> = Vec::new();
    push_flag_if(
        &mut flags,
        properties.cloud_amounts.len() == 0,
        QualityFlag::MissingCloudCover,
    );
    push_flag_if(
        &mut flags,
        properties.relative_humidity.is_none() && next.relative_humidity_pct.is_some(),
        QualityFlag::DerivedRelativeHumidity,
    );
    next.quality_flags = flags;
    if properties.cloud_amounts.len() > 0 {
        next.cloud_cover_fraction = cloud_fraction_from_code(&properties.cloud_amounts[0]);
        next.cloud_cover_code = Some(properties.cloud_amounts[0].clone());
    }
    let (u, v) = wind_parts(a, next.wind_direction_deg, next.wind_speed_kt);
    next.wind_u_kt = u;
    next.wind_v_kt = v;
    assert(next@.flags =~= nws_flags(*properties, next@.measured));
    Ok(next)
}

/// One item of a list of observations.
#[derive(Debug, Clone)]
pub enum NwsFeature {
    Observed(NwsObservationProperties),
    /// The item has no properties.
    Missing,
    /// The item has properties of another form.
    Unreadable,
}

/// An item makes this observation, or fails so.
pub open spec fn feature_means<A: Arithmetic>(
    a: &A,
    feature: NwsFeature,
    station: Seq<char>,
    zone: Seq<char>,
    raw_ref: Seq<char>,
    out: Result<ObservationModel, Seq<char>>,
) -> bool {
    match feature {
        NwsFeature::Observed(properties) => nws_means(a, properties, station, zone, raw_ref, out),
        NwsFeature::Missing => out == Err::<ObservationModel, Seq<char>>(
            "NWS observation feature missing properties"@,
        ),
        NwsFeature::Unreadable => out == Err::<ObservationModel, Seq<char>>(
            "failed to parse NWS observation properties"@,
        ),
    }
}

pub open spec fn feature_is_read<A: Arithmetic>(
    a: &A,
    feature: NwsFeature,
    station: Seq<char>,
    zone: Seq<char>,
    raw_ref: Seq<char>,
) -> bool {
    exists|observation: ObservationModel| #[trigger]
        feature_means(a, feature, station, zone, raw_ref, Ok(observation))
}

/// The items, each in turn, make these observations, or the first that fails fails so.
pub open spec fn features_mean<A: Arithmetic>(
    a: &A,
    features: Seq<NwsFeature>,
    station: Seq<char>,
    zone: Seq<char>,
    raw_ref: Seq<char>,
    out: Result<Seq<ObservationModel>, Seq<char>>,
) -> bool {
    match out {
        Ok(observations) => observations.len() == features.len() && forall|i: int|
            0 <= i < features.len() ==> feature_means(
                a,
                features[i],
                station,
                zone,
                raw_ref,
                Ok(#[trigger] observations[i]),
            ),
        Err(message) => features_fail(a, features, station, zone, raw_ref, message),
    }
}

pub open spec fn features_fail<A: Arithmetic>(
    a: &A,
    features: Seq<NwsFeature>,
    station: Seq<char>,
    zone: Seq<char>,
    raw_ref: Seq<char>,
    message: Seq<char>,
) -> bool {
    exists|i: int|
        {
            &&& 0 <= i < features.len()
            &&& feature_means(a, #[trigger] features[i], station, zone, raw_ref, Err(message))
            &&& forall|j: int|
                0 <= j < i ==> feature_is_read(a, #[trigger] features[j], station, zone, raw_ref)
        }
}

/// The observations of a list.
pub fn normalize_nws<A: Arithmetic>(
    a: &A,
    features: &Vec<NwsFeature>,
    station: &StationRecord,
    raw_ref: &str,
) -> (r: Result<Vec<ObservationRecord>, Failure>)
    ensures
        if zone_known(station.timezone@) {
            features_mean(
                a,
                features@,
                station.station_id@,
                station.timezone@,
                raw_ref@,
                table_outcome(r),
            )
        } else {
            table_outcome(r) == Err::<Seq<ObservationModel>, Seq<char>>(
                "unsupported timezone "@ + station.timezone@,
            )
        },
{
    let zone = match Zone::parse(&station.timezone) {
        Some(zone) => zone,
        None => {
            return Err(Failure::about("unsupported timezone ", &to_chars(&station.timezone)));
        },
    };
    let ghost code = station.station_id@;
    let ghost place = station.timezone@;
    let mut observations: Vec<ObservationRecord> = Vec::new();
    let mut i: usize = 0;
    while i < features.len()
        invariant
            i <= features@.len(),
            zone_known(place),
            zone.called() == place,
            place == station.timezone@,
            code == station.station_id@,
            observations@.len() == i,
            forall|k: int|
                0 <= k < i ==> feature_means(
                    a,
                    features@[k],
                    code,
                    place,
                    raw_ref@,
                    Ok((#[trigger] observations@[k])@),
                ),
        decreases features@.len() - i,
    {
        let result = match &features[i] {
            NwsFeature::Observed(properties) => nws_observation_from_properties(
                a,
                properties,
                &station.station_id,
                &zone,
                raw_ref,
            ),
            NwsFeature::Missing => Err(Failure::new("NWS observation feature missing properties")),
            NwsFeature::Unreadable => Err(
                Failure::new("failed to parse NWS observation properties"),
            ),
        };
        assert(feature_means(a, features@[i as int], code, place, raw_ref@, outcome(result)));
        match result {
            Ok(observation) => {
                observations.push(observation);
            },
            Err(failure) => {
                proof {
                    assert forall|j: int| 0 <= j < i implies feature_is_read(
                        a,
                        #[trigger] features@[j],
                        code,
                        place,
                        raw_ref@,
                    ) by {
                        assert(feature_means(
                            a,
                            features@[j],
                            code,
                            place,
                            raw_ref@,
                            Ok(observations@[j]@),
                        ));
                    }
                    assert(features_fail(
                        a,
                        features@,
                        code,
                        place,
                        raw_ref@,
                        failure.message@,
                    ));
                }
                return Err(failure);
            },
        }
        i += 1;
    }
    proof {
        let models = observation_models(observations@);
        assert(features_mean(a, features@, code, place, raw_ref@, Ok(models)));
    }
    Ok(observations)
}

/// The date and the file name of an observation with this time, or why there are none.
pub open spec fn latest_name(timestamp: Option<Seq<char>>) -> Result<(Date, Seq<char>), Seq<char>> {
    match timestamp {
        None => Err("NWS latest observation payload missing properties.timestamp"@),
        Some(text) => match time_read(text) {
            None => Err("failed to parse NWS latest observation timestamp"@),
            Some(time) => {
                let utc = time.instant();
                Ok((date_numbered(utc.s() / 86400), "obs-"@ + stamp_of(utc)))
            },
        },
    }
}

/// The date and the file name under which the latest observation is kept.
pub fn latest_observation_name(timestamp: Option<&str>) -> (r: Result<(Date, String), Failure>)
    ensures
        latest_name(opt_str(timestamp)) == (match r {
            Ok((date, name)) => Ok::<(Date, Seq<char>), Seq<char>>((date, name@)),
            Err(failure) => Err(failure.message@),
        }),
{
    let text = match timestamp {
        Some(text) => text,
        None => {
            return Err(
                Failure::new("NWS latest observation payload missing properties.timestamp"),
            );
        },
    };
    match LocalTime::parse_rfc3339(text) {
        Some(time) => {
            let utc = time.utc();
            let mut name: String = "obs-".to_string();
            name.append(&utc.to_stamp());
            Ok((utc.date(), name))
        },
        None => Err(Failure::new("failed to parse NWS latest observation timestamp")),
    }
}

/// The time that the service sent with an observation: the string at `timestamp` of its
/// `properties`.
pub open spec fn stamp_sent(body: Seq<char>) -> Option<Option<Seq<char>>> {
    inner_text_in_json(body, "properties"@, "timestamp"@)
}

/// The date and the file name under which what the service sent as the latest observation is kept,
/// or why there are none.
pub open spec fn latest_place(body: Seq<char>) -> Result<(Date, Seq<char>), Seq<char>> {
    match stamp_sent(body) {
        None => Err("failed to parse NWS latest observation JSON"@),
        Some(stamp) => latest_name(stamp),
    }
}

/// The date and the file name under which what the service sent as the latest observation is kept.
pub fn latest_observation_place(body: &str) -> (r: Result<(Date, String), Failure>)
    ensures
        (match r {
            Ok((date, name)) => Ok::<(Date, Seq<char>), Seq<char>>((date, name@)),
            Err(failure) => Err(failure.message@),
        }) == latest_place(body@),
{
    match inner_text_at(body, "properties", "timestamp") {
        None => Err(Failure::new("failed to parse NWS latest observation JSON")),
        Some(Some(text)) => latest_observation_name(Some(text.as_str())),
        Some(None) => latest_observation_name(None),
    }
}

/// Two snapshots of a station whose times differ by a second or more are kept in different files.
pub proof fn law_snapshots_are_kept_apart(
    layout: CacheLayout,
    station: Seq<char>,
    one: Seq<char>,
    first: LocalTime,
    other: Seq<char>,
    second: LocalTime,
)
    requires
        first.valid(),
        second.valid(),
        stamp_sent(one) matches Some(Some(text)) && time_read(text) == Some(first),
        stamp_sent(other) matches Some(Some(text)) && time_read(text) == Some(second),
        first.instant().s() != second.instant().s(),
    ensures
        latest_place(one) is Ok,
        latest_place(other) is Ok,
        layout.current_file(
            DataSource::NwsApi,
            station,
            (latest_place(one)->Ok_0).0,
            (latest_place(one)->Ok_0).1,
            "json"@,
        ) != layout.current_file(
            DataSource::NwsApi,
            station,
            (latest_place(other)->Ok_0).0,
            (latest_place(other)->Ok_0).1,
            "json"@,
        ),
{
    let (date, name) = latest_place(one)->Ok_0;
    let (day, title) = latest_place(other)->Ok_0;
    lemma_snapshot_name(first.instant());
    lemma_snapshot_name(second.instant());
    if name == title {
        assert(stamp_of(first.instant()) == stamp_of(second.instant()));
        law_stamps_tell_seconds_apart(first.instant(), second.instant());
    }
    lemma_named_apart(layout, station, date, name, day, title);
}

/// The name of a snapshot holds no slash, and its stamp stands behind its first four characters.
proof fn lemma_snapshot_name(time: UtcTime)
    requires
        time.valid(),
    ensures
        slashless("obs-"@ + stamp_of(time)),
        ("obs-"@ + stamp_of(time)).skip(4) == stamp_of(time),
{
    lemma_stamp_plain(time);
    reveal_strlit("obs-");
    assert(("obs-"@ + stamp_of(time)).skip(4) =~= stamp_of(time));
}

/// Snapshots with different names are kept in different files.
proof fn lemma_named_apart(
    layout: CacheLayout,
    station: Seq<char>,
    date: Date,
    name: Seq<char>,
    day: Date,
    title: Seq<char>,
)
    requires
        slashless(name),
        slashless(title),
        name != title,
    ensures
        layout.current_file(DataSource::NwsApi, station, date, name, "json"@)
            != layout.current_file(DataSource::NwsApi, station, day, title, "json"@),
{
    assert(slashless("json"@)) by {
        reveal_strlit("json");
    }
    lemma_current_file(layout, DataSource::NwsApi, station, date, name, "json"@);
    lemma_current_file(layout, DataSource::NwsApi, station, day, title, "json"@);
    lemma_same_front(name, title, "."@ + "json"@);
    assert(name + "."@ + "json"@ =~= name + ("."@ + "json"@));
    assert(title + "."@ + "json"@ =~= title + ("."@ + "json"@));
}

proof fn lemma_same_front(name: Seq<char>, title: Seq<char>, end: Seq<char>)
    ensures
        name + end == title + end ==> name == title,
{
    if name + end == title + end {
        assert((name + end).len() == (title + end).len());
        assert(name =~= (name + end).take(name.len() as int));
        assert(title =~= (title + end).take(title.len() as int));
    }
}

/// The address of what the service says of a station.
pub fn station_url(station_id: &StationId) -> (r: String)
    ensures
        r@ == "https://api.weather.gov/stations/"@ + station_id@,
{
    let mut url: String = "https://api.weather.gov/stations/".to_string();
    url.append(station_id.as_nws_id());
    url
}

/// The address of the latest observation of a station.
pub fn latest_url(station_id: &StationId) -> (r: String)
    ensures
        r@ == "https://api.weather.gov/stations/"@ + station_id@ + "/observations/latest"@,
{
    let mut url = station_url(station_id);
    url.append("/observations/latest");
    url
}

/// The address of the last observations of a station, at most `limit` of them.
pub fn observations_url(station_id: &StationId, limit: usize) -> (r: String)
    ensures
        r@ == "https://api.weather.gov/stations/"@ + station_id@ + "/observations?limit="@ + digits(
            limit as nat,
        ),
{
    let mut url = station_url(station_id);
    url.append("/observations?limit=");
    url.append(&decimal(limit as u128));
    url
}

/// The address of what the service says of a place, whose latitude and longitude are written with
/// four decimals.
pub fn points_url(latitude: &str, longitude: &str) -> (r: String)
    ensures
        r@ == "https://api.weather.gov/points/"@ + latitude@ + ","@ + longitude@,
{
    let mut url: String = "https://api.weather.gov/points/".to_string();
    url.append(latitude);
    url.append(",");
    url.append(longitude);
    url
}

} // verus!
