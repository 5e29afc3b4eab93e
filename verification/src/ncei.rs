//! The five-minute ASOS archive of NCEI: lines of a station, a time and METAR tokens.
use vstd::prelude::*;
use crate::calendar::{
    civil_read, parse_civil, resolved_in_zone, two_digits, zone_known, Date, LocalTime, Zone,
};
use crate::domain::{
    blank_observation, cloud_fraction, cloud_fraction_of, flag_if, iem_code, kept, lemma_kept_push,
    maybe_outcome, observation_models, push_flag_if, Failure, FlagModel, Measured, ObservationModel,
    ObservationRecord, QualityFlag, StationId, StationRecord,
};
use crate::evaluate::{humidity, humidity_follows, wind_parts, wind_splits};
use crate::metar::{
    first_sky_code, kind_of, parse_altimeter_token, parse_metar_wind_token, parse_ncei_precip_token,
    parse_temp_dew_token, parse_visibility_token, pressure_means, rain_means, sky_fraction,
    temperatures_mean, token_kind, visibility_means, wind_means, TokenKind,
};
use crate::numeral::{decimal, int_text, pad_zeros, signed_decimal};
use crate::reading::{Arithmetic, Reading};
use crate::source::DataSource;
use crate::text::{
    byte_count, byte_len, head, leading, lines, split_lines, split_words, to_chars, to_text,
    views, words,
};

verus! {

/// What a token says.
#[derive(Debug, Clone, Copy, PartialEq, Eq, Structural)]
pub enum TokenValue {
    Wind(Option<Reading>, Option<Reading>, Option<Reading>),
    Rain(Option<Reading>),
    Visibility(Option<Reading>),
    Pressure(Option<Reading>),
    Temperature(Option<Reading>, Option<Reading>),
    Sky,
}

/// The token says this; none where it is a broken wind token.
pub open spec fn token_means<A: Arithmetic>(
    a: &A,
    token: Seq<char>,
    value: Option<TokenValue>,
) -> bool {
    match kind_of(token) {
        TokenKind::Wind => match value {
            Some(TokenValue::Wind(d, s, g)) => wind_means(a, token, Some((d, s, g))),
            Some(_) => false,
            None => wind_means(a, token, None),
        },
        TokenKind::Rain => value matches Some(TokenValue::Rain(v)) && rain_means(a, token, v),
        TokenKind::Visibility => value matches Some(TokenValue::Visibility(v)) && visibility_means(
            a,
            token,
            v,
        ),
        TokenKind::Pressure => value matches Some(TokenValue::Pressure(v)) && pressure_means(
            a,
            token,
            v,
        ),
        TokenKind::Temperature => value matches Some(TokenValue::Temperature(t, d))
            && temperatures_mean(a, token, Some((t, d))),
        TokenKind::Sky => value == Some(TokenValue::Sky),
    }
}

/// What the token says; none where it is a broken wind token.
pub fn evaluate_token<A: Arithmetic>(a: &A, token: &[char]) -> (r: Option<TokenValue>)
    ensures
        token_means(a, token@, r),
{
    match token_kind(token) {
        TokenKind::Wind => match parse_metar_wind_token(a, token) {
            Some((d, s, g)) => Some(TokenValue::Wind(d, s, g)),
            None => None,
        },
        TokenKind::Rain => Some(TokenValue::Rain(parse_ncei_precip_token(a, token))),
        TokenKind::Visibility => Some(TokenValue::Visibility(parse_visibility_token(a, token))),
        TokenKind::Pressure => Some(TokenValue::Pressure(parse_altimeter_token(a, token))),
        TokenKind::Temperature => {
            let r = parse_temp_dew_token(a, token);
            proof {
                crate::text::lemma_position(token@, '/');
                let i = choose|i: int| 0 <= i < token@.len() && token@[i] == '/';
                assert(token@[i] == '/');
            }
            match r {
                Some((t, d)) => Some(TokenValue::Temperature(t, d)),
                None => None,
            }
        },
        TokenKind::Sky => Some(TokenValue::Sky),
    }
}

/// An observation after one more token. A wind, rain, visibility or pressure token sets its
/// values; the first temperature stands, as does the first cloud code, and of the cloud codes the
/// largest share of the sky.
pub open spec fn with_token(
    observation: ObservationModel,
    token: Seq<char>,
    value: TokenValue,
) -> ObservationModel {
    let measured = observation.measured;
    match value {
        TokenValue::Wind(d, s, g) => ObservationModel {
            measured: Measured {
                wind_direction_deg: d,
                wind_speed_kt: s,
                wind_gust_kt: g,
                ..measured
            },
            ..observation
        },
        TokenValue::Rain(v) => ObservationModel {
            measured: Measured { precipitation_mm: v, ..measured },
            ..observation
        },
        TokenValue::Visibility(v) => ObservationModel {
            measured: Measured { visibility_km: v, ..measured },
            ..observation
        },
        TokenValue::Pressure(v) => ObservationModel {
            measured: Measured { pressure_hpa: v, ..measured },
            ..observation
        },
        TokenValue::Temperature(t, d) => if measured.temperature_c is None {
            ObservationModel {
                measured: Measured { temperature_c: t, dewpoint_c: d, ..measured },
                ..observation
            }
        } else {
            observation
        },
        TokenValue::Sky => if observation.cloud_cover_code is None {
            match first_sky_code(token) {
                Some(code) => ObservationModel {
                    cloud_cover_code: Some(code),
                    measured: Measured { cloud_cover_fraction: cloud_fraction(code), ..measured },
                    ..observation
                },
                None => observation,
            }
        } else {
            match sky_fraction(token) {
                Some(fraction) => ObservationModel {
                    measured: Measured {
                        cloud_cover_fraction: Some(
                            match measured.cloud_cover_fraction {
                                Some(current) => current.larger(fraction),
                                None => fraction,
                            },
                        ),
                        ..measured
                    },
                    ..observation
                },
                None => observation,
            }
        },
    }
}

/// The observation after one more token.
pub fn apply_token(observation: ObservationRecord, token: &[char], value: TokenValue) -> (r:
    ObservationRecord)
    ensures
        r@ == with_token(observation@, token@, value),
{
    let mut next = observation;
    match value {
        TokenValue::Wind(d, s, g) => {
            next.wind_direction_deg = d;
            next.wind_speed_kt = s;
            next.wind_gust_kt = g;
        },
        TokenValue::Rain(v) => {
            next.precipitation_mm = v;
        },
        TokenValue::Visibility(v) => {
            next.visibility_km = v;
        },
        TokenValue::Pressure(v) => {
            next.pressure_hpa = v;
        },
        TokenValue::Temperature(t, d) => {
            if next.temperature_c.is_none() {
                next.temperature_c = t;
                next.dewpoint_c = d;
            }
        },
        TokenValue::Sky => {
            if next.cloud_cover_code.is_none() {
                if let Some(code) = head(token, 3) {
                    if cloud_fraction_of(token).is_some() || cloud_fraction_of(code).is_some() {
                        next.cloud_cover_code = Some(to_text(code));
                        next.cloud_cover_fraction = cloud_fraction_of(code);
                    }
                }
            } else if let Some(code) = head(token, 3) {
                if let Some(fraction) = cloud_fraction_of(code) {
                    let largest = match next.cloud_cover_fraction {
                        Some(current) => current.max(fraction),
                        None => fraction,
                    };
                    next.cloud_cover_fraction = Some(largest);
                }
            }
        },
    }
    next
}

/// The observation after the first `n` tokens.
pub open spec fn with_tokens(
    observation: ObservationModel,
    tokens: Seq<Seq<char>>,
    values: Seq<TokenValue>,
    n: nat,
) -> ObservationModel
    decreases n,
{
    if n == 0 {
        observation
    } else {
        with_token(
            with_tokens(observation, tokens, values, (n - 1) as nat),
            tokens[n - 1],
            values[n - 1],
        )
    }
}

/// The flags of a complete observation.
pub open spec fn ncei_flags(observation: ObservationModel, derived: bool) -> Seq<FlagModel> {
    observation.flags + flag_if(derived, FlagModel::DerivedRelativeHumidity) + flag_if(
        observation.measured.precipitation_mm is None,
        FlagModel::SourceFieldMissing("precip-token"@),
    ) + flag_if(
        observation.cloud_cover_code is None,
        FlagModel::SourceFieldMissing("cloud-layer"@),
    )
}

/// The observation with what follows from its values, and with its flags.
pub open spec fn ncei_complete(
    observation: ObservationModel,
    humidity: Option<Reading>,
    u: Option<Reading>,
    v: Option<Reading>,
) -> ObservationModel {
    ObservationModel {
        measured: Measured {
            relative_humidity_pct: humidity,
            wind_u_kt: u,
            wind_v_kt: v,
            ..observation.measured
        },
        flags: ncei_flags(observation, humidity is Some),
        ..observation
    }
}

/// The observation is complete, with what follows from its values.
pub open spec fn ncei_completes<A: Arithmetic>(
    a: &A,
    observation: ObservationModel,
    out: ObservationModel,
) -> bool {
    exists|h: Option<Reading>, u: Option<Reading>, v: Option<Reading>|
        {
            &&& #[trigger] humidity_follows(
                a,
                observation.measured.temperature_c,
                observation.measured.dewpoint_c,
                h,
            )
            &&& #[trigger] wind_splits(
                a,
                observation.measured.wind_direction_deg,
                observation.measured.wind_speed_kt,
                u,
                v,
            )
            &&& out == ncei_complete(observation, h, u, v)
        }
}

/// The observation with what follows from its values, and with its flags. No humidity and no
/// parts of a wind are known before.
pub fn complete_ncei<A: Arithmetic>(a: &A, observation: ObservationRecord) -> (r: ObservationRecord)
    ensures
        ncei_completes(a, observation@, r@),
{
    let mut next = observation;
    let h = humidity(a, next.temperature_c, next.dewpoint_c);
    let (u, v) = wind_parts(a, next.wind_direction_deg, next.wind_speed_kt);
    next.relative_humidity_pct = h;
    next.wind_u_kt = u;
    next.wind_v_kt = v;
    let mut flags = next.quality_flags;
    push_flag_if(&mut flags, h.is_some(), QualityFlag::DerivedRelativeHumidity);
    push_flag_if(
        &mut flags,
        next.precipitation_mm.is_none(),
        QualityFlag::SourceFieldMissing("precip-token".to_string()),
    );
    push_flag_if(
        &mut flags,
        next.cloud_cover_code.is_none(),
        QualityFlag::SourceFieldMissing("cloud-layer".to_string()),
    );
    next.quality_flags = flags;
    assert(next@ == ncei_complete(observation@, h, u, v));
    next
}

/// The tokens say these values.
pub open spec fn tokens_mean<A: Arithmetic>(
    a: &A,
    tokens: Seq<Seq<char>>,
    values: Seq<TokenValue>,
) -> bool {
    values.len() == tokens.len() && forall|i: int|
        0 <= i < tokens.len() ==> token_means(a, tokens[i], Some(#[trigger] values[i]))
}

/// The tokens, put into a blank observation, make this observation.
pub open spec fn tokens_make<A: Arithmetic>(
    a: &A,
    blank: ObservationModel,
    tokens: Seq<Seq<char>>,
    out: ObservationModel,
) -> bool {
    exists|values: Seq<TokenValue>| #[trigger]
        tokens_mean(a, tokens, values) && ncei_completes(
            a,
            with_tokens(blank, tokens, values, tokens.len()),
            out,
        )
}

/// One of the tokens is a broken wind token.
pub open spec fn has_broken_token<A: Arithmetic>(a: &A, tokens: Seq<Seq<char>>) -> bool {
    exists|i: int| 0 <= i < tokens.len() && token_means(a, #[trigger] tokens[i], None)
}

/// Twelve bytes of text behind the first `skip` bytes.
pub open spec fn stamp_in(token: Seq<char>, skip: nat) -> Option<Seq<char>> {
    match leading(token, skip) {
        Some(prefix) => leading(token.skip(prefix.len() as int), 12),
        None => None,
    }
}

pub open spec fn stamp_pattern() -> Seq<char> {
    "%Y%m%d%H%M"@
}

/// The time of a stamp, on the clock of the zone, or why there is none.
pub open spec fn stamp_time(stamp: Option<Seq<char>>, zone: Seq<char>) -> Result<
    LocalTime,
    Seq<char>,
> {
    match stamp {
        None => Err("NCEI local timestamp is not on character boundaries"@),
        Some(text) => match civil_read(text, stamp_pattern()) {
            None => Err("failed to parse NCEI local timestamp "@ + text),
            Some((clock, _)) => match resolved_in_zone(zone, clock) {
                None => Err("failed to resolve NCEI local timestamp in station timezone"@),
                Some(local) => Ok(local),
            },
        },
    }
}

/// A line makes this observation; none where it has fewer than ten tokens, or no room for a time
/// behind the station in its second token.
pub open spec fn line_means<A: Arithmetic>(
    a: &A,
    line: Seq<char>,
    station: Seq<char>,
    zone: Seq<char>,
    raw_ref: Seq<char>,
    out: Result<Option<ObservationModel>, Seq<char>>,
) -> bool {
    let tokens = words(line);
    let skip = byte_len(iem_code(station));
    if tokens.len() < 10 || byte_len(tokens[1]) < skip + 12 {
        out == Ok::<Option<ObservationModel>, Seq<char>>(None)
    } else {
        match stamp_time(stamp_in(tokens[1], skip), zone) {
            Err(message) => out == Err::<Option<ObservationModel>, Seq<char>>(message),
            Ok(local) => match out {
                Ok(Some(observation)) => tokens_make(
                    a,
                    blank_observation(
                        station,
                        DataSource::NceiAsosFiveMinute,
                        station,
                        local,
                        raw_ref,
                    ),
                    tokens,
                    observation,
                ),
                Ok(None) => false,
                Err(message) => has_broken_token(a, tokens) && message
                    == "wind token missing direction"@,
            },
        }
    }
}

/// The time of a stamp on the clock of the zone.
fn read_stamp(token: &[char], skip: u128, zone: &Zone) -> (r: Result<LocalTime, Failure>)
    ensures
        match r {
            Ok(local) => stamp_time(stamp_in(token@, skip as nat), zone.called()) == Ok::<
                LocalTime,
                Seq<char>,
            >(local),
            Err(failure) => stamp_time(stamp_in(token@, skip as nat), zone.called()) == Err::<
                LocalTime,
                Seq<char>,
            >(failure.message@),
        },
{
    let prefix = match head(token, skip) {
        Some(prefix) => prefix,
        None => {
            return Err(Failure::new("NCEI local timestamp is not on character boundaries"));
        },
    };
    let rest = vstd::slice::slice_subrange(token, prefix.len(), token.len());
    assert(rest@ =~= token@.skip(prefix@.len() as int));
    let stamp = match head(rest, 12) {
        Some(stamp) => stamp,
        None => {
            return Err(Failure::new("NCEI local timestamp is not on character boundaries"));
        },
    };
    match parse_civil(&to_text(stamp), "%Y%m%d%H%M") {
        Some(civil) => match zone.resolve(civil) {
            Some(local) => Ok(local),
            None => Err(
                Failure::new("failed to resolve NCEI local timestamp in station timezone"),
            ),
        },
        None => Err(Failure::about("failed to parse NCEI local timestamp ", stamp)),
    }
}

/// The observation that the tokens make out of a blank one.
fn read_tokens<A: Arithmetic>(a: &A, blank: ObservationRecord, tokens: &Vec<Vec<char>>) -> (r:
    Result<ObservationRecord, Failure>)
    ensures
        match r {
            Ok(observation) => tokens_make(a, blank@, views(tokens@), observation@),
            Err(failure) => has_broken_token(a, views(tokens@)) && failure.message@
                == "wind token missing direction"@,
        },
{
    let ghost start = blank@;
    let ghost all = views(tokens@);
    let mut observation = blank;
    let ghost mut values: Seq<TokenValue> = Seq::empty();
    let mut i: usize = 0;
    while i < tokens.len()
        invariant
            i <= tokens@.len(),
            all == views(tokens@),
            values.len() == i,
            forall|k: int| 0 <= k < i ==> token_means(a, all[k], Some(#[trigger] values[k])),
            observation@ == with_tokens(start, all, values, i as nat),
        decreases tokens@.len() - i,
    {
        assert(all[i as int] == tokens@[i as int]@);
        match evaluate_token(a, &tokens[i]) {
            Some(value) => {
                let ghost before = values;
                proof {
                    values = values.push(value);
                    lemma_with_tokens_prefix(start, all, before, value, i as nat);
                }
                observation = apply_token(observation, &tokens[i], value);
            },
            None => {
                assert(token_means(a, all[i as int], None));
                return Err(Failure::new("wind token missing direction"));
            },
        }
        i += 1;
    }
    assert(tokens_mean(a, all, values));
    Ok(complete_ncei(a, observation))
}

proof fn lemma_with_tokens_prefix(
    start: ObservationModel,
    tokens: Seq<Seq<char>>,
    values: Seq<TokenValue>,
    value: TokenValue,
    n: nat,
)
    requires
        n <= values.len(),
    ensures
        with_tokens(start, tokens, values.push(value), n) == with_tokens(start, tokens, values, n),
    decreases n,
{
    if n > 0 {
        lemma_with_tokens_prefix(start, tokens, values, value, (n - 1) as nat);
    }
}

/// The observation of a line, on the clock of the zone. None where the line has fewer than ten
/// tokens, or no room for a time behind the station in its second token.
pub fn parse_ncei_line<A: Arithmetic>(
    a: &A,
    line: &[char],
    station: &StationId,
    zone: &Zone,
    raw_ref: &str,
) -> (r: Result<Option<ObservationRecord>, Failure>)
    ensures
        line_means(a, line@, station@, zone.called(), raw_ref@, maybe_outcome(r)),
{
    let tokens = split_words(line);
    if tokens.len() < 10 {
        return Ok(None);
    }
    assert(views(tokens@)[1] == tokens@[1]@);
    let code = to_chars(station.as_iem_id());
    let skip: u128 = byte_count(&code);
    let bytes: u128 = byte_count(&tokens[1]);
    if bytes < skip + 12 {
        return Ok(None);
    }
    let local = match read_stamp(&tokens[1], skip, zone) {
        Ok(local) => local,
        Err(failure) => {
            return Err(failure);
        },
    };
    let blank = ObservationRecord::from_parts(
        station.clone(),
        DataSource::NceiAsosFiveMinute,
        station.as_str().to_string(),
        local,
        raw_ref.to_string(),
    );
    match read_tokens(a, blank, &tokens) {
        Ok(observation) => Ok(Some(observation)),
        Err(failure) => Err(failure),
    }
}

/// The line makes some observation or none, but does not fail.
pub open spec fn line_is_read<A: Arithmetic>(
    a: &A,
    line: Seq<char>,
    station: Seq<char>,
    zone: Seq<char>,
    raw_ref: Seq<char>,
) -> bool {
    exists|out: Option<ObservationModel>| #[trigger]
        line_means(a, line, station, zone, raw_ref, Ok(out))
}

/// The lines, each in turn, make these observations.
pub open spec fn lines_make<A: Arithmetic>(
    a: &A,
    rows: Seq<Seq<char>>,
    station: Seq<char>,
    zone: Seq<char>,
    raw_ref: Seq<char>,
    observations: Seq<ObservationModel>,
) -> bool {
    exists|outs: Seq<Option<ObservationModel>>|
        {
            &&& outs.len() == rows.len()
            &&& forall|i: int|
                0 <= i < rows.len() ==> line_means(
                    a,
                    rows[i],
                    station,
                    zone,
                    raw_ref,
                    Ok(#[trigger] outs[i]),
                )
            &&& observations == #[trigger] kept(outs)
        }
}

/// The first of the lines that fails fails with this message.
pub open spec fn lines_fail<A: Arithmetic>(
    a: &A,
    rows: Seq<Seq<char>>,
    station: Seq<char>,
    zone: Seq<char>,
    raw_ref: Seq<char>,
    message: Seq<char>,
) -> bool {
    exists|i: int|
        {
            &&& 0 <= i < rows.len()
            &&& line_means(a, #[trigger] rows[i], station, zone, raw_ref, Err(message))
            &&& forall|j: int|
                0 <= j < i ==> line_is_read(a, #[trigger] rows[j], station, zone, raw_ref)
        }
}

/// The observations of a file of the archive.
pub fn normalize_ncei<A: Arithmetic>(
    a: &A,
    content: &str,
    station: &StationRecord,
    raw_ref: &str,
) -> (r: Result<Vec<ObservationRecord>, Failure>)
    ensures
        match r {
            Ok(observations) => zone_known(station.timezone@) && lines_make(
                a,
                lines(content@),
                station.station_id@,
                station.timezone@,
                raw_ref@,
                observation_models(observations@),
            ),
            Err(failure) => if zone_known(station.timezone@) {
                lines_fail(
                    a,
                    lines(content@),
                    station.station_id@,
                    station.timezone@,
                    raw_ref@,
                    failure.message@,
                )
            } else {
                failure.message@ == "unsupported timezone "@ + station.timezone@
            },
        },
{
    let zone = match Zone::parse(&station.timezone) {
        Some(zone) => zone,
        None => {
            return Err(Failure::about("unsupported timezone ", &to_chars(&station.timezone)));
        },
    };
    let rows = split_lines(&to_chars(content));
    let ghost all = lines(content@);
    let mut observations: Vec<ObservationRecord> = Vec::new();
    let ghost mut outs: Seq<Option<ObservationModel>> = Seq::empty();
    assert(observation_models(observations@) =~= kept(outs));
    let mut i: usize = 0;
    while i < rows.len()
        invariant
            i <= rows@.len(),
            views(rows@) == all,
            all == lines(content@),
            zone.called() == station.timezone@,
            zone_known(station.timezone@),
            outs.len() == i,
            forall|k: int|
                0 <= k < i ==> line_means(
                    a,
                    all[k],
                    station.station_id@,
                    station.timezone@,
                    raw_ref@,
                    Ok(#[trigger] outs[k]),
                ),
            observation_models(observations@) == kept(outs),
        decreases rows@.len() - i,
    {
        assert(all[i as int] == rows@[i as int]@);
        match parse_ncei_line(a, &rows[i], &station.station_id, &zone, raw_ref) {
            Ok(Some(observation)) => {
                proof {
                    lemma_kept_push(outs, Some(observation@));
                    outs = outs.push(Some(observation@));
                    assert(observation_models(observations@.push(observation)) =~= observation_models(
                        observations@,
                    ).push(observation@));
                }
                observations.push(observation);
            },
            Ok(None) => {
                proof {
                    lemma_kept_push(outs, None);
                    outs = outs.push(None);
                }
            },
            Err(failure) => {
                proof {
                    assert forall|j: int| 0 <= j < i implies line_is_read(
                        a,
                        #[trigger] all[j],
                        station.station_id@,
                        station.timezone@,
                        raw_ref@,
                    ) by {
                        assert(line_means(
                            a,
                            all[j],
                            station.station_id@,
                            station.timezone@,
                            raw_ref@,
                            Ok(outs[j]),
                        ));
                    }
                    assert(line_means(
                        a,
                        all[i as int],
                        station.station_id@,
                        station.timezone@,
                        raw_ref@,
                        Err(failure.message@),
                    ));
                }
                return Err(failure);
            },
        }
        i += 1;
    }
    Ok(observations)
}

/// The number of a month, counted over the years.
pub open spec fn month_number(year: int, month: int) -> int {
    12 * year + month - 1
}

/// The months from that of one date to that of another, both with them.
pub open spec fn months_between(start: Date, end: Date) -> Seq<(int, int)> {
    let first = month_number(start.y(), start.m());
    let last = month_number(end.y(), end.m());
    Seq::new(
        (last - first + 1) as nat,
        |i: int| ((first + i) / 12, (first + i) % 12 + 1),
    )
}

/// The months from that of `start` to that of `end`, both with them.
pub fn month_span(start: Date, end: Date) -> (r: Vec<(i32, u32)>)
    requires
        month_number(start.y(), start.m()) <= month_number(end.y(), end.m()),
    ensures
        r@.map_values(|month: (i32, u32)| (month.0 as int, month.1 as int)) == months_between(
            start,
            end,
        ),
{
    let mut year: i32 = start.year();
    let mut month: u32 = start.month();
    let last_year: i32 = end.year();
    let last_month: u32 = end.month();
    let ghost first = month_number(start.y(), start.m());
    let ghost last = month_number(end.y(), end.m());
    let ghost wanted = months_between(start, end);
    let mut months: Vec<(i32, u32)> = Vec::new();
    while year != last_year || month != last_month
        invariant
            start.valid(),
            end.valid(),
            last_year == end.y(),
            last_month == end.m(),
            first == month_number(start.y(), start.m()),
            last == month_number(end.y(), end.m()),
            wanted == months_between(start, end),
            1 <= month <= 12,
            month_number(year as int, month as int) == first + months@.len(),
            month_number(year as int, month as int) <= last,
            forall|i: int|
                0 <= i < months@.len() ==> (months@[i].0 as int, (#[trigger] months@[i]).1 as int)
                    == wanted[i],
        decreases last - month_number(year as int, month as int),
    {
        months.push((year, month));
        month += 1;
        if month == 13 {
            month = 1;
            year += 1;
        }
    }
    months.push((year, month));
    assert(months@.map_values(|month: (i32, u32)| (month.0 as int, month.1 as int)) =~= wanted);
    months
}

/// The address of the observations of a station in a month.
pub open spec fn ncei_url(station: Seq<char>, year: int, month: int) -> Seq<char> {
    "https://www.ncei.noaa.gov/data/automated-surface-observing-system-five-minute/access/"@
        + int_text(year) + "/"@ + two_digits(month) + "/asos-5min-"@ + station + "-"@ + int_text(
        year,
    ) + two_digits(month) + ".dat"@
}

/// The address of the observations of a station in a month.
pub fn request_url(station_id: &StationId, year: i32, month: u32) -> (r: String)
    ensures
        r@ == ncei_url(station_id@, year as int, month as int),
{
    let year_digits = signed_decimal(year as i64);
    let month_digits = pad_zeros(&decimal(month as u128), 2);
    let mut url: String = "https://www.ncei.noaa.gov/data/automated-surface-observing-system-five-minute/access/".to_string();
    url.append(&year_digits);
    url.append("/");
    url.append(&month_digits);
    url.append("/asos-5min-");
    url.append(station_id.as_nws_id());
    url.append("-");
    url.append(&year_digits);
    url.append(&month_digits);
    url.append(".dat");
    url
}

} // verus!
