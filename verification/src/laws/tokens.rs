//! Lines of tokens: what a token of a given form says, and what it sets in an observation.
use vstd::prelude::*;
use crate::calendar::{civil_read, date_numbered, resolved_in_zone};
use crate::domain::{
    cloud_fraction, flag_if, Failure, FlagModel, ObservationModel, ObservationRecord, StationRecord,
};
use crate::evaluate::{humidity_follows, reads_number, wind_splits};
use crate::laws::lists::{lemma_kept_count, lemma_kept_positions};
use crate::laws::numbers::{law_readings_compare_as_numbers, number_of};
use crate::laws::tables::{are_rising_positions, lemma_either, lemma_flag_if};
use crate::metar::{
    depth_means, kind_of, mercury_means, miles_mean, plain_means, quotient_means, temperature_means,
    TokenKind,
};
use crate::ncei::{
    line_means, ncei_complete, ncei_completes, normalize_ncei, token_means, tokens_make,
    tokens_mean, with_token, with_tokens, TokenValue,
};
use crate::reading::{Arithmetic, Reading};
use crate::source::DataSource;
use crate::text::{
    byte_len, ends_with, leading, lemma_position_at, lines, starts_with, strip_ends, words,
};

verus! {

/// The text is one or more digits.
pub open spec fn is_numeral(text: Seq<char>) -> bool {
    text.len() > 0 && forall|i: int| 0 <= i < text.len() ==> '0' <= #[trigger] text[i] <= '9'
}

/// The arithmetic reads this of the text.
pub open spec fn is_read_of<A: Arithmetic>(a: &A, text: Seq<char>, out: Option<Reading>) -> bool {
    exists|s: &str| s@ == text && #[trigger] call_ensures(A::number, (a, s), out)
}

proof fn lemma_plain_bytes(text: Seq<char>, n: nat)
    requires
        forall|i: int| 0 <= i < text.len() ==> (#[trigger] text[i] as u32) < 0x80,
        n <= text.len(),
    ensures
        byte_len(text) == text.len(),
        leading(text, n) == Some(text.take(n as int)),
    decreases text.len(),
{
    if text.len() > 0 {
        let rest = text.drop_first();
        assert forall|i: int| 0 <= i < rest.len() implies (#[trigger] rest[i] as u32) < 0x80 by {
            assert(rest[i] == text[i + 1]);
        }
        if n > 0 {
            lemma_plain_bytes(rest, (n - 1) as nat);
            assert(text.take(n as int) =~= seq![text[0]] + rest.take(n - 1));
        } else {
            lemma_plain_bytes(rest, 0);
            assert(text.take(0) =~= seq![]);
        }
    } else {
        assert(text.take(0) =~= seq![]);
    }
}

proof fn lemma_strip_once(body: Seq<char>, end: Seq<char>)
    requires
        end.len() > 0,
        !ends_with(body, end),
    ensures
        strip_ends(body + end, end) == body,
        ends_with(body + end, end),
{
    let all = body + end;
    assert(all.skip(all.len() - end.len()) =~= end);
    assert(all.take(all.len() - end.len()) =~= body);
    reveal_with_fuel(strip_ends, 2);
}

/// A token does not end like this where its last character is another.
proof fn lemma_ends_otherwise(text: Seq<char>, end: Seq<char>)
    requires
        text.len() > 0,
        end.len() > 0,
        text.last() != end.last(),
    ensures
        !ends_with(text, end),
{
    if ends_with(text, end) {
        assert(text.skip(text.len() - end.len())[end.len() - 1] == end[end.len() - 1]);
    }
}

proof fn lemma_starts_otherwise(text: Seq<char>, start: Seq<char>)
    requires
        text.len() > 0,
        start.len() > 0,
        text[0] != start[0],
    ensures
        !starts_with(text, start),
{
    if starts_with(text, start) {
        assert(text.take(start.len() as int)[0] == start[0]);
    }
}

/// A wind token of three digits, a speed and perhaps a gust says that direction, that speed and
/// that gust, in this order.
pub proof fn law_wind_tokens_say_direction_speed_and_gust<A: Arithmetic>(
    a: &A,
    direction: Seq<char>,
    speed: Seq<char>,
    gust: Option<Seq<char>>,
    token: Seq<char>,
    out: Option<TokenValue>,
)
    requires
        is_numeral(direction),
        direction.len() == 3,
        is_numeral(speed),
        speed.len() >= 2,
        gust is Some ==> is_numeral(gust->0),
        token == direction + speed + (if gust is Some {
            "G"@ + gust->0
        } else {
            ""@
        }) + "KT"@,
        token_means(a, token, out),
    ensures
        out is Some,
        out->0 is Wind,
        is_read_of(a, direction, out->0->Wind_0),
        is_read_of(a, speed, out->0->Wind_1),
        gust is None ==> out->0->Wind_2 is None,
        gust is Some ==> is_read_of(a, gust->0, out->0->Wind_2),
{
    reveal_strlit("KT");
    reveal_strlit("G");
    reveal_strlit("");
    reveal_strlit("VRB");
    reveal_strlit("/////");
    let tail = if gust is Some {
        "G"@ + gust->0
    } else {
        ""@
    };
    let rest = speed + tail;
    let body = direction + rest;
    assert(token =~= body + "KT"@);
    assert(body.len() >= 5);
    assert('0' <= body.last() <= '9') by {
        if gust is Some {
            assert(body.last() == gust->0[gust->0.len() - 1]);
        } else {
            assert(body.last() == speed[speed.len() - 1]);
        }
    }
    lemma_ends_otherwise(body, "KT"@);
    lemma_strip_once(body, "KT"@);
    assert forall|i: int| 0 <= i < body.len() implies (#[trigger] body[i] as u32) < 0x80 by {
        if i < 3 {
            assert(body[i] == direction[i]);
        } else if i < 3 + speed.len() {
            assert(body[i] == speed[i - 3]);
        } else if i > 3 + speed.len() {
            assert(body[i] == gust->0[i - 4 - speed.len()]);
        }
    }
    lemma_plain_bytes(body, 3);
    assert(body.take(3) =~= direction);
    assert(body.skip(3) =~= rest);
    assert(body[0] == direction[0]);
    assert('0' <= direction[0] <= '9');
    lemma_starts_otherwise(body, "VRB"@);
    assert(body != "/////"@) by {
        assert("/////"@[0] == '/');
    }
    assert forall|i: int| 0 <= i < speed.len() implies #[trigger] rest[i] != 'G' by {
        assert(rest[i] == speed[i]);
    }
    lemma_position_at(rest, 'G', speed.len() as int);
    if gust is Some {
        assert(rest.take(speed.len() as int) =~= speed);
        assert(rest.skip(speed.len() as int + 1) =~= gust->0);
    } else {
        assert(rest =~= speed);
    }
    assert(kind_of(token) == TokenKind::Wind);
}

/// A variable wind has a speed and no direction.
pub proof fn law_variable_winds_have_no_direction<A: Arithmetic>(
    a: &A,
    speed: Seq<char>,
    token: Seq<char>,
    out: Option<TokenValue>,
)
    requires
        is_numeral(speed),
        speed.len() >= 2,
        token == "VRB"@ + speed + "KT"@,
        token_means(a, token, out),
    ensures
        out is Some,
        out->0 is Wind,
        out->0->Wind_0 is None,
        is_read_of(a, speed, out->0->Wind_1),
        out->0->Wind_2 is None,
{
    reveal_strlit("KT");
    reveal_strlit("VRB");
    reveal_strlit("/////");
    let body = "VRB"@ + speed;
    assert(body.last() == speed[speed.len() - 1]);
    lemma_ends_otherwise(body, "KT"@);
    lemma_strip_once(body, "KT"@);
    assert forall|i: int| 0 <= i < body.len() implies (#[trigger] body[i] as u32) < 0x80 by {
        if i >= 3 {
            assert(body[i] == speed[i - 3]);
        }
    }
    lemma_plain_bytes(body, 3);
    assert(body.take(3) =~= "VRB"@);
    assert(body.skip(3) =~= speed);
    assert(body[0] == 'V' && "/////"@[0] == '/');
    lemma_position_at(speed, 'G', speed.len() as int);
    assert(kind_of(token) == TokenKind::Wind);
}

/// A wind token without values says none.
pub proof fn law_silent_winds_say_nothing<A: Arithmetic>(a: &A, token: Seq<char>,
    out: Option<TokenValue>)
    requires
        token == "/////KT"@,
        token_means(a, token, out),
    ensures
        out == Some(TokenValue::Wind(None, None, None)),
{
    reveal_strlit("/////KT");
    reveal_strlit("/////");
    reveal_strlit("KT");
    assert(token =~= "/////"@ + "KT"@);
    lemma_ends_otherwise("/////"@, "KT"@);
    lemma_strip_once("/////"@, "KT"@);
}

/// The functions that read one kind of token read what the laws of tokens say of it.
pub proof fn law_tokens_are_read_by_kind<A: Arithmetic>(
    a: &A,
    token: &[char],
    wind: Option<(Option<Reading>, Option<Reading>, Option<Reading>)>,
    miles: Option<Reading>,
    pressure: Option<Reading>,
    rain: Option<Reading>,
    temperatures: Option<(Option<Reading>, Option<Reading>)>,
    value: Option<TokenValue>,
)
    requires
        call_ensures(crate::metar::parse_metar_wind_token::<A>, (a, token), wind),
        call_ensures(crate::metar::parse_visibility_token::<A>, (a, token), miles),
        call_ensures(crate::metar::parse_altimeter_token::<A>, (a, token), pressure),
        call_ensures(crate::metar::parse_ncei_precip_token::<A>, (a, token), rain),
        call_ensures(crate::metar::parse_temp_dew_token::<A>, (a, token), temperatures),
    ensures
        kind_of(token@) == TokenKind::Wind && wind is Some ==> token_means(
            a,
            token@,
            Some(TokenValue::Wind((wind->0).0, (wind->0).1, (wind->0).2)),
        ),
        kind_of(token@) == TokenKind::Wind && wind is None ==> token_means(a, token@, None),
        kind_of(token@) == TokenKind::Visibility ==> token_means(
            a,
            token@,
            Some(TokenValue::Visibility(miles)),
        ),
        kind_of(token@) == TokenKind::Pressure ==> token_means(
            a,
            token@,
            Some(TokenValue::Pressure(pressure)),
        ),
        kind_of(token@) == TokenKind::Rain ==> token_means(a, token@, Some(TokenValue::Rain(rain))),
        kind_of(token@) == TokenKind::Temperature && temperatures is Some ==> token_means(
            a,
            token@,
            Some(TokenValue::Temperature((temperatures->0).0, (temperatures->0).1)),
        ),
{
}

/// What a temperature spells, in digits, negative behind an `M`.
pub open spec fn is_degrees<A: Arithmetic>(
    a: &A,
    digits: Seq<char>,
    below_zero: bool,
    out: Option<Reading>,
) -> bool {
    exists|n: Option<Reading>|
        {
            &&& #[trigger] is_read_of(a, digits, n)
            &&& out is Some <==> n is Some
            &&& n is Some && !below_zero ==> out == n
            &&& n is Some && below_zero ==> number_of(out->0) == -number_of(n->0)
        }
}

proof fn lemma_degrees<A: Arithmetic>(
    a: &A,
    digits: Seq<char>,
    below_zero: bool,
    text: Seq<char>,
    out: Option<Reading>,
)
    requires
        is_numeral(digits),
        text == (if below_zero {
            "M"@
        } else {
            ""@
        }) + digits,
        temperature_means(a, text, out),
    ensures
        is_degrees(a, digits, below_zero, out),
{
    reveal_strlit("M");
    reveal_strlit("MM");
    reveal_strlit("");
    assert('0' <= digits[0] <= '9');
    assert('0' <= digits[digits.len() - 1] <= '9');
    if below_zero {
        assert(text[0] == 'M');
        assert(text[1] == digits[0]);
        assert(text.last() == digits[digits.len() - 1]);
        crate::text::lemma_trim_fixed(text);
        assert("MM"@[1] == 'M');
        assert(text.take(1) =~= "M"@);
        assert(text.skip(1) =~= digits);
        let n = choose|n: Option<Reading>| #[trigger]
            reads_number(a, digits, n) && out == (match n {
                Some(value) => Some(value.negated()),
                None => None,
            });
        assert(is_read_of(a, digits, n));
        if n is Some {
            crate::laws::numbers::law_opposite_readings_are_opposite_numbers(n->0);
        }
    } else {
        assert(text =~= digits);
        crate::text::lemma_trim_fixed(text);
        assert("M"@[0] == 'M' && "MM"@[0] == 'M');
        lemma_starts_otherwise(text, "M"@);
        assert(is_read_of(a, digits, out));
    }
}

/// A temperature token says the temperature before the slash and the dew point behind it, each
/// negative behind an `M`.
pub proof fn law_temperature_tokens_say_temperature_then_dew_point<A: Arithmetic>(
    a: &A,
    temperature: Seq<char>,
    cold: bool,
    dewpoint: Seq<char>,
    dry: bool,
    token: Seq<char>,
    out: Option<TokenValue>,
)
    requires
        is_numeral(temperature),
        is_numeral(dewpoint),
        token == (if cold {
            "M"@
        } else {
            ""@
        }) + temperature + "/"@ + (if dry {
            "M"@
        } else {
            ""@
        }) + dewpoint,
        token_means(a, token, out),
    ensures
        out is Some,
        out->0 is Temperature,
        is_degrees(a, temperature, cold, out->0->Temperature_0),
        is_degrees(a, dewpoint, dry, out->0->Temperature_1),
{
    reveal_strlit("M");
    reveal_strlit("");
    reveal_strlit("/");
    reveal_strlit("KT");
    reveal_strlit("SM");
    reveal_strlit("P");
    reveal_strlit("A");
    reveal_strlit("Z");
    let left = (if cold {
        "M"@
    } else {
        ""@
    }) + temperature;
    let right = (if dry {
        "M"@
    } else {
        ""@
    }) + dewpoint;
    assert(token =~= left + seq!['/'] + right);
    assert('0' <= temperature[0] <= '9');
    assert(token.last() == dewpoint[dewpoint.len() - 1]);
    assert('0' <= dewpoint[dewpoint.len() - 1] <= '9');
    assert(token[0] == 'M' || token[0] == temperature[0]);
    lemma_ends_otherwise(token, "KT"@);
    lemma_ends_otherwise(token, "SM"@);
    lemma_ends_otherwise(token, "Z"@);
    lemma_starts_otherwise(token, "P"@);
    lemma_starts_otherwise(token, "A"@);
    let n = left.len() as int;
    assert(token[n] == '/');
    assert forall|i: int| 0 <= i < left.len()
        implies #[trigger] token[i] != '/' && token[i] != ':' by {
        assert(token[i] == left[i]);
        let k = if cold { i - 1 } else { i };
        if i > 0 || !cold {
            assert(left[i] == temperature[k]);
        }
    }
    assert forall|i: int| 0 <= i < token.len() implies #[trigger] token[i] != ':' by {
        if i > n {
            assert(token[i] == right[i - n - 1]);
            let k = if dry { i - n - 2 } else { i - n - 1 };
            if k >= 0 {
                assert(right[i - n - 1] == dewpoint[k]);
            }
        }
    }
    assert(kind_of(token) == TokenKind::Temperature);
    lemma_position_at(token, '/', n);
    assert(token.take(n) =~= left);
    assert(token.skip(n + 1) =~= right);
    lemma_degrees(a, temperature, cold, left, out->0->Temperature_0);
    lemma_degrees(a, dewpoint, dry, right, out->0->Temperature_1);
}

/// A token of an `A` and four digits says the pressure of that many hundredths of an inch of
/// mercury.
pub proof fn law_pressure_tokens_say_hundredths_of_inches_of_mercury<A: Arithmetic>(
    a: &A,
    digits: Seq<char>,
    token: Seq<char>,
    out: Option<TokenValue>,
)
    requires
        is_numeral(digits),
        digits.len() == 4,
        token == "A"@ + digits,
        token_means(a, token, out),
    ensures
        out is Some,
        out->0 is Pressure,
        exists|n: Option<Reading>|
            {
                &&& #[trigger] is_read_of(a, digits, n)
                &&& out->0->Pressure_0 is Some <==> n is Some
                &&& n is Some
                    ==> call_ensures(A::hundredths_hg_to_hpa, (a, n->0), out->0->Pressure_0->0)
            },
{
    reveal_strlit("A");
    reveal_strlit("P");
    reveal_strlit("KT");
    reveal_strlit("SM");
    assert(token.last() == digits[3]);
    assert('0' <= digits[3] <= '9');
    lemma_ends_otherwise(token, "KT"@);
    lemma_ends_otherwise(token, "SM"@);
    assert forall|i: int| 0 <= i < token.len() implies (#[trigger] token[i] as u32) < 0x80 by {
        if i > 0 {
            assert(token[i] == digits[i - 1]);
        }
    }
    lemma_plain_bytes(token, 0);
    assert(token[0] == "A"@[0]);
    assert(token.take(1) =~= "A"@);
    assert(token.skip(1) =~= digits);
    lemma_starts_otherwise(token, "P"@);
    assert(kind_of(token) == TokenKind::Pressure);
    assert(mercury_means(a, digits, out->0->Pressure_0));
    let n = choose|n: Option<Reading>| #[trigger]
        reads_number(a, digits, n) && match (n, out->0->Pressure_0) {
            (Some(h), Some(p)) => call_ensures(A::hundredths_hg_to_hpa, (a, h), p),
            (None, None) => true,
            _ => false,
        };
    assert(is_read_of(a, digits, n));
}

/// A token of a `P` and four digits says the rain of that many hundredths of an inch.
pub proof fn law_rain_tokens_say_hundredths_of_inches<A: Arithmetic>(
    a: &A,
    digits: Seq<char>,
    token: Seq<char>,
    out: Option<TokenValue>,
)
    requires
        is_numeral(digits),
        digits.len() == 4,
        token == "P"@ + digits,
        token_means(a, token, out),
    ensures
        out is Some,
        out->0 is Rain,
        exists|n: Option<Reading>|
            {
                &&& #[trigger] is_read_of(a, digits, n)
                &&& out->0->Rain_0 is Some <==> n is Some
                &&& n is Some ==> call_ensures(A::hundredths_to_mm, (a, n->0), out->0->Rain_0->0)
            },
{
    reveal_strlit("A");
    reveal_strlit("P");
    reveal_strlit("KT");
    reveal_strlit("SM");
    assert(token.last() == digits[3]);
    assert('0' <= digits[3] <= '9');
    lemma_ends_otherwise(token, "KT"@);
    lemma_ends_otherwise(token, "SM"@);
    assert forall|i: int| 0 <= i < token.len() implies (#[trigger] token[i] as u32) < 0x80 by {
        if i > 0 {
            assert(token[i] == digits[i - 1]);
        }
    }
    lemma_plain_bytes(token, 0);
    assert(token[0] == "P"@[0]);
    assert(token.take(1) =~= "P"@);
    assert(token.skip(1) =~= digits);
    
    assert(kind_of(token) == TokenKind::Rain);
    assert(depth_means(a, digits, out->0->Rain_0));
    let n = choose|n: Option<Reading>| #[trigger]
        reads_number(a, digits, n) && match (n, out->0->Rain_0) {
            (Some(h), Some(p)) => call_ensures(A::hundredths_to_mm, (a, h), p),
            (None, None) => true,
            _ => false,
        };
    assert(is_read_of(a, digits, n));
}

/// A token of miles, or of a quotient of miles, and `SM` says that visibility.
pub proof fn law_visibility_tokens_say_miles<A: Arithmetic>(
    a: &A,
    above: Seq<char>,
    below: Option<Seq<char>>,
    token: Seq<char>,
    out: Option<TokenValue>,
)
    requires
        is_numeral(above),
        below is Some ==> is_numeral(below->0),
        token == above + (if below is Some {
            "/"@ + below->0
        } else {
            ""@
        }) + "SM"@,
        token_means(a, token, out),
    ensures
        out is Some,
        out->0 is Visibility,
        below is None ==> exists|n: Option<Reading>|
            {
                &&& #[trigger] is_read_of(a, above, n)
                &&& out->0->Visibility_0 is Some <==> n is Some
                &&& n is Some ==> call_ensures(A::miles_to_km, (a, n->0), out->0->Visibility_0->0)
            },
        below is Some ==> exists|n: Option<Reading>, d: Option<Reading>|
            {
                &&& #[trigger] is_read_of(a, above, n)
                &&& #[trigger] is_read_of(a, below->0, d)
                &&& out->0->Visibility_0 is Some <==> n is Some && d is Some
                &&& n is Some && d is Some ==> exists|q: Reading| #[trigger]
                    call_ensures(A::over, (a, n->0, d->0), q) && call_ensures(
                        A::miles_to_km,
                        (a, q),
                        out->0->Visibility_0->0,
                    )
            },
{
    reveal_strlit("SM");
    reveal_strlit("KT");
    reveal_strlit("P");
    reveal_strlit("/");
    reveal_strlit("");
    let body = above + (if below is Some {
        "/"@ + below->0
    } else {
        ""@
    });
    assert(token =~= body + "SM"@);
    assert('0' <= above[0] <= '9');
    assert(token.last() == 'M' && token[0] == above[0]);
    lemma_ends_otherwise(token, "KT"@);
    lemma_starts_otherwise(token, "P"@);
    assert('0' <= body.last() <= '9') by {
        if below is Some {
            assert(body.last() == below->0[below->0.len() - 1]);
        } else {
            assert(body.last() == above[above.len() - 1]);
        }
    }
    lemma_ends_otherwise(body, "SM"@);
    lemma_strip_once(body, "SM"@);
    assert(kind_of(token) == TokenKind::Visibility);
    assert forall|i: int| 0 <= i < body.len() implies #[trigger] body[i] != ' ' by {
        if i < above.len() {
            assert(body[i] == above[i]);
        } else if i > above.len() {
            assert(body[i] == below->0[i - above.len() - 1]);
        }
    }
    lemma_position_at(body, ' ', body.len() as int);
    let km = out->0->Visibility_0;
    assert(plain_means(a, body, km));
    let m = choose|m: Option<Reading>| #[trigger]
        miles_mean(a, body, m) && crate::evaluate::kilometres(a, m, km);
    assert forall|i: int| 0 <= i < above.len() implies #[trigger] body[i] != '/' by {
        assert(body[i] == above[i]);
    }
    lemma_position_at(body, '/', above.len() as int);
    if below is Some {
        assert(body.take(above.len() as int) =~= above);
        assert(body.skip(above.len() as int + 1) =~= below->0);
        assert(quotient_means(a, above, below->0, m));
        let (n, d) = choose|n: Option<Reading>, d: Option<Reading>| #[trigger]
            reads_number(a, above, n) && #[trigger] reads_number(a, below->0, d)
                && crate::metar::divides(a, n, d, m);
        assert(is_read_of(a, above, n) && is_read_of(a, below->0, d));
        if n is Some && d is Some {
            assert(call_ensures(A::over, (a, n->0, d->0), m->0));
        }
    } else {
        assert(body =~= above);
        assert(is_read_of(a, above, m));
    }
}

/// A token sets the values that it is about and no others. A temperature stands where there is one
/// already, and so does a code of clouds; of the clouds the larger share of the sky stands.
pub proof fn law_tokens_set_what_they_are_about(
    before: ObservationRecord,
    token: Seq<char>,
    value: TokenValue,
    after: ObservationRecord,
)
    requires
        after@ == with_token(before@, token, value),
    ensures
        value is Wind ==> after.wind_direction_deg == value->Wind_0 && after.wind_speed_kt
            == value->Wind_1 && after.wind_gust_kt == value->Wind_2,
        !(value is Wind) ==> after.wind_direction_deg == before.wind_direction_deg
            && after.wind_speed_kt == before.wind_speed_kt && after.wind_gust_kt
            == before.wind_gust_kt,
        value is Rain ==> after.precipitation_mm == value->Rain_0,
        !(value is Rain) ==> after.precipitation_mm == before.precipitation_mm,
        value is Visibility ==> after.visibility_km == value->Visibility_0,
        !(value is Visibility) ==> after.visibility_km == before.visibility_km,
        value is Pressure ==> after.pressure_hpa == value->Pressure_0,
        !(value is Pressure) ==> after.pressure_hpa == before.pressure_hpa,
        value is Temperature && before.temperature_c is None ==> after.temperature_c
            == value->Temperature_0 && after.dewpoint_c == value->Temperature_1,
        !(value is Temperature) || before.temperature_c is Some ==> after.temperature_c
            == before.temperature_c && after.dewpoint_c == before.dewpoint_c,
        !(value is Sky) ==> after.cloud_cover_fraction == before.cloud_cover_fraction
            && after@.cloud_cover_code == before@.cloud_cover_code,
        before.cloud_cover_code is Some ==> after.cloud_cover_code is Some
            && after.cloud_cover_code->0@ == before.cloud_cover_code->0@,
        value is Sky && before.cloud_cover_fraction is Some && before.cloud_cover_code is Some
            ==> after.cloud_cover_fraction is Some && (
        !before.cloud_cover_fraction->0.is_nan() && !after.cloud_cover_fraction->0.is_nan()
            ==> number_of(after.cloud_cover_fraction->0) >= number_of(
            before.cloud_cover_fraction->0,
        )),
        after.station_id@ == before.station_id@,
        after.source == before.source,
        after.source_station_id@ == before.source_station_id@,
        after.observed_at_utc == before.observed_at_utc,
        after.observed_at_local == before.observed_at_local,
        after.local_date == before.local_date,
        after.minute_of_day == before.minute_of_day,
        after.raw_ref@ == before.raw_ref@,
        after.relative_humidity_pct == before.relative_humidity_pct,
        after.wind_u_kt == before.wind_u_kt,
        after.wind_v_kt == before.wind_v_kt,
        after.sea_level_pressure_hpa == before.sea_level_pressure_hpa,
{
    assert(before@.measured == before.measured());
    assert(after@.measured == after.measured());
    if value is Sky && before.cloud_cover_fraction is Some && before.cloud_cover_code is Some {
        let current = before.cloud_cover_fraction->0;
        if let Some(fraction) = crate::metar::sky_fraction(token) {
            law_readings_compare_as_numbers(current, fraction);
            law_readings_compare_as_numbers(fraction, current);
        }
    }
}

/// A token that starts with the code of a layer of clouds gives that code and its share of the sky
/// where there was none before, and where there was one the larger of the two shares.
pub proof fn law_sky_tokens_give_their_code(
    before: ObservationRecord,
    code: Seq<char>,
    token: Seq<char>,
    after: ObservationRecord,
)
    requires
        code == "FEW"@ || code == "SCT"@ || code == "BKN"@ || code == "OVC"@ || code == "CLR"@
            || code == "SKC"@,
        starts_with(token, code),
        after@ == with_token(before@, token, TokenValue::Sky),
    ensures
        cloud_fraction(code) is Some,
        before.cloud_cover_code is None ==> {
            &&& after.cloud_cover_code is Some
            &&& after.cloud_cover_code->0@ == code
            &&& after.cloud_cover_fraction == cloud_fraction(code)
        },
        before.cloud_cover_code is Some && before.cloud_cover_fraction is Some
            && !before.cloud_cover_fraction->0.is_nan() ==> {
            &&& after.cloud_cover_fraction is Some
            &&& after.cloud_cover_fraction == before.cloud_cover_fraction
                || after.cloud_cover_fraction == cloud_fraction(code)
            &&& after.cloud_cover_fraction->0.at_least(before.cloud_cover_fraction->0)
            &&& after.cloud_cover_fraction->0.at_least(cloud_fraction(code)->0)
        },
{
    reveal_strlit("FEW");
    reveal_strlit("SCT");
    reveal_strlit("BKN");
    reveal_strlit("OVC");
    reveal_strlit("CLR");
    reveal_strlit("SKC");
    reveal_strlit("VV");
    assert(code.len() == 3);
    lemma_leading_three(token, code);
    crate::text::lemma_trim_fixed(code);
    assert(crate::text::upper(code) =~= code);
    assert(before@.measured == before.measured());
    assert(after@.measured == after.measured());
}

proof fn lemma_leading_three(token: Seq<char>, code: Seq<char>)
    requires
        code.len() == 3,
        starts_with(token, code),
        forall|i: int| 0 <= i < code.len() ==> (#[trigger] code[i] as u32) < 0x80,
    ensures
        leading(token, 3) == Some(code),
{
    assert(token.take(3) == code);
    assert(token[0] == code[0] && token[1] == code[1] && token[2] == code[2]) by {
        assert(token.take(3)[0] == token[0]);
        assert(token.take(3)[1] == token[1]);
        assert(token.take(3)[2] == token[2]);
    }
    let one = token.drop_first();
    let two = one.drop_first();
    let three = two.drop_first();
    assert(one[0] == token[1] && two[0] == token[2]);
    reveal_with_fuel(leading, 4);
    assert(leading(three, 0) == Some(Seq::<char>::empty()));
    assert(leading(two, 1) == Some(seq![two[0]] + Seq::<char>::empty()));
    assert(leading(one, 2) == Some(seq![one[0]] + (seq![two[0]] + Seq::<char>::empty())));
    assert(seq![token[0]] + (seq![one[0]] + (seq![two[0]] + Seq::<char>::empty())) =~= code);
}

/// An observation of a line has the wind, rain, visibility and pressure of the last token that is
/// about each, and the first temperature with its dew point. What no token is about it has not. Its
/// humidity and the parts of its wind follow from these.
pub proof fn law_lines_say_what_their_tokens_say<A: Arithmetic>(
    a: &A,
    line: Seq<char>,
    station: Seq<char>,
    zone: Seq<char>,
    raw_ref: Seq<char>,
    o: ObservationRecord,
)
    requires
        line_means(a, line, station, zone, raw_ref, Ok(Some(o@))),
    ensures
        words(line).len() >= 10,
        o.source == DataSource::NceiAsosFiveMinute,
        o.station_id@ == station,
        o.source_station_id@ == station,
        o.raw_ref@ == raw_ref,
        o.observed_at_utc == o.observed_at_local.instant(),
        o.minute_of_day == o.observed_at_local.clock() % 86400 / 60,
        o.relative_humidity_pct is Some <==> o.temperature_c is Some && o.dewpoint_c is Some,
        o.relative_humidity_pct is Some ==> call_ensures(
            A::relative_humidity_from_celsius,
            (a, o.temperature_c->0, o.dewpoint_c->0),
            o.relative_humidity_pct->0,
        ),
        o.wind_u_kt is Some <==> o.wind_direction_deg is Some && o.wind_speed_kt is Some,
        o.wind_v_kt is Some <==> o.wind_direction_deg is Some && o.wind_speed_kt is Some,
        o.wind_u_kt is Some ==> call_ensures(
            A::wind_components_knots,
            (a, o.wind_direction_deg->0, o.wind_speed_kt->0),
            (o.wind_u_kt->0, o.wind_v_kt->0),
        ),
        exists|values: Seq<TokenValue>|
            {
                &&& values.len() == words(line).len()
                &&& #[trigger] tokens_mean(a, words(line), values)
                &&& forall|i: int|
                    0 <= i < values.len() && (#[trigger] values[i]) is Wind && (forall|j: int|
                        i < j < values.len() ==> !((#[trigger] values[j]) is Wind))
                            ==> o.wind_direction_deg == values[i]->Wind_0
                                && o.wind_speed_kt == values[i]->Wind_1
                                    && o.wind_gust_kt == values[i]->Wind_2
                &&& (forall|i: int| 0 <= i < values.len()
                    ==> !((#[trigger] values[i]) is Wind))
                        ==> o.wind_direction_deg is None && o.wind_speed_kt is None
                            && o.wind_gust_kt is None
                &&& forall|i: int|
                    0 <= i < values.len() && (#[trigger] values[i]) is Rain && (forall|j: int|
                        i < j < values.len() ==> !((#[trigger] values[j]) is Rain))
                            ==> o.precipitation_mm == values[i]->Rain_0
                &&& (forall|i: int| 0 <= i < values.len()
                    ==> !((#[trigger] values[i]) is Rain)) ==> o.precipitation_mm is None
                &&& forall|i: int|
                    0 <= i < values.len() && (#[trigger] values[i]) is Visibility && (forall|j: int|
                        i < j < values.len() ==> !((#[trigger] values[j]) is Visibility))
                            ==> o.visibility_km == values[i]->Visibility_0
                &&& (forall|i: int| 0 <= i < values.len()
                    ==> !((#[trigger] values[i]) is Visibility)) ==> o.visibility_km is None
                &&& forall|i: int|
                    0 <= i < values.len() && (#[trigger] values[i]) is Pressure && (forall|j: int|
                        i < j < values.len() ==> !((#[trigger] values[j]) is Pressure))
                            ==> o.pressure_hpa == values[i]->Pressure_0
                &&& (forall|i: int| 0 <= i < values.len()
                    ==> !((#[trigger] values[i]) is Pressure)) ==> o.pressure_hpa is None
                &&& forall|i: int|
                    0 <= i < values.len() && (#[trigger] values[i]) is Temperature
                        && values[i]->Temperature_0 is Some
                        && (forall|j: int|
                        0 <= j < i && (#[trigger] values[j]) is Temperature
                            ==> values[j]->Temperature_0 is None)
                        ==> o.temperature_c == values[i]->Temperature_0 && o.dewpoint_c
                        == values[i]->Temperature_1
                &&& (forall|i: int|
                    0 <= i < values.len() && (#[trigger] values[i]) is Temperature
                        ==> values[i]->Temperature_0 is None)
                    ==> o.temperature_c is None
            },
{
    let tokens = words(line);
    let skip = byte_len(crate::domain::iem_code(station));
    let local = crate::ncei::stamp_time(crate::ncei::stamp_in(tokens[1], skip), zone)->Ok_0;
    let blank = crate::domain::blank_observation(
        station,
        DataSource::NceiAsosFiveMinute,
        station,
        local,
        raw_ref,
    );
    assert(tokens_make(a, blank, tokens, o@));
    let values = choose|values: Seq<TokenValue>| #[trigger]
        tokens_mean(a, tokens, values) && ncei_completes(
            a,
            with_tokens(blank, tokens, values, tokens.len()),
            o@,
        );
    let told = with_tokens(blank, tokens, values, tokens.len());
    lemma_told_by_tokens(blank, tokens, values, tokens.len());
    let (h, u, v) = choose|h: Option<Reading>, u: Option<Reading>, v: Option<Reading>|
        {
            &&& #[trigger] humidity_follows(
                a,
                told.measured.temperature_c,
                told.measured.dewpoint_c,
                h,
            )
            &&& #[trigger] wind_splits(
                a,
                told.measured.wind_direction_deg,
                told.measured.wind_speed_kt,
                u,
                v,
            )
            &&& o@ == ncei_complete(told, h, u, v)
        };
    assert(o@.measured == o.measured());
    assert(o@.local == o.observed_at_local && o@.utc == o.observed_at_utc);
    assert(tokens_mean(a, words(line), values));
}

proof fn lemma_told_by_tokens(
    blank: ObservationModel,
    tokens: Seq<Seq<char>>,
    values: Seq<TokenValue>,
    n: nat,
)
    requires
        n <= values.len(),
        blank.measured.temperature_c is None,
        blank.measured.wind_direction_deg is None,
        blank.measured.wind_speed_kt is None,
        blank.measured.wind_gust_kt is None,
        blank.measured.precipitation_mm is None,
        blank.measured.visibility_km is None,
        blank.measured.pressure_hpa is None,
    ensures
        ({
            let told = with_tokens(blank, tokens, values, n).measured;
            &&& forall|i: int|
                0 <= i < n && (#[trigger] values[i]) is Wind && (forall|j: int|
                    i < j < n ==> !((#[trigger] values[j]) is Wind))
                        ==> told.wind_direction_deg == values[i]->Wind_0
                            && told.wind_speed_kt == values[i]->Wind_1
                                && told.wind_gust_kt == values[i]->Wind_2
            &&& (forall|i: int| 0 <= i < n ==> !((#[trigger] values[i]) is Wind))
                ==> told.wind_direction_deg is None && told.wind_speed_kt is None
                    && told.wind_gust_kt is None
            &&& forall|i: int|
                0 <= i < n && (#[trigger] values[i]) is Rain && (forall|j: int|
                    i < j < n ==> !((#[trigger] values[j]) is Rain))
                        ==> told.precipitation_mm == values[i]->Rain_0
            &&& (forall|i: int| 0 <= i < n ==> !((#[trigger] values[i]) is Rain))
                ==> told.precipitation_mm is None
            &&& forall|i: int|
                0 <= i < n && (#[trigger] values[i]) is Visibility && (forall|j: int|
                    i < j < n ==> !((#[trigger] values[j]) is Visibility))
                        ==> told.visibility_km == values[i]->Visibility_0
            &&& (forall|i: int| 0 <= i < n ==> !((#[trigger] values[i]) is Visibility))
                ==> told.visibility_km is None
            &&& forall|i: int|
                0 <= i < n && (#[trigger] values[i]) is Pressure && (forall|j: int|
                    i < j < n ==> !((#[trigger] values[j]) is Pressure))
                        ==> told.pressure_hpa == values[i]->Pressure_0
            &&& (forall|i: int| 0 <= i < n ==> !((#[trigger] values[i]) is Pressure))
                ==> told.pressure_hpa is None
            &&& forall|i: int|
                0 <= i < n && (#[trigger] values[i]) is Temperature
                    && values[i]->Temperature_0 is Some
                    && (forall|j: int|
                    0 <= j < i && (#[trigger] values[j]) is Temperature
                        ==> values[j]->Temperature_0 is None)
                    ==> told.temperature_c == values[i]->Temperature_0 && told.dewpoint_c
                    == values[i]->Temperature_1
            &&& (forall|i: int|
                0 <= i < n && (#[trigger] values[i]) is Temperature
                    ==> values[i]->Temperature_0 is None)
                ==> told.temperature_c is None
        }),
        with_tokens(blank, tokens, values, n).station == blank.station,
        with_tokens(blank, tokens, values, n).source == blank.source,
        with_tokens(blank, tokens, values, n).source_station == blank.source_station,
        with_tokens(blank, tokens, values, n).local == blank.local,
        with_tokens(blank, tokens, values, n).utc == blank.utc,
        with_tokens(blank, tokens, values, n).date == blank.date,
        with_tokens(blank, tokens, values, n).minute_of_day == blank.minute_of_day,
        with_tokens(blank, tokens, values, n).raw_ref == blank.raw_ref,
{
    lemma_kept_by_tokens(blank, tokens, values, n);
    lemma_wind_of_tokens(blank, tokens, values, n);
    lemma_rain_of_tokens(blank, tokens, values, n);
    lemma_visibility_of_tokens(blank, tokens, values, n);
    lemma_pressure_of_tokens(blank, tokens, values, n);
    lemma_temperature_of_tokens(blank, tokens, values, n);
}

proof fn lemma_kept_by_tokens(
    blank: ObservationModel,
    tokens: Seq<Seq<char>>,
    values: Seq<TokenValue>,
    n: nat,
)
    ensures
        with_tokens(blank, tokens, values, n).station == blank.station,
        with_tokens(blank, tokens, values, n).source == blank.source,
        with_tokens(blank, tokens, values, n).source_station == blank.source_station,
        with_tokens(blank, tokens, values, n).local == blank.local,
        with_tokens(blank, tokens, values, n).utc == blank.utc,
        with_tokens(blank, tokens, values, n).date == blank.date,
        with_tokens(blank, tokens, values, n).minute_of_day == blank.minute_of_day,
        with_tokens(blank, tokens, values, n).raw_ref == blank.raw_ref,
    decreases n,
{
    if n > 0 {
        lemma_kept_by_tokens(blank, tokens, values, (n - 1) as nat);
    }
}

proof fn lemma_wind_of_tokens(
    blank: ObservationModel,
    tokens: Seq<Seq<char>>,
    values: Seq<TokenValue>,
    n: nat,
)
    requires
        n <= values.len(),
        blank.measured.temperature_c is None,
        blank.measured.wind_direction_deg is None,
        blank.measured.wind_speed_kt is None,
        blank.measured.wind_gust_kt is None,
        blank.measured.precipitation_mm is None,
        blank.measured.visibility_km is None,
        blank.measured.pressure_hpa is None,
    ensures
        ({
            let told = with_tokens(blank, tokens, values, n).measured;
            &&& forall|i: int|
                0 <= i < n && (#[trigger] values[i]) is Wind && (forall|j: int|
                    i < j < n ==> !((#[trigger] values[j]) is Wind))
                        ==> told.wind_direction_deg == values[i]->Wind_0
                            && told.wind_speed_kt == values[i]->Wind_1
                                && told.wind_gust_kt == values[i]->Wind_2
            &&& (forall|i: int| 0 <= i < n ==> !((#[trigger] values[i]) is Wind))
                ==> told.wind_direction_deg is None && told.wind_speed_kt is None
                    && told.wind_gust_kt is None
        }),
    decreases n,
{
    if n > 0 {
        let m = (n - 1) as nat;
        lemma_wind_of_tokens(blank, tokens, values, m);
        let told = with_tokens(blank, tokens, values, n).measured;
        assert forall|i: int|
            0 <= i < n && (#[trigger] values[i]) is Wind && (forall|j: int|
                i < j < n
                    ==> !((#[trigger] values[j]) is Wind))
                        implies told.wind_direction_deg == values[i]->Wind_0
                            && told.wind_speed_kt == values[i]->Wind_1
                                && told.wind_gust_kt == values[i]->Wind_2 by {
            if i < m {
                assert(!(values[m as int] is Wind));
            }
        }
        if forall|i: int| 0 <= i < n ==> !((#[trigger] values[i]) is Wind) {
            assert(!(values[m as int] is Wind));
        }
    }
}

proof fn lemma_rain_of_tokens(
    blank: ObservationModel,
    tokens: Seq<Seq<char>>,
    values: Seq<TokenValue>,
    n: nat,
)
    requires
        n <= values.len(),
        blank.measured.temperature_c is None,
        blank.measured.wind_direction_deg is None,
        blank.measured.wind_speed_kt is None,
        blank.measured.wind_gust_kt is None,
        blank.measured.precipitation_mm is None,
        blank.measured.visibility_km is None,
        blank.measured.pressure_hpa is None,
    ensures
        ({
            let told = with_tokens(blank, tokens, values, n).measured;
            &&& forall|i: int|
                0 <= i < n && (#[trigger] values[i]) is Rain && (forall|j: int|
                    i < j < n ==> !((#[trigger] values[j]) is Rain))
                        ==> told.precipitation_mm == values[i]->Rain_0
            &&& (forall|i: int| 0 <= i < n ==> !((#[trigger] values[i]) is Rain))
                ==> told.precipitation_mm is None
        }),
    decreases n,
{
    if n > 0 {
        let m = (n - 1) as nat;
        lemma_rain_of_tokens(blank, tokens, values, m);
        let told = with_tokens(blank, tokens, values, n).measured;
        assert forall|i: int|
            0 <= i < n && (#[trigger] values[i]) is Rain && (forall|j: int|
                i < j < n
                    ==> !((#[trigger] values[j]) is Rain))
                        implies told.precipitation_mm == values[i]->Rain_0 by {
            if i < m {
                assert(!(values[m as int] is Rain));
            }
        }
        if forall|i: int| 0 <= i < n ==> !((#[trigger] values[i]) is Rain) {
            assert(!(values[m as int] is Rain));
        }
    }
}

proof fn lemma_visibility_of_tokens(
    blank: ObservationModel,
    tokens: Seq<Seq<char>>,
    values: Seq<TokenValue>,
    n: nat,
)
    requires
        n <= values.len(),
        blank.measured.temperature_c is None,
        blank.measured.wind_direction_deg is None,
        blank.measured.wind_speed_kt is None,
        blank.measured.wind_gust_kt is None,
        blank.measured.precipitation_mm is None,
        blank.measured.visibility_km is None,
        blank.measured.pressure_hpa is None,
    ensures
        ({
            let told = with_tokens(blank, tokens, values, n).measured;
            &&& forall|i: int|
                0 <= i < n && (#[trigger] values[i]) is Visibility && (forall|j: int|
                    i < j < n ==> !((#[trigger] values[j]) is Visibility))
                        ==> told.visibility_km == values[i]->Visibility_0
            &&& (forall|i: int| 0 <= i < n ==> !((#[trigger] values[i]) is Visibility))
                ==> told.visibility_km is None
        }),
    decreases n,
{
    if n > 0 {
        let m = (n - 1) as nat;
        lemma_visibility_of_tokens(blank, tokens, values, m);
        let told = with_tokens(blank, tokens, values, n).measured;
        assert forall|i: int|
            0 <= i < n && (#[trigger] values[i]) is Visibility && (forall|j: int|
                i < j < n
                    ==> !((#[trigger] values[j]) is Visibility))
                        implies told.visibility_km == values[i]->Visibility_0 by {
            if i < m {
                assert(!(values[m as int] is Visibility));
            }
        }
        if forall|i: int| 0 <= i < n ==> !((#[trigger] values[i]) is Visibility) {
            assert(!(values[m as int] is Visibility));
        }
    }
}

proof fn lemma_pressure_of_tokens(
    blank: ObservationModel,
    tokens: Seq<Seq<char>>,
    values: Seq<TokenValue>,
    n: nat,
)
    requires
        n <= values.len(),
        blank.measured.temperature_c is None,
        blank.measured.wind_direction_deg is None,
        blank.measured.wind_speed_kt is None,
        blank.measured.wind_gust_kt is None,
        blank.measured.precipitation_mm is None,
        blank.measured.visibility_km is None,
        blank.measured.pressure_hpa is None,
    ensures
        ({
            let told = with_tokens(blank, tokens, values, n).measured;
            &&& forall|i: int|
                0 <= i < n && (#[trigger] values[i]) is Pressure && (forall|j: int|
                    i < j < n ==> !((#[trigger] values[j]) is Pressure))
                        ==> told.pressure_hpa == values[i]->Pressure_0
            &&& (forall|i: int| 0 <= i < n ==> !((#[trigger] values[i]) is Pressure))
                ==> told.pressure_hpa is None
        }),
    decreases n,
{
    if n > 0 {
        let m = (n - 1) as nat;
        lemma_pressure_of_tokens(blank, tokens, values, m);
        let told = with_tokens(blank, tokens, values, n).measured;
        assert forall|i: int|
            0 <= i < n && (#[trigger] values[i]) is Pressure && (forall|j: int|
                i < j < n
                    ==> !((#[trigger] values[j]) is Pressure))
                        implies told.pressure_hpa == values[i]->Pressure_0 by {
            if i < m {
                assert(!(values[m as int] is Pressure));
            }
        }
        if forall|i: int| 0 <= i < n ==> !((#[trigger] values[i]) is Pressure) {
            assert(!(values[m as int] is Pressure));
        }
    }
}

proof fn lemma_temperature_of_tokens(
    blank: ObservationModel,
    tokens: Seq<Seq<char>>,
    values: Seq<TokenValue>,
    n: nat,
)
    requires
        n <= values.len(),
        blank.measured.temperature_c is None,
        blank.measured.wind_direction_deg is None,
        blank.measured.wind_speed_kt is None,
        blank.measured.wind_gust_kt is None,
        blank.measured.precipitation_mm is None,
        blank.measured.visibility_km is None,
        blank.measured.pressure_hpa is None,
    ensures
        ({
            let told = with_tokens(blank, tokens, values, n).measured;
            &&& forall|i: int|
                0 <= i < n && (#[trigger] values[i]) is Temperature
                    && values[i]->Temperature_0 is Some
                    && (forall|j: int|
                    0 <= j < i && (#[trigger] values[j]) is Temperature
                        ==> values[j]->Temperature_0 is None)
                    ==> told.temperature_c == values[i]->Temperature_0 && told.dewpoint_c
                    == values[i]->Temperature_1
            &&& (forall|i: int|
                0 <= i < n && (#[trigger] values[i]) is Temperature
                    ==> values[i]->Temperature_0 is None)
                ==> told.temperature_c is None
        }),
    decreases n,
{
    if n > 0 {
        let m = (n - 1) as nat;
        lemma_temperature_of_tokens(blank, tokens, values, m);
        let told = with_tokens(blank, tokens, values, n).measured;
        if forall|i: int|
            0 <= i < n && (#[trigger] values[i]) is Temperature
                ==> values[i]->Temperature_0 is None {
            assert(values[m as int] is Temperature ==> values[m as int]->Temperature_0 is None);
        }
        assert forall|i: int|
            0 <= i < n && (#[trigger] values[i]) is Temperature && values[i]->Temperature_0 is Some
                && (forall|j: int|
                0 <= j < i && (#[trigger] values[j]) is Temperature
                    ==> values[j]->Temperature_0 is None)
            implies told.temperature_c == values[i]->Temperature_0 && told.dewpoint_c
            == values[i]->Temperature_1 by {
            if i == m {
                assert(with_tokens(blank, tokens, values, m).measured.temperature_c is None);
            }
        }
    }
}

/// An observation of a line says where its humidity was derived, and where its rain or its clouds
/// are missing.
pub proof fn law_lines_say_what_is_missing<A: Arithmetic>(
    a: &A,
    line: Seq<char>,
    station: Seq<char>,
    zone: Seq<char>,
    raw_ref: Seq<char>,
    o: ObservationRecord,
)
    requires
        line_means(a, line, station, zone, raw_ref, Ok(Some(o@))),
    ensures
        o@.flags.contains(FlagModel::DerivedRelativeHumidity) <==> o.relative_humidity_pct is Some,
        o@.flags.contains(FlagModel::SourceFieldMissing("precip-token"@))
            <==> o.precipitation_mm is None,
        o@.flags.contains(FlagModel::SourceFieldMissing("cloud-layer"@))
            <==> o.cloud_cover_code is None,
{
    let tokens = words(line);
    let skip = byte_len(crate::domain::iem_code(station));
    let local = crate::ncei::stamp_time(crate::ncei::stamp_in(tokens[1], skip), zone)->Ok_0;
    let blank = crate::domain::blank_observation(
        station,
        DataSource::NceiAsosFiveMinute,
        station,
        local,
        raw_ref,
    );
    assert(tokens_make(a, blank, tokens, o@));
    let values = choose|values: Seq<TokenValue>| #[trigger]
        tokens_mean(a, tokens, values) && ncei_completes(
            a,
            with_tokens(blank, tokens, values, tokens.len()),
            o@,
        );
    let told = with_tokens(blank, tokens, values, tokens.len());
    lemma_no_flags_of_tokens(blank, tokens, values, tokens.len());
    let (h, u, v) = choose|h: Option<Reading>, u: Option<Reading>, v: Option<Reading>|
        {
            &&& #[trigger] humidity_follows(
                a,
                told.measured.temperature_c,
                told.measured.dewpoint_c,
                h,
            )
            &&& #[trigger] wind_splits(
                a,
                told.measured.wind_direction_deg,
                told.measured.wind_speed_kt,
                u,
                v,
            )
            &&& o@ == ncei_complete(told, h, u, v)
        };
    assert(o@.measured == o.measured());
    let derived = flag_if(h is Some, FlagModel::DerivedRelativeHumidity);
    let rain = flag_if(
        told.measured.precipitation_mm is None,
        FlagModel::SourceFieldMissing("precip-token"@),
    );
    let clouds = flag_if(
        told.cloud_cover_code is None,
        FlagModel::SourceFieldMissing("cloud-layer"@),
    );
    lemma_flag_if(h is Some, FlagModel::DerivedRelativeHumidity);
    lemma_flag_if(
        told.measured.precipitation_mm is None,
        FlagModel::SourceFieldMissing("precip-token"@),
    );
    lemma_flag_if(
        told.cloud_cover_code is None,
        FlagModel::SourceFieldMissing("cloud-layer"@),
    );
    reveal_strlit("precip-token");
    reveal_strlit("cloud-layer");
    assert("precip-token"@[0] == 'p' && "cloud-layer"@[0] == 'c');
    assert(o@.flags == told.flags + derived + rain + clouds);
    lemma_either(told.flags, derived);
    lemma_either(told.flags + derived, rain);
    lemma_either(told.flags + derived + rain, clouds);
}

proof fn lemma_no_flags_of_tokens(
    blank: ObservationModel,
    tokens: Seq<Seq<char>>,
    values: Seq<TokenValue>,
    n: nat,
)
    ensures
        with_tokens(blank, tokens, values, n).flags == blank.flags,
        with_tokens(blank, tokens, values, n).measured.relative_humidity_pct
            == blank.measured.relative_humidity_pct,
    decreases n,
{
    if n > 0 {
        lemma_no_flags_of_tokens(blank, tokens, values, (n - 1) as nat);
    }
}

/// A line says its time in the twelve characters behind the code of the station in its second word,
/// on the clock of the zone.
pub proof fn law_lines_say_their_time_behind_the_station<A: Arithmetic>(
    a: &A,
    line: Seq<char>,
    station: Seq<char>,
    zone: Seq<char>,
    raw_ref: Seq<char>,
    o: ObservationRecord,
)
    requires
        line_means(a, line, station, zone, raw_ref, Ok(Some(o@))),
        forall|i: int| 0 <= i < station.len() ==> (#[trigger] station[i] as u32) < 0x80,
        forall|i: int|
            0 <= i < words(line)[1].len() ==> (#[trigger] words(line)[1][i] as u32) < 0x80,
    ensures
        ({
            let n = (if station.len() == 4 && station[0] == 'K' {
                3int
            } else {
                station.len() as int
            });
            let stamp = words(line)[1].subrange(n, n + 12);
            &&& words(line)[1].len() >= n + 12
            &&& civil_read(stamp, "%Y%m%d%H%M"@) is Some
            &&& resolved_in_zone(zone, (civil_read(stamp, "%Y%m%d%H%M"@)->0).0) == Some(
                o.observed_at_local,
            )
        }),
        o.local_date == date_numbered(o.observed_at_local.clock() / 86400),
{
    law_lines_say_what_their_tokens_say(a, line, station, zone, raw_ref, o);
    let tokens = words(line);
    let token = tokens[1];
    let code = crate::domain::iem_code(station);
    lemma_plain_bytes(station, 0);
    let n = (if station.len() == 4 && station[0] == 'K' {
        3int
    } else {
        station.len() as int
    });
    assert forall|i: int| 0 <= i < code.len() implies (#[trigger] code[i] as u32) < 0x80 by {
        if station.len() == 4 && station[0] == 'K' {
            assert(code[i] == station[i + 1]);
        }
    }
    lemma_plain_bytes(code, 0);
    assert(code.len() == n);
    lemma_plain_bytes(token, 0);
    lemma_plain_bytes(token, n as nat);
    let rest = token.skip(n);
    assert forall|i: int| 0 <= i < rest.len() implies (#[trigger] rest[i] as u32) < 0x80 by {
        assert(rest[i] == token[i + n]);
    }
    lemma_plain_bytes(rest, 12);
    assert(rest.take(12) =~= token.subrange(n, n + 12));
    let stamp = token.subrange(n, n + 12);
    assert(crate::ncei::stamp_in(token, n as nat) == Some(stamp));
    lemma_line_keeps_its_time(a, line, station, zone, raw_ref, o);
}

proof fn lemma_line_keeps_its_time<A: Arithmetic>(
    a: &A,
    line: Seq<char>,
    station: Seq<char>,
    zone: Seq<char>,
    raw_ref: Seq<char>,
    o: ObservationRecord,
)
    requires
        line_means(a, line, station, zone, raw_ref, Ok(Some(o@))),
    ensures
        crate::ncei::stamp_time(
            crate::ncei::stamp_in(words(line)[1], byte_len(crate::domain::iem_code(station))),
            zone,
        ) == Ok::<crate::calendar::LocalTime, Seq<char>>(o.observed_at_local),
        o.local_date == date_numbered(o.observed_at_local.clock() / 86400),
{
    let tokens = words(line);
    let skip = byte_len(crate::domain::iem_code(station));
    let local = crate::ncei::stamp_time(crate::ncei::stamp_in(tokens[1], skip), zone)->Ok_0;
    let blank = crate::domain::blank_observation(
        station,
        DataSource::NceiAsosFiveMinute,
        station,
        local,
        raw_ref,
    );
    assert(tokens_make(a, blank, tokens, o@));
    let values = choose|values: Seq<TokenValue>| #[trigger]
        tokens_mean(a, tokens, values) && ncei_completes(
            a,
            with_tokens(blank, tokens, values, tokens.len()),
            o@,
        );
    lemma_kept_by_tokens(blank, tokens, values, tokens.len());
    assert(o@.local == o.observed_at_local);
}

/// The observations of a file of lines are those of its lines with ten words or more and with room
/// for a time, in their order, each made of its own line.
pub proof fn law_files_are_read_line_by_line<A: Arithmetic>(
    a: &A,
    content: &str,
    station: &StationRecord,
    raw_ref: &str,
    observations: Vec<ObservationRecord>,
)
    requires
        call_ensures(
            normalize_ncei::<A>,
            (a, content, station, raw_ref),
            Ok::<Vec<ObservationRecord>, Failure>(observations),
        ),
    ensures
        observations@.len() == lines(content@).filter(
            |line: Seq<char>|
                words(line).len() >= 10 && byte_len(words(line)[1]) >= byte_len(
                    crate::domain::iem_code(station.station_id@),
                ) + 12,
        ).len(),
        exists|positions: Seq<int>|
            {
                &&& #[trigger] are_rising_positions(positions, lines(content@).len())
                &&& positions.len() == observations@.len()
                &&& forall|k: int|
                    0 <= k < observations@.len() ==> line_means(
                        a,
                        lines(content@)[positions[k]],
                        station.station_id@,
                        station.timezone@,
                        raw_ref@,
                        Ok(Some((#[trigger] observations@[k])@)),
                    )
            },
{
    let rows = lines(content@);
    let models = crate::domain::observation_models(observations@);
    let code = station.station_id@;
    let zone = station.timezone@;
    let outs = choose|outs: Seq<Option<ObservationModel>>|
        {
            &&& outs.len() == rows.len()
            &&& forall|i: int|
                0 <= i < rows.len() ==> line_means(
                    a,
                    rows[i],
                    code,
                    zone,
                    raw_ref@,
                    Ok(#[trigger] outs[i]),
                )
            &&& models == #[trigger] crate::domain::kept(outs)
        };
    let positions = lemma_kept_positions(outs);
    assert(models.len() == observations@.len());
    assert(are_rising_positions(positions, lines(content@).len()));
    assert forall|k: int| 0 <= k < observations@.len() implies line_means(
        a,
        rows[positions[k]],
        code,
        zone,
        raw_ref@,
        Ok(Some((#[trigger] observations@[k])@)),
    ) by {
        assert(models[k] == observations@[k]@);
        assert(outs[positions[k]] == Some(models[k]));
    }
    let p = |line: Seq<char>|
        words(line).len() >= 10 && byte_len(words(line)[1]) >= byte_len(
            crate::domain::iem_code(station.station_id@),
        ) + 12;
    assert forall|k: int| 0 <= k < rows.len()
        implies ((#[trigger] outs[k]) is Some <==> p(rows[k])) by {
        assert(line_means(a, rows[k], code, zone, raw_ref@, Ok(outs[k])));
    }
    lemma_kept_count(rows, outs, p);
}

} // verus!
