//! The tokens of a METAR report: wind, rain, visibility, pressure, temperature and sky.
use vstd::prelude::*;
use crate::domain::cloud_fraction;
use crate::evaluate::{kilometres, number_in, reads_number, reads_optional, to_kilometres};
use crate::reading::{Arithmetic, Reading};
use crate::text::{
    after, begins, byte_count, byte_len, cut, ends, ends_with, has_char, head, leading,
    spells, split_once, starts_with, strip_ends, strip_prefix, trim, trimmed, without_ends,
};

verus! {

/// What a token is about, by its form.
#[derive(Debug, Clone, Copy, PartialEq, Eq, Structural)]
pub enum TokenKind {
    Wind,
    Rain,
    Visibility,
    Pressure,
    Temperature,
    Sky,
}

/// What a token is about: the first of the forms that it has.
pub open spec fn kind_of(token: Seq<char>) -> TokenKind {
    if ends_with(token, "KT"@) {
        TokenKind::Wind
    } else if starts_with(token, "P"@) && byte_len(token) == 5 {
        TokenKind::Rain
    } else if ends_with(token, "SM"@) {
        TokenKind::Visibility
    } else if starts_with(token, "A"@) && byte_len(token) == 5 {
        TokenKind::Pressure
    } else if token.contains('/') && !token.contains(':') && !ends_with(token, "Z"@) {
        TokenKind::Temperature
    } else {
        TokenKind::Sky
    }
}

pub fn token_kind(token: &[char]) -> (r: TokenKind)
    ensures
        r == kind_of(token@),
{
    let bytes: u128 = byte_count(token);
    if ends(token, "KT") {
        TokenKind::Wind
    } else if begins(token, "P") && bytes == 5 {
        TokenKind::Rain
    } else if ends(token, "SM") {
        TokenKind::Visibility
    } else if begins(token, "A") && bytes == 5 {
        TokenKind::Pressure
    } else if has_char(token, '/') && !has_char(token, ':') && !ends(token, "Z") {
        TokenKind::Temperature
    } else {
        TokenKind::Sky
    }
}

/// The texts of a wind token.
pub enum WindText {
    /// The token says nothing of the wind.
    Silent,
    /// The direction does not end between two characters.
    Broken,
    Given { direction: Option<Seq<char>>, speed: Seq<char>, gust: Option<Seq<char>> },
}

/// The speed and, behind a `G`, the gust.
pub open spec fn with_speed(direction: Option<Seq<char>>, rest: Seq<char>) -> WindText {
    match split_once(rest, 'G') {
        Some((speed, gust)) => WindText::Given { direction, speed, gust: Some(gust) },
        None => WindText::Given { direction, speed: rest, gust: None },
    }
}

/// The texts of a wind token: three bytes of direction, or `VRB` for none, then the speed and,
/// behind a `G`, the gust.
pub open spec fn wind_text(token: Seq<char>) -> WindText {
    let body = strip_ends(token, "KT"@);
    if body == "/////"@ || byte_len(body) < 5 {
        WindText::Silent
    } else {
        match strip_prefix(body, "VRB"@) {
            Some(rest) => with_speed(None, rest),
            None => match leading(body, 3) {
                Some(direction) => with_speed(Some(direction), body.skip(direction.len() as int)),
                None => WindText::Broken,
            },
        }
    }
}

/// What a wind token says: direction, speed and gust.
pub type Wind = (Option<Reading>, Option<Reading>, Option<Reading>);

/// A wind token says this; none where its direction is broken.
pub open spec fn wind_means<A: Arithmetic>(a: &A, token: Seq<char>, out: Option<Wind>) -> bool {
    match wind_text(token) {
        WindText::Silent => out == Some((None::<Reading>, None::<Reading>, None::<Reading>)),
        WindText::Broken => out is None,
        WindText::Given { direction, speed, gust } => match out {
            Some((d, s, g)) => {
                &&& reads_optional(a, direction, d)
                &&& reads_number(a, speed, s)
                &&& reads_optional(a, gust, g)
            },
            None => false,
        },
    }
}

/// Direction, speed and gust of a wind token; none where its direction is broken.
pub fn parse_metar_wind_token<A: Arithmetic>(a: &A, token: &[char]) -> (r: Option<Wind>)
    ensures
        wind_means(a, token@, r),
{
    let body = without_ends(token, "KT");
    let bytes: u128 = byte_count(body);
    if spells(body, "/////") || bytes < 5 {
        return Some((None, None, None));
    }
    let (direction, rest) = match after(body, "VRB") {
        Some(rest) => (None, rest),
        None => {
            match head(body, 3) {
                Some(part) => {
                    let rest = vstd::slice::slice_subrange(body, part.len(), body.len());
                    assert(rest@ =~= body@.skip(part@.len() as int));
                    (number_in(a, part), rest)
                },
                None => {
                    return None;
                },
            }
        },
    };
    match cut(rest, 'G') {
        Some((speed, gust)) => Some((direction, number_in(a, speed), number_in(a, gust))),
        None => Some((direction, number_in(a, rest), None)),
    }
}

/// The quotient of two numbers, where both are there.
pub open spec fn divides<A: Arithmetic>(
    a: &A,
    left: Option<Reading>,
    right: Option<Reading>,
    out: Option<Reading>,
) -> bool {
    match (left, right, out) {
        (Some(l), Some(r), Some(q)) => call_ensures(A::over, (a, l, r), q),
        (Some(_), Some(_), None) => false,
        _ => out is None,
    }
}

/// The quotient of the numbers that two texts spell.
pub open spec fn quotient_means<A: Arithmetic>(
    a: &A,
    above: Seq<char>,
    below: Seq<char>,
    out: Option<Reading>,
) -> bool {
    exists|n: Option<Reading>, d: Option<Reading>| #[trigger]
        reads_number(a, above, n) && #[trigger] reads_number(a, below, d) && divides(a, n, d, out)
}

/// A number of miles is a number, or a quotient of two.
pub open spec fn miles_mean<A: Arithmetic>(a: &A, token: Seq<char>, out: Option<Reading>) -> bool {
    match split_once(token, '/') {
        Some((above, below)) => quotient_means(a, above, below, out),
        None => reads_number(a, token, out),
    }
}

pub fn parse_miles_number<A: Arithmetic>(a: &A, token: &[char]) -> (r: Option<Reading>)
    ensures
        miles_mean(a, token@, r),
{
    match cut(token, '/') {
        Some((above, below)) => {
            let n = number_in(a, above);
            let d = number_in(a, below);
            let q = match (n, d) {
                (Some(left), Some(right)) => Some(a.over(left, right)),
                _ => None,
            };
            assert(divides(a, n, d, q));
            assert(quotient_means(a, above@, below@, q));
            q
        },
        None => number_in(a, token),
    }
}

/// The sum of two numbers, where both are there.
pub open spec fn sums<A: Arithmetic>(
    a: &A,
    left: Option<Reading>,
    right: Option<Reading>,
    out: Option<Reading>,
) -> bool {
    match (left, right, out) {
        (Some(l), Some(r), Some(s)) => call_ensures(A::plus, (a, l, r), s),
        (Some(_), Some(_), None) => false,
        _ => out is None,
    }
}

/// The kilometres of the miles that two texts spell together.
pub open spec fn mixed_means<A: Arithmetic>(
    a: &A,
    whole: Seq<char>,
    part: Seq<char>,
    out: Option<Reading>,
) -> bool {
    exists|w: Option<Reading>, p: Option<Reading>, s: Option<Reading>| #[trigger]
        miles_mean(a, whole, w) && #[trigger] miles_mean(a, part, p) && #[trigger] sums(a, w, p, s)
            && kilometres(a, s, out)
}

/// The kilometres of the miles that a text spells.
pub open spec fn plain_means<A: Arithmetic>(a: &A, body: Seq<char>, out: Option<Reading>) -> bool {
    exists|m: Option<Reading>| #[trigger] miles_mean(a, body, m) && kilometres(a, m, out)
}

/// A visibility token says a number of miles, or a whole number and a part behind a blank.
pub open spec fn visibility_means<A: Arithmetic>(
    a: &A,
    token: Seq<char>,
    out: Option<Reading>,
) -> bool {
    let body = strip_ends(token, "SM"@);
    match split_once(body, ' ') {
        Some((whole, part)) => mixed_means(a, whole, part, out),
        None => plain_means(a, body, out),
    }
}

/// The kilometres of a visibility token.
pub fn parse_visibility_token<A: Arithmetic>(a: &A, token: &[char]) -> (r: Option<Reading>)
    ensures
        visibility_means(a, token@, r),
{
    let body = without_ends(token, "SM");
    match cut(body, ' ') {
        Some((whole, part)) => {
            let w = parse_miles_number(a, whole);
            let p = parse_miles_number(a, part);
            let s = match (w, p) {
                (Some(left), Some(right)) => Some(a.plus(left, right)),
                _ => None,
            };
            let r = to_kilometres(a, s);
            assert(miles_mean(a, whole@, w) && miles_mean(a, part@, p) && sums(a, w, p, s));
            assert(mixed_means(a, whole@, part@, r));
            r
        },
        None => {
            let m = parse_miles_number(a, body);
            let r = to_kilometres(a, m);
            assert(plain_means(a, body@, r));
            r
        },
    }
}

/// The hectopascals of the hundredths of an inch of mercury that a text spells.
pub open spec fn mercury_means<A: Arithmetic>(a: &A, digits: Seq<char>, out: Option<Reading>) -> bool {
    exists|n: Option<Reading>| #[trigger]
        reads_number(a, digits, n) && match (n, out) {
            (Some(h), Some(p)) => call_ensures(A::hundredths_hg_to_hpa, (a, h), p),
            (None, None) => true,
            _ => false,
        }
}

/// A pressure token says hundredths of an inch of mercury behind an `A`.
pub open spec fn pressure_means<A: Arithmetic>(
    a: &A,
    token: Seq<char>,
    out: Option<Reading>,
) -> bool {
    match strip_prefix(token, "A"@) {
        Some(digits) => mercury_means(a, digits, out),
        None => out is None,
    }
}

/// The hectopascals of a pressure token.
pub fn parse_altimeter_token<A: Arithmetic>(a: &A, token: &[char]) -> (r: Option<Reading>)
    ensures
        pressure_means(a, token@, r),
{
    match after(token, "A") {
        Some(digits) => {
            let n = number_in(a, digits);
            let r = match n {
                Some(h) => Some(a.hundredths_hg_to_hpa(h)),
                None => None,
            };
            assert(mercury_means(a, digits@, r));
            r
        },
        None => None,
    }
}

/// The millimetres of the hundredths of an inch that a text spells.
pub open spec fn depth_means<A: Arithmetic>(a: &A, digits: Seq<char>, out: Option<Reading>) -> bool {
    exists|n: Option<Reading>| #[trigger]
        reads_number(a, digits, n) && match (n, out) {
            (Some(h), Some(p)) => call_ensures(A::hundredths_to_mm, (a, h), p),
            (None, None) => true,
            _ => false,
        }
}

/// A rain token says hundredths of an inch behind a `P`.
pub open spec fn rain_means<A: Arithmetic>(a: &A, token: Seq<char>, out: Option<Reading>) -> bool {
    match strip_prefix(token, "P"@) {
        Some(digits) => depth_means(a, digits, out),
        None => out is None,
    }
}

/// The millimetres of a rain token.
pub fn parse_ncei_precip_token<A: Arithmetic>(a: &A, token: &[char]) -> (r: Option<Reading>)
    ensures
        rain_means(a, token@, r),
{
    match after(token, "P") {
        Some(digits) => {
            let n = number_in(a, digits);
            let r = match n {
                Some(h) => Some(a.hundredths_to_mm(h)),
                None => None,
            };
            assert(depth_means(a, digits@, r));
            r
        },
        None => None,
    }
}

/// The number that a text spells, with the sign turned.
pub open spec fn negative_means<A: Arithmetic>(a: &A, digits: Seq<char>, out: Option<Reading>) -> bool {
    exists|n: Option<Reading>| #[trigger]
        reads_number(a, digits, n) && out == (match n {
            Some(value) => Some(value.negated()),
            None => None,
        })
}

/// A temperature is a number, negative behind an `M`; a bare `M` or `MM` stands for none.
pub open spec fn temperature_means<A: Arithmetic>(
    a: &A,
    token: Seq<char>,
    out: Option<Reading>,
) -> bool {
    let body = trim(token);
    if body.len() == 0 || body == "MM"@ || body == "M"@ {
        out is None
    } else {
        match strip_prefix(body, "M"@) {
            Some(digits) => negative_means(a, digits, out),
            None => reads_number(a, body, out),
        }
    }
}

pub fn parse_signed_metar_number<A: Arithmetic>(a: &A, token: &[char]) -> (r: Option<Reading>)
    ensures
        temperature_means(a, token@, r),
{
    let body = trimmed(token);
    if body.len() == 0 || spells(body, "MM") || spells(body, "M") {
        return None;
    }
    match after(body, "M") {
        Some(digits) => {
            let n = number_in(a, digits);
            let r = match n {
                Some(value) => Some(value.negate()),
                None => None,
            };
            assert(negative_means(a, digits@, r));
            r
        },
        None => number_in(a, body),
    }
}

/// What a temperature token says: temperature and dew point, on either side of the first slash.
pub open spec fn temperatures_mean<A: Arithmetic>(
    a: &A,
    token: Seq<char>,
    out: Option<(Option<Reading>, Option<Reading>)>,
) -> bool {
    match (split_once(token, '/'), out) {
        (Some((temperature, dewpoint)), Some((t, d))) => temperature_means(a, temperature, t)
            && temperature_means(a, dewpoint, d),
        (None, None) => true,
        _ => false,
    }
}

/// Temperature and dew point of a token; none where it has no slash.
pub fn parse_temp_dew_token<A: Arithmetic>(a: &A, token: &[char]) -> (r: Option<
    (Option<Reading>, Option<Reading>),
>)
    ensures
        temperatures_mean(a, token@, r),
{
    match cut(token, '/') {
        Some((temperature, dewpoint)) => Some(
            (parse_signed_metar_number(a, temperature), parse_signed_metar_number(a, dewpoint)),
        ),
        None => None,
    }
}

/// The cloud code that a sky token gives where no code is known yet: its first three bytes, where
/// they or the whole token are a cloud code.
pub open spec fn first_sky_code(token: Seq<char>) -> Option<Seq<char>> {
    match leading(token, 3) {
        Some(code) => if cloud_fraction(token) is Some || cloud_fraction(code) is Some {
            Some(code)
        } else {
            None
        },
        None => None,
    }
}

/// The share of the sky that the first three bytes of a sky token stand for.
pub open spec fn sky_fraction(token: Seq<char>) -> Option<Reading> {
    match leading(token, 3) {
        Some(code) => cloud_fraction(code),
        None => None,
    }
}

} // verus!
