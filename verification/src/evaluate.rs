//! Numbers out of text, and values that follow from other values of an observation.
use vstd::prelude::*;
use crate::reading::{Arithmetic, Reading};
use crate::text::to_text;

verus! {

/// The arithmetic reads this number out of the text, or none.
pub open spec fn reads_number<A: Arithmetic>(a: &A, text: Seq<char>, out: Option<Reading>) -> bool {
    exists|s: &str| s@ == text && #[trigger] call_ensures(A::number, (a, s), out)
}

/// The arithmetic reads this number out of the text, where there is a text.
pub open spec fn reads_optional<A: Arithmetic>(
    a: &A,
    text: Option<Seq<char>>,
    out: Option<Reading>,
) -> bool {
    match text {
        Some(t) => reads_number(a, t, out),
        None => out is None,
    }
}

/// The number that the characters spell, if they spell one.
pub fn number_in<A: Arithmetic>(a: &A, chars: &[char]) -> (r: Option<Reading>)
    ensures
        reads_number(a, chars@, r),
{
    let text = to_text(chars);
    let s: &str = text.as_str();
    let r = a.number(s);
    assert(s@ == chars@ && call_ensures(A::number, (a, s), r));
    r
}

/// The relative humidity that follows from a temperature and a dew point; none where one of them
/// is missing.
pub open spec fn humidity_follows<A: Arithmetic>(
    a: &A,
    temperature_c: Option<Reading>,
    dewpoint_c: Option<Reading>,
    out: Option<Reading>,
) -> bool {
    match (temperature_c, dewpoint_c, out) {
        (Some(t), Some(d), Some(h)) => call_ensures(
            A::relative_humidity_from_celsius,
            (a, t, d),
            h,
        ),
        (Some(_), Some(_), None) => false,
        _ => out is None,
    }
}

pub fn humidity<A: Arithmetic>(
    a: &A,
    temperature_c: Option<Reading>,
    dewpoint_c: Option<Reading>,
) -> (r: Option<Reading>)
    ensures
        humidity_follows(a, temperature_c, dewpoint_c, r),
{
    match (temperature_c, dewpoint_c) {
        (Some(t), Some(d)) => Some(a.relative_humidity_from_celsius(t, d)),
        _ => None,
    }
}

/// The parts of a wind that follow from its direction and speed; none where one of them is
/// missing.
pub open spec fn wind_splits<A: Arithmetic>(
    a: &A,
    direction_deg: Option<Reading>,
    speed_kt: Option<Reading>,
    u: Option<Reading>,
    v: Option<Reading>,
) -> bool {
    match (direction_deg, speed_kt) {
        (Some(d), Some(s)) => match (u, v) {
            (Some(east), Some(north)) => call_ensures(
                A::wind_components_knots,
                (a, d, s),
                (east, north),
            ),
            _ => false,
        },
        _ => u is None && v is None,
    }
}

pub fn wind_parts<A: Arithmetic>(
    a: &A,
    direction_deg: Option<Reading>,
    speed_kt: Option<Reading>,
) -> (r: (Option<Reading>, Option<Reading>))
    ensures
        wind_splits(a, direction_deg, speed_kt, r.0, r.1),
{
    match (direction_deg, speed_kt) {
        (Some(d), Some(s)) => {
            let (u, v) = a.wind_components_knots(d, s);
            (Some(u), Some(v))
        },
        _ => (None, None),
    }
}

/// A value in degrees Celsius, of one in degrees Fahrenheit.
pub open spec fn celsius<A: Arithmetic>(a: &A, from: Option<Reading>, to: Option<Reading>) -> bool {
    match (from, to) {
        (Some(f), Some(c)) => call_ensures(A::fahrenheit_to_celsius, (a, f), c),
        (None, None) => true,
        _ => false,
    }
}

/// A value in hectopascals, of one in inches of mercury.
pub open spec fn hectopascals<A: Arithmetic>(
    a: &A,
    from: Option<Reading>,
    to: Option<Reading>,
) -> bool {
    match (from, to) {
        (Some(i), Some(h)) => call_ensures(A::inches_hg_to_hpa, (a, i), h),
        (None, None) => true,
        _ => false,
    }
}

/// A value in millimetres, of one in inches.
pub open spec fn millimetres<A: Arithmetic>(
    a: &A,
    from: Option<Reading>,
    to: Option<Reading>,
) -> bool {
    match (from, to) {
        (Some(i), Some(m)) => call_ensures(A::inches_to_mm, (a, i), m),
        (None, None) => true,
        _ => false,
    }
}

/// A value in kilometres, of one in miles.
pub open spec fn kilometres<A: Arithmetic>(
    a: &A,
    from: Option<Reading>,
    to: Option<Reading>,
) -> bool {
    match (from, to) {
        (Some(m), Some(k)) => call_ensures(A::miles_to_km, (a, m), k),
        (None, None) => true,
        _ => false,
    }
}

pub fn to_celsius<A: Arithmetic>(a: &A, from: Option<Reading>) -> (r: Option<Reading>)
    ensures
        celsius(a, from, r),
{
    match from {
        Some(value) => Some(a.fahrenheit_to_celsius(value)),
        None => None,
    }
}

pub fn to_hectopascals<A: Arithmetic>(a: &A, from: Option<Reading>) -> (r: Option<Reading>)
    ensures
        hectopascals(a, from, r),
{
    match from {
        Some(value) => Some(a.inches_hg_to_hpa(value)),
        None => None,
    }
}

pub fn to_millimetres<A: Arithmetic>(a: &A, from: Option<Reading>) -> (r: Option<Reading>)
    ensures
        millimetres(a, from, r),
{
    match from {
        Some(value) => Some(a.inches_to_mm(value)),
        None => None,
    }
}

pub fn to_kilometres<A: Arithmetic>(a: &A, from: Option<Reading>) -> (r: Option<Reading>)
    ensures
        kilometres(a, from, r),
{
    match from {
        Some(value) => Some(a.miles_to_km(value)),
        None => None,
    }
}

} // verus!
