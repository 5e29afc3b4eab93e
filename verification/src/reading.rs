//! Measured values, and the arithmetic on them that callers supply.
//!
//! A reading is held as the bit pattern of an IEEE 754 double. Comparing two readings is a
//! matter of whole numbers, so it is done and proved here. Everything that rounds (sums,
//! quotients, unit conversions, reading a decimal numeral) is reached through [`Arithmetic`];
//! the functions of this library are proved for every implementation of it, and their contracts
//! say which of its methods are called on which values.
use vstd::prelude::*;

verus! {

/// A measured value: the bit pattern of an IEEE 754 double.
#[derive(Debug, Clone, Copy, PartialEq, Eq, Structural)]
pub struct Reading {
    pub bits: u64,
}

pub const SIGN: u64 = 0x8000_0000_0000_0000;

/// The magnitude bits of infinity: what lies above it is not a number.
pub const INFINITE: u64 = 0x7ff0_0000_0000_0000;

impl Reading {
    pub open spec fn negative(self) -> bool {
        self.bits >= SIGN
    }

    /// The bits without the sign.
    pub open spec fn magnitude(self) -> int {
        if self.negative() {
            self.bits - SIGN
        } else {
            self.bits as int
        }
    }

    pub open spec fn is_nan(self) -> bool {
        self.magnitude() > INFINITE
    }

    /// Numbers compare as these whole numbers do; both zeros stand at 0.
    pub open spec fn rank(self) -> int {
        if self.negative() {
            -self.magnitude()
        } else {
            self.magnitude()
        }
    }

    /// The total order of bit patterns: negative before positive, and not-a-number outermost.
    pub open spec fn total_rank(self) -> int {
        if self.negative() {
            -self.magnitude() - 1
        } else {
            self.magnitude()
        }
    }

    /// `self >= other`: false where either is not a number.
    pub open spec fn at_least(self, other: Reading) -> bool {
        !self.is_nan() && !other.is_nan() && self.rank() >= other.rank()
    }

    /// The larger of the two, ignoring what is not a number.
    pub open spec fn larger(self, other: Reading) -> Reading {
        if self.is_nan() {
            other
        } else if other.is_nan() || self.rank() >= other.rank() {
            self
        } else {
            other
        }
    }

    /// The smaller of the two, ignoring what is not a number.
    pub open spec fn smaller(self, other: Reading) -> Reading {
        if self.is_nan() {
            other
        } else if other.is_nan() || self.rank() <= other.rank() {
            self
        } else {
            other
        }
    }

    /// The reading with the opposite sign.
    pub open spec fn negated(self) -> Reading {
        if self.negative() {
            Reading { bits: (self.bits - SIGN) as u64 }
        } else {
            Reading { bits: (self.bits + SIGN) as u64 }
        }
    }

    fn not_a_number(self) -> (r: bool)
        ensures
            r == self.is_nan(),
    {
        if self.bits >= SIGN {
            self.bits - SIGN > INFINITE
        } else {
            self.bits > INFINITE
        }
    }

    fn order_rank(self) -> (r: i64)
        requires
            !self.is_nan(),
        ensures
            r == self.rank(),
    {
        if self.bits >= SIGN {
            -((self.bits - SIGN) as i64)
        } else {
            self.bits as i64
        }
    }

    /// A whole number that orders readings as their total order does.
    pub fn total_key(self) -> (r: i64)
        ensures
            r == self.total_rank(),
    {
        if self.bits >= SIGN {
            -((self.bits - SIGN) as i64) - 1
        } else {
            self.bits as i64
        }
    }

    /// Whether this reading reaches the other one.
    pub fn reaches(self, other: Reading) -> (r: bool)
        ensures
            r == self.at_least(other),
    {
        !self.not_a_number() && !other.not_a_number() && self.order_rank() >= other.order_rank()
    }

    pub fn max(self, other: Reading) -> (r: Reading)
        ensures
            r == self.larger(other),
    {
        if self.not_a_number() {
            other
        } else if other.not_a_number() || self.order_rank() >= other.order_rank() {
            self
        } else {
            other
        }
    }

    pub fn min(self, other: Reading) -> (r: Reading)
        ensures
            r == self.smaller(other),
    {
        if self.not_a_number() {
            other
        } else if other.not_a_number() || self.order_rank() <= other.order_rank() {
            self
        } else {
            other
        }
    }

    pub fn negate(self) -> (r: Reading)
        ensures
            r == self.negated(),
    {
        if self.bits >= SIGN {
            Reading { bits: self.bits - SIGN }
        } else {
            Reading { bits: self.bits + SIGN }
        }
    }
}

/// The greatest of the values, if there are any.
pub open spec fn greatest(values: Seq<Reading>) -> Option<Reading>
    decreases values.len(),
{
    if values.len() == 0 {
        None
    } else if values.len() == 1 {
        Some(values[0])
    } else {
        Some(greatest(values.drop_last())->0.larger(values.last()))
    }
}

/// The least of the values, if there are any.
pub open spec fn least(values: Seq<Reading>) -> Option<Reading>
    decreases values.len(),
{
    if values.len() == 0 {
        None
    } else if values.len() == 1 {
        Some(values[0])
    } else {
        Some(least(values.drop_last())->0.smaller(values.last()))
    }
}

/// No value of the list reaches beyond its greatest one, and the greatest one is of the list.
pub proof fn law_greatest_bounds_the_values(values: Seq<Reading>, i: int)
    requires
        0 <= i < values.len(),
        !values[i].is_nan(),
    ensures
        greatest(values) is Some,
        greatest(values)->0.at_least(values[i]),
        values.contains(greatest(values)->0),
    decreases values.len(),
{
    lemma_extremes_are_members(values);
    if values.len() > 1 {
        let front = values.drop_last();
        lemma_extremes_are_members(front);
        if i < values.len() - 1 {
            assert(front[i] == values[i]);
            law_greatest_bounds_the_values(front, i);
        }
    }
}

/// No value of the list falls below its least one, and the least one is of the list.
pub proof fn law_least_bounds_the_values(values: Seq<Reading>, i: int)
    requires
        0 <= i < values.len(),
        !values[i].is_nan(),
    ensures
        least(values) is Some,
        values[i].at_least(least(values)->0),
        values.contains(least(values)->0),
    decreases values.len(),
{
    lemma_extremes_are_members(values);
    if values.len() > 1 {
        let front = values.drop_last();
        if i < values.len() - 1 {
            assert(front[i] == values[i]);
            law_least_bounds_the_values(front, i);
        }
    }
}

/// The greatest and the least of some values are among them, and there are such where there is a
/// value.
pub proof fn law_extremes_are_values(values: Seq<Reading>)
    ensures
        greatest(values) is Some <==> values.len() > 0,
        least(values) is Some <==> values.len() > 0,
        values.len() > 0 ==> values.contains(greatest(values)->0),
        values.len() > 0 ==> values.contains(least(values)->0),
{
    lemma_extremes_are_members(values);
}

proof fn lemma_extremes_are_members(values: Seq<Reading>)
    ensures
        values.len() > 0 ==> greatest(values) is Some && values.contains(greatest(values)->0),
        values.len() > 0 ==> least(values) is Some && values.contains(least(values)->0),
    decreases values.len(),
{
    if values.len() == 1 {
        assert(values[0] == values[0]);
    } else if values.len() > 1 {
        let front = values.drop_last();
        lemma_extremes_are_members(front);
        let a = choose|a: int| 0 <= a < front.len() && front[a] == greatest(front)->0;
        let b = choose|b: int| 0 <= b < front.len() && front[b] == least(front)->0;
        assert(values[a] == greatest(front)->0);
        assert(values[b] == least(front)->0);
        assert(values[values.len() - 1] == values.last());
    }
}

/// The greatest of the values.
pub fn greatest_of(values: &Vec<Reading>) -> (r: Option<Reading>)
    ensures
        r == greatest(values@),
{
    if values.len() == 0 {
        return None;
    }
    let mut best = values[0];
    let mut i: usize = 1;
    assert(values@.take(1).len() == 1);
    while i < values.len()
        invariant
            1 <= i <= values@.len(),
            greatest(values@.take(i as int)) == Some(best),
        decreases values@.len() - i,
    {
        assert(values@.take(i + 1).drop_last() =~= values@.take(i as int));
        best = best.max(values[i]);
        i += 1;
    }
    assert(values@.take(values@.len() as int) =~= values@);
    Some(best)
}

/// The least of the values.
pub fn least_of(values: &Vec<Reading>) -> (r: Option<Reading>)
    ensures
        r == least(values@),
{
    if values.len() == 0 {
        return None;
    }
    let mut best = values[0];
    let mut i: usize = 1;
    assert(values@.take(1).len() == 1);
    while i < values.len()
        invariant
            1 <= i <= values@.len(),
            least(values@.take(i as int)) == Some(best),
        decreases values@.len() - i,
    {
        assert(values@.take(i + 1).drop_last() =~= values@.take(i as int));
        best = best.min(values[i]);
        i += 1;
    }
    assert(values@.take(values@.len() as int) =~= values@);
    Some(best)
}

/// One pair of values whose difference counts towards the distance of two hours, the lesser in
/// their total order first. The scale is in tenths of the unit of the values.
#[derive(Debug, Clone, Copy, PartialEq, Eq, Structural)]
pub struct Contrast {
    pub lesser: Reading,
    pub greater: Reading,
    pub scale_tenths: u32,
}

/// A value that counts with a weight, in hundredths.
#[derive(Debug, Clone, Copy, PartialEq, Eq, Structural)]
pub struct Weighted {
    pub value: Reading,
    pub weight_hundredths: u32,
}

/// A day at some distance, and whether its high reached the threshold.
#[derive(Debug, Clone, Copy, PartialEq, Eq, Structural)]
pub struct Vote {
    pub distance: Reading,
    pub hit: bool,
}

/// The arithmetic on readings.
pub trait Arithmetic {
    /// The number that a decimal numeral spells, if it spells one.
    fn number(&self, text: &str) -> Option<Reading>;

    fn fahrenheit_to_celsius(&self, value: Reading) -> Reading;

    fn inches_hg_to_hpa(&self, value: Reading) -> Reading;

    fn kmh_to_knots(&self, value: Reading) -> Reading;

    fn pa_to_hpa(&self, value: Reading) -> Reading;

    fn meters_to_km(&self, value: Reading) -> Reading;

    fn inches_to_mm(&self, value: Reading) -> Reading;

    fn miles_to_km(&self, value: Reading) -> Reading;

    /// Hundredths of an inch of rain, in millimetres.
    fn hundredths_to_mm(&self, value: Reading) -> Reading;

    /// Hundredths of an inch of mercury, in hectopascals.
    fn hundredths_hg_to_hpa(&self, value: Reading) -> Reading;

    /// The sum of two values.
    fn plus(&self, left: Reading, right: Reading) -> Reading;

    /// The first value divided by the second.
    fn over(&self, left: Reading, right: Reading) -> Reading;

    fn relative_humidity_from_celsius(&self, temp_c: Reading, dewpoint_c: Reading) -> Reading;

    /// The eastward and northward parts of a wind.
    fn wind_components_knots(&self, direction_deg: Reading, speed_kt: Reading) -> (Reading, Reading);

    /// The mean of one or more values.
    fn mean(&self, values: &Vec<Reading>) -> Reading;

    /// The sum of the values.
    fn total(&self, values: &Vec<Reading>) -> Reading;

    /// The share of `hits` in `matches`.
    fn share(&self, hits: usize, matches: usize) -> Reading;

    /// The root of the mean of the squared, scaled differences.
    fn separation(&self, contrasts: &Vec<Contrast>) -> Reading;

    /// The share of the hits in votes that weigh the more the closer they are, each as one over its
    /// distance and some hundredths; none where the weights vanish.
    fn vote_share(&self, votes: &Vec<Vote>, softening_hundredths: u32) -> Option<Reading>;

    /// The mean of the values under their weights.
    fn blend(&self, values: &Vec<Weighted>) -> Reading;
}

/// The arithmetic makes one distance of the same values, and one mean.
pub open spec fn measures_alike<A: Arithmetic>(a: &A) -> bool {
    &&& forall|x: &Vec<Contrast>, y: &Vec<Contrast>, r: Reading, s: Reading|
        x@ == y@ && #[trigger] call_ensures(A::separation, (a, x), r) && #[trigger] call_ensures(
            A::separation,
            (a, y),
            s,
        ) ==> r == s
    &&& forall|x: &Vec<Reading>, y: &Vec<Reading>, r: Reading, s: Reading|
        x@ == y@ && #[trigger] call_ensures(A::mean, (a, x), r) && #[trigger] call_ensures(
            A::mean,
            (a, y),
            s,
        ) ==> r == s
}

} // verus!
