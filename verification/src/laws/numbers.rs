//! Readings: their order is that of the numbers that their bits stand for.
use vstd::arithmetic::power2::{
    lemma_pow2_pos, lemma_pow2_strictly_increases, lemma_pow2_unfold, pow2,
};
use vstd::prelude::*;
use crate::reading::Reading;

verus! {

/// The eleven bits of the exponent.
pub open spec fn exponent_bits(reading: Reading) -> int {
    (reading.bits as int) / 0x10_0000_0000_0000 % 2048
}

/// The fifty-two bits of the fraction.
pub open spec fn fraction_bits(reading: Reading) -> int {
    (reading.bits as int) % 0x10_0000_0000_0000
}

/// The number that a double stands for, in units of its smallest positive one. Infinity counts as
/// the power of two behind the largest.
pub open spec fn number_of(reading: Reading) -> int {
    let exponent = exponent_bits(reading);
    let size = if exponent == 0 {
        fraction_bits(reading)
    } else {
        (0x10_0000_0000_0000 + fraction_bits(reading)) * pow2((exponent - 1) as nat)
    };
    if reading.bits as int / 0x8000_0000_0000_0000 == 1 {
        -size
    } else {
        size
    }
}

spec fn size_of(magnitude: int) -> int {
    let exponent = magnitude / 0x10_0000_0000_0000 % 2048;
    if exponent == 0 {
        magnitude % 0x10_0000_0000_0000
    } else {
        (0x10_0000_0000_0000 + magnitude % 0x10_0000_0000_0000) * pow2((exponent - 1) as nat)
    }
}

proof fn lemma_sizes_rise(one: int, other: int)
    requires
        0 <= one < other < 0x8000_0000_0000_0000,
    ensures
        0 <= size_of(one) < size_of(other),
{
    let unit: int = 0x10_0000_0000_0000;
    let e = one / unit % 2048;
    let f = other / unit % 2048;
    let x = one % unit;
    let y = other % unit;
    assert(e == one / unit && f == other / unit);
    if f > 0 {
        lemma_pow2_pos((f - 1) as nat);
    }
    if e > 0 {
        lemma_pow2_pos((e - 1) as nat);
        let p = pow2((e - 1) as nat) as int;
        assert((unit + x) * p >= 0) by (nonlinear_arith)
            requires
                unit + x >= 0,
                p >= 0,
        ;
    }
    if e == f {
        if e > 0 {
            let p = pow2((e - 1) as nat) as int;
            assert((unit + x) * p < (unit + y) * p) by (nonlinear_arith)
                requires
                    x < y,
                    p > 0,
            ;
        }
    } else {
        assert(e < f);
        let q = pow2((f - 1) as nat) as int;
        if e == 0 {
            assert(unit <= (unit + y) * q) by (nonlinear_arith)
                requires
                    y >= 0,
                    q >= 1,
                    unit > 0,
            ;
        } else {
            let p = pow2((e - 1) as nat) as int;
            lemma_pow2_unfold(e as nat);
            assert(pow2(e as nat) == 2 * p);
            if e < f - 1 {
                lemma_pow2_strictly_increases(e as nat, (f - 1) as nat);
            }
            assert(2 * p <= q);
            assert((unit + x) * p < (unit + y) * q) by (nonlinear_arith)
                requires
                    0 <= x < unit,
                    y >= 0,
                    p > 0,
                    2 * p <= q,
            ;
        }
    }
}

proof fn lemma_number(reading: Reading)
    ensures
        number_of(reading) == (if reading.negative() {
            -size_of(reading.magnitude())
        } else {
            size_of(reading.magnitude())
        }),
        0 <= reading.magnitude() < 0x8000_0000_0000_0000,
        size_of(0) == 0,
        reading.is_nan() <==> exponent_bits(reading) == 2047 && fraction_bits(reading) != 0,
{
}

/// A reading is at least another exactly where both are numbers and its number is at least the
/// other's, and the total order of readings puts the smaller of two numbers first.
pub proof fn law_readings_compare_as_numbers(one: Reading, other: Reading)
    ensures
        one.is_nan() <==> exponent_bits(one) == 2047 && fraction_bits(one) != 0,
        one.at_least(other) <==> !one.is_nan() && !other.is_nan() && number_of(one) >= number_of(
            other,
        ),
        !one.is_nan() && !other.is_nan() && number_of(one) < number_of(other)
            ==> one.total_rank() < other.total_rank(),
        one.total_rank() == other.total_rank() ==> one == other,
{
    lemma_number(one);
    lemma_number(other);
    let x = one.magnitude();
    let y = other.magnitude();
    if x > 0 {
        lemma_sizes_rise(0, x);
    }
    if y > 0 {
        lemma_sizes_rise(0, y);
    }
    if x < y {
        lemma_sizes_rise(x, y);
    } else if y < x {
        lemma_sizes_rise(y, x);
    }
}

/// The opposite of a reading stands for the opposite number, and is itself the opposite of it.
pub proof fn law_opposite_readings_are_opposite_numbers(reading: Reading)
    ensures
        number_of(reading.negated()) == -number_of(reading),
        reading.negated().negated() == reading,
        reading.negated().is_nan() <==> reading.is_nan(),
{
    lemma_number(reading);
    lemma_number(reading.negated());
    assert(reading.negated().magnitude() == reading.magnitude());
}

/// The larger and the smaller of two numbers are these two, and one is at least the other.
pub proof fn law_the_larger_is_at_least_the_smaller(one: Reading, other: Reading)
    requires
        !one.is_nan(),
        !other.is_nan(),
    ensures
        one.larger(other) == one || one.larger(other) == other,
        one.smaller(other) == one || one.smaller(other) == other,
        number_of(one.larger(other)) >= number_of(one),
        number_of(one.larger(other)) >= number_of(other),
        number_of(one.smaller(other)) <= number_of(one),
        number_of(one.smaller(other)) <= number_of(other),
{
    law_readings_compare_as_numbers(one, other);
    law_readings_compare_as_numbers(other, one);
}

} // verus!
