//! IEEE-754 binary64 numbers, handled by their bit patterns.
//!
//! A finite pattern stands for `magnitude / 2^1074`, with a sign. The integer
//! `magnitude` makes doubling and the conversion from an integer exact to
//! state.

use vstd::arithmetic::div_mod::lemma_div_denominator;
use vstd::arithmetic::div_mod::lemma_div_multiples_vanish;
use vstd::arithmetic::div_mod::lemma_fundamental_div_mod;
use vstd::arithmetic::div_mod::lemma_fundamental_div_mod_converse;
use vstd::arithmetic::power2::lemma2_to64;
use vstd::arithmetic::power2::lemma2_to64_rest;
use vstd::arithmetic::power2::lemma_pow2_adds;
use vstd::arithmetic::power2::lemma_pow2_pos;
use vstd::arithmetic::power2::lemma_pow2_strictly_increases;
use vstd::arithmetic::power2::lemma_pow2_unfold;
use vstd::arithmetic::power2::pow2;
use vstd::prelude::*;

verus! {

pub const TWO_52: u64 = 0x0010_0000_0000_0000;

pub const TWO_53: u64 = 0x0020_0000_0000_0000;

pub const TWO_63: u64 = 0x8000_0000_0000_0000;

pub open spec fn is_negative(bits: u64) -> bool {
    bits >= TWO_63
}

/// The eleven exponent bits.
pub open spec fn exponent_field(bits: u64) -> nat {
    ((bits / TWO_52) % 2048) as nat
}

/// The fifty-two fraction bits.
pub open spec fn fraction_field(bits: u64) -> nat {
    (bits % TWO_52) as nat
}

/// Neither an infinity nor a NaN.
pub open spec fn is_finite(bits: u64) -> bool {
    exponent_field(bits) != 2047
}

/// The absolute value of a finite pattern, in units of `2^-1074`.
pub open spec fn magnitude(bits: u64) -> nat {
    if exponent_field(bits) == 0 {
        fraction_field(bits)
    } else {
        ((TWO_52 + fraction_field(bits)) * pow2((exponent_field(bits) - 1) as nat)) as nat
    }
}

/// The pattern of twice the value, or `None` where twice the value is not
/// finite.
pub open spec fn doubled_bits(bits: u64) -> Option<u64> {
    if exponent_field(bits) >= 2046 {
        None
    } else if exponent_field(bits) == 0 {
        Some((bits + fraction_field(bits)) as u64)
    } else {
        Some((bits + TWO_52) as u64)
    }
}

/// How many times the spacing of binary64 values doubles between `2^53` and `u`.
pub open spec fn spacing_exponent(u: nat) -> nat
    decreases u,
{
    if u < TWO_53 {
        0
    } else {
        1 + spacing_exponent(u / 2)
    }
}

/// The distance between neighbouring binary64 values around the integer `u`;
/// 1 below `2^53`, where every integer is a binary64 value.
pub open spec fn spacing(u: nat) -> nat {
    pow2(spacing_exponent(u))
}

/// The multiple of `unit` nearest to `u`; of two equally near, the even one.
pub open spec fn nearest_multiple(u: nat, unit: nat) -> nat {
    let below = u / unit;
    let rest = u % unit;
    if 2 * rest > unit || (2 * rest == unit && below % 2 == 1) {
        (below + 1) * unit
    } else {
        below * unit
    }
}

/// How many doublings bring a positive `u` below `2^52` up to `2^52` or more.
pub open spec fn normal_shift(u: nat) -> nat
    decreases
            (if u < TWO_52 {
                TWO_52 - u
            } else {
                0
            }),
{
    if u == 0 || u >= TWO_52 {
        0
    } else {
        1 + normal_shift(2 * u)
    }
}

/// The pattern of the binary64 value nearest to `u`.
pub open spec fn unsigned_bits(u: u64) -> u64 {
    if u == 0 {
        0
    } else if u < TWO_53 {
        ((1074 - normal_shift(u as nat)) * TWO_52 + u * pow2(normal_shift(u as nat))) as u64
    } else {
        ((1074 + spacing_exponent(u as nat)) * TWO_52 + nearest_multiple(
            u as nat,
            spacing(u as nat),
        ) / spacing(u as nat)) as u64
    }
}

/// The pattern of the binary64 value nearest to `i`.
pub open spec fn signed_bits(i: i64) -> u64 {
    if i < 0 {
        (TWO_63 + unsigned_bits((-i) as u64)) as u64
    } else {
        unsigned_bits(i as u64)
    }
}

/// Whether the pattern is neither an infinity nor a NaN.
pub fn finite(bits: u64) -> (yes: bool)
    ensures
        yes == is_finite(bits),
{
    (bits / TWO_52) % 2048 != 2047
}

/// Doubles a value: the exponent goes up by one, or, below the normal
/// range, the fraction doubles into it.
pub fn doubled(bits: u64) -> (twice: Option<u64>)
    ensures
        twice == doubled_bits(bits),
{
    let exponent = (bits / TWO_52) % 2048;
    if exponent >= 2046 {
        None
    } else if exponent == 0 {
        Some(bits + bits % TWO_52)
    } else {
        Some(bits + TWO_52)
    }
}

proof fn lemma_normal_shift_bound(u: nat, shift: nat)
    requires
        0 < u,
        u * pow2(shift) < TWO_53,
    ensures
        shift <= 52,
{
    if shift >= 53 {
        lemma2_to64_rest();
        if shift > 53 {
            lemma_pow2_strictly_increases(53, shift);
        }
        assert(u * pow2(shift) >= pow2(shift)) by (nonlinear_arith)
            requires
                u >= 1,
        ;
    }
}

proof fn lemma_spacing_bound(quotient: nat, unit: nat, exponent: nat)
    requires
        unit == pow2(exponent),
        quotient * unit <= u64::MAX,
        quotient >= TWO_53,
    ensures
        exponent < 11,
{
    if exponent >= 11 {
        lemma2_to64();
        if exponent > 11 {
            lemma_pow2_strictly_increases(11, exponent);
        }
        assert(quotient * unit >= 0x0020_0000_0000_0000 * 2048) by (nonlinear_arith)
            requires
                quotient >= 0x0020_0000_0000_0000,
                unit >= 2048,
        ;
    }
}

/// Converts an unsigned integer, rounding to the nearest binary64 value and
/// on a tie to the even one.
pub fn from_unsigned(u: u64) -> (bits: u64)
    ensures
        bits == unsigned_bits(u),
        bits < TWO_63,
{
    if u == 0 {
        return 0;
    }
    if u < TWO_53 {
        let mut significand: u64 = u;
        let mut shift: u64 = 0;
        proof {
            lemma2_to64();
        }
        while significand < TWO_52
            invariant
                0 < u < TWO_53,
                0 < significand < TWO_53,
                significand == u * pow2(shift as nat),
                normal_shift(u as nat) == shift + normal_shift(significand as nat),
                shift <= 52,
            decreases 52 - shift,
        {
            proof {
                lemma_pow2_unfold((shift + 1) as nat);
                assert(2 * (u * pow2(shift as nat)) == u * (2 * pow2(shift as nat)))
                    by (nonlinear_arith);
                lemma_normal_shift_bound(u as nat, (shift + 1) as nat);
            }
            significand = significand * 2;
            shift = shift + 1;
        }
        (1074 - shift) * TWO_52 + significand
    } else {
        let mut unit: u64 = 1;
        let mut exponent: u64 = 0;
        proof {
            lemma2_to64();
        }
        while u / unit >= TWO_53
            invariant
                u >= TWO_53,
                unit >= 1,
                unit == pow2(exponent as nat),
                exponent <= 11,
                spacing_exponent(u as nat) == exponent + spacing_exponent((u / unit) as nat),
            decreases 11 - exponent,
        {
            proof {
                lemma_fundamental_div_mod(u as int, unit as int);
                assert((u / unit) * unit <= u) by (nonlinear_arith)
                    requires
                        u == unit * (u / unit) + (u % unit),
                        u % unit >= 0,
                ;
                lemma_spacing_bound((u / unit) as nat, unit as nat, exponent as nat);
                lemma_pow2_strictly_increases(exponent as nat, 11);
                lemma2_to64();
                lemma_pow2_unfold((exponent + 1) as nat);
                lemma_div_denominator(u as int, unit as int, 2);
            }
            unit = unit * 2;
            exponent = exponent + 1;
        }
        let below = u / unit;
        let rest = u % unit;
        let significand = if rest > unit - rest || (rest == unit - rest && below % 2 == 1) {
            below + 1
        } else {
            below
        };
        proof {
            lemma_div_multiples_vanish(significand as int, unit as int);
            assert(significand * unit == unit * significand) by (nonlinear_arith);
        }
        (1074 + exponent) * TWO_52 + significand
    }
}

/// Converts a signed integer: the pattern of its absolute value, with the
/// sign bit where it is negative.
pub fn from_signed(i: i64) -> (bits: u64)
    ensures
        bits == signed_bits(i),
{
    if i < 0 {
        let size: u64 = if i == i64::MIN {
            TWO_63
        } else {
            (-i) as u64
        };
        TWO_63 + from_unsigned(size)
    } else {
        from_unsigned(i as u64)
    }
}

/// Doubling keeps the sign and doubles the magnitude exactly.
pub proof fn lemma_doubled_is_twice(bits: u64)
    requires
        doubled_bits(bits) is Some,
    ensures
        is_finite(doubled_bits(bits)->0),
        is_negative(doubled_bits(bits)->0) == is_negative(bits),
        magnitude(doubled_bits(bits)->0) == 2 * magnitude(bits),
{
    let twice = doubled_bits(bits)->0;
    if exponent_field(bits) == 0 {
        lemma2_to64();
        let fraction = fraction_field(bits);
        if 2 * fraction < TWO_52 {
            assert(exponent_field(twice) == 0);
            assert(fraction_field(twice) == 2 * fraction);
        } else {
            assert(exponent_field(twice) == 1);
            assert(fraction_field(twice) == 2 * fraction - TWO_52);
            assert(magnitude(twice) == (TWO_52 + fraction_field(twice)) * pow2(0));
        }
    } else {
        let exponent = exponent_field(bits);
        assert(exponent_field(twice) == exponent + 1);
        assert(fraction_field(twice) == fraction_field(bits));
        lemma_pow2_unfold(exponent);
        let whole = TWO_52 + fraction_field(bits);
        let scale = pow2((exponent - 1) as nat);
        assert(pow2(exponent) == 2 * scale);
        assert(whole * (2 * scale) == 2 * (whole * scale)) by (nonlinear_arith);
        assert(magnitude(twice) == whole * pow2(exponent));
        assert(magnitude(bits) == whole * scale);
    }
}

/// A pattern put together from a significand between `2^52` and `2^53` and a
/// scale below 2045 is finite, not negative, and stands for the significand
/// times `2^scale`.
proof fn lemma_assembled(scale: nat, significand: nat)
    requires
        scale <= 2044,
        TWO_52 <= significand <= TWO_53,
    ensures
        scale * TWO_52 + significand < TWO_63,
        is_finite((scale * TWO_52 + significand) as u64),
        magnitude((scale * TWO_52 + significand) as u64) == significand * pow2(scale),
{
    let bits = (scale * TWO_52 + significand) as u64;
    if significand < TWO_53 {
        let fraction = significand - TWO_52;
        lemma_fundamental_div_mod_converse(
            bits as int,
            TWO_52 as int,
            (scale + 1) as int,
            fraction as int,
        );
        assert(exponent_field(bits) == scale + 1);
        assert(fraction_field(bits) == fraction);
    } else {
        lemma_fundamental_div_mod_converse(bits as int, TWO_52 as int, (scale + 2) as int, 0);
        assert(exponent_field(bits) == scale + 2);
        assert(fraction_field(bits) == 0);
        lemma_pow2_unfold(scale + 1);
        assert(TWO_52 * (2 * pow2(scale)) == TWO_53 * pow2(scale)) by (nonlinear_arith);
    }
}

/// Doubling a positive integer below `2^52` until it reaches `2^52` takes at
/// most 52 doublings and ends below `2^53`.
proof fn lemma_normal_shift(u: nat)
    requires
        0 < u < TWO_53,
    ensures
        normal_shift(u) <= 52,
        TWO_52 <= u * pow2(normal_shift(u)) < TWO_53,
    decreases TWO_53 - u,
{
    lemma2_to64();
    if u < TWO_52 {
        lemma_normal_shift(2 * u);
        let rest = normal_shift(2 * u);
        lemma_pow2_unfold(rest + 1);
        assert((2 * u) * pow2(rest) == u * (2 * pow2(rest))) by (nonlinear_arith);
        lemma_normal_shift_bound(u, rest + 1);
    }
}

/// From `2^53` up, dividing by the spacing brings an integer of 64 bits
/// between `2^52` and `2^53`, and the spacing is between 2 and `2^11`.
proof fn lemma_spacing(u: nat)
    requires
        TWO_53 <= u <= u64::MAX,
    ensures
        1 <= spacing_exponent(u) <= 11,
        spacing(u) > 0,
        TWO_52 <= u / spacing(u) < TWO_53,
    decreases u,
{
    lemma2_to64();
    let half = u / 2;
    if half < TWO_53 {
        assert(spacing_exponent(half) == 0);
        assert(spacing(u) == 2);
    } else {
        lemma_spacing(half);
        let rest = spacing_exponent(half);
        lemma_pow2_unfold(rest + 1);
        lemma_pow2_pos(rest);
        lemma_div_denominator(u as int, 2, pow2(rest) as int);
        assert(spacing(u) == 2 * spacing(half));
        let quotient = u / spacing(u);
        lemma_fundamental_div_mod(u as int, spacing(u) as int);
        assert(quotient * spacing(u) <= u) by (nonlinear_arith)
            requires
                u == spacing(u) * quotient + (u % spacing(u)),
                u % spacing(u) >= 0,
        ;
        if rest + 1 >= 12 {
            if rest + 1 > 12 {
                lemma_pow2_strictly_increases(12, rest + 1);
            }
            assert(quotient * spacing(u) >= 0x0010_0000_0000_0000 * 4096) by (nonlinear_arith)
                requires
                    quotient >= 0x0010_0000_0000_0000,
                    spacing(u) >= 4096,
            ;
        }
    }
}

/// The nearest multiple is a multiple, lies within half a unit of the
/// integer, and is an even multiple where the integer lies half way between
/// two.
pub proof fn lemma_nearest_multiple(u: nat, unit: nat)
    requires
        unit > 0,
    ensures
        nearest_multiple(u, unit) % unit == 0,
        2 * (nearest_multiple(u, unit) - u) <= unit,
        2 * (u - nearest_multiple(u, unit)) <= unit,
        2 * (nearest_multiple(u, unit) - u) == unit || 2 * (u - nearest_multiple(u, unit)) == unit
            ==> (nearest_multiple(u, unit) / unit) % 2 == 0,
{
    let below = u / unit;
    let rest = u % unit;
    let nearest = nearest_multiple(u, unit);
    lemma_fundamental_div_mod(u as int, unit as int);
    assert(unit * below == below * unit) by (nonlinear_arith);
    assert((below + 1) * unit == below * unit + unit) by (nonlinear_arith);
    if nearest == below * unit {
        lemma_fundamental_div_mod_converse(nearest as int, unit as int, below as int, 0);
    } else {
        lemma_fundamental_div_mod_converse(nearest as int, unit as int, (below + 1) as int, 0);
    }
}

/// The pattern made from an unsigned integer is finite and not negative. It
/// stands for the integer itself below `2^53`, and from there on for the
/// multiple of the spacing nearest to the integer, of two equally near the
/// even one.
pub proof fn lemma_unsigned_bits_value(u: u64)
    ensures
        is_finite(unsigned_bits(u)),
        !is_negative(unsigned_bits(u)),
        magnitude(unsigned_bits(u)) == nearest_multiple(u as nat, spacing(u as nat)) * pow2(1074),
        u < TWO_53 ==> nearest_multiple(u as nat, spacing(u as nat)) == u,
{
    lemma2_to64();
    let bits = unsigned_bits(u);
    if u == 0 {
        assert(nearest_multiple(0, 1) == 0);
        assert(0 * pow2(1074) == 0) by (nonlinear_arith);
    } else if u < TWO_53 {
        let shift = normal_shift(u as nat);
        lemma_normal_shift(u as nat);
        let significand = (u * pow2(shift)) as nat;
        lemma_assembled((1074 - shift) as nat, significand);
        lemma_pow2_adds(shift, (1074 - shift) as nat);
        assert((u * pow2(shift)) * pow2((1074 - shift) as nat) == u * (pow2(shift) * pow2(
            (1074 - shift) as nat,
        ))) by (nonlinear_arith);
        assert(nearest_multiple(u as nat, 1) == u);
    } else {
        let exponent = spacing_exponent(u as nat);
        let unit = spacing(u as nat);
        lemma_spacing(u as nat);
        let below = u as nat / unit;
        let nearest = nearest_multiple(u as nat, unit);
        let significand = nearest / unit;
        if nearest == below * unit {
            lemma_div_multiples_vanish(below as int, unit as int);
            assert(below * unit == unit * below) by (nonlinear_arith);
        } else {
            lemma_div_multiples_vanish((below + 1) as int, unit as int);
            assert((below + 1) * unit == unit * (below + 1)) by (nonlinear_arith);
        }
        assert(nearest == significand * unit);
        lemma_assembled(1074 + exponent, significand);
        lemma_pow2_adds(exponent, 1074);
        assert(significand * (unit * pow2(1074)) == (significand * unit) * pow2(1074))
            by (nonlinear_arith);
    }
}

/// The pattern made from a signed integer is finite, negative exactly where
/// the integer is, and stands for what the pattern of its absolute value
/// stands for.
pub proof fn lemma_signed_bits_value(i: i64)
    ensures
        is_finite(signed_bits(i)),
        i < 0 ==> magnitude(signed_bits(i)) == magnitude(unsigned_bits((-i) as u64))
            && is_negative(signed_bits(i)),
        i >= 0 ==> signed_bits(i) == unsigned_bits(i as u64) && !is_negative(signed_bits(i)),
{
    if i < 0 {
        let size = (-i) as u64;
        lemma_unsigned_bits_value(size);
        let plain = unsigned_bits(size);
        let bits = signed_bits(i);
        assert(bits == TWO_63 + plain);
        assert(bits / TWO_52 == 2048 + plain / TWO_52);
        assert(bits % TWO_52 == plain % TWO_52);
    } else {
        lemma_unsigned_bits_value(i as u64);
    }
}

} // verus!
