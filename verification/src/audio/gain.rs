//! Sample arithmetic in single precision, on bit patterns.
//!
//! Gains and device samples are IEEE 754 single precision numbers. They are held here as their
//! bit patterns, and the few operations that audio needs (compare, multiply by a small integer,
//! round to an integer) are integer arithmetic on significand and exponent. A product is rounded
//! to 24 significant bits, ties to even, exactly as the hardware does it.

use crate::rounding::{
    lemma_rounded_bounds, lemma_rounded_is_exact, lemma_unit_bounds, round_to, unit,
};
use vstd::arithmetic::power2::pow2;
use vstd::prelude::*;

verus! {

/// A linear gain: the bit pattern of a single precision number.
#[derive(Debug, Clone, Copy, PartialEq, Eq, Structural)]
pub struct Gain(pub u32);

/// Bit pattern of 1.0.
pub const ONE_BITS: u32 = 0x3f80_0000;

/// Bit pattern of 2.0, the largest accepted gain.
pub const GAIN_MAX_BITS: u32 = 0x4000_0000;

/// Bit pattern of infinity; larger magnitudes are not numbers.
pub const INFINITY_BITS: u32 = 0x7f80_0000;

/// Weight of the sign bit.
pub const SIGN_BIT: u32 = 0x8000_0000;

/// The bit pattern without its sign. On numbers it is ordered like the absolute value.
pub open spec fn magnitude(bits: u32) -> u32 {
    (bits % SIGN_BIT) as u32
}

pub open spec fn is_negative(bits: u32) -> bool {
    bits >= SIGN_BIT
}

pub open spec fn is_nan(bits: u32) -> bool {
    magnitude(bits) > INFINITY_BITS
}

/// The 24-bit significand: the absolute value of a number is
/// `significand * 2^-(shift)`.
pub open spec fn significand(bits: u32) -> nat {
    if magnitude(bits) < 0x80_0000 {
        magnitude(bits) as nat
    } else {
        (magnitude(bits) % 0x80_0000 + 0x80_0000) as nat
    }
}

/// How far the binary point lies to the left of the significand's end, for numbers below 2^23.
pub open spec fn shift(bits: u32) -> nat {
    if magnitude(bits) < 0x80_0000 {
        149
    } else {
        (150 - magnitude(bits) / 0x80_0000) as nat
    }
}

/// `p` rounded to 24 significant bits.
pub open spec fn rounded24(p: nat) -> nat {
    crate::rounding::rounded(p, 0x100_0000)
}

/// `v * gain`, rounded to single precision and then toward zero: for a gain of at most 2.
pub open spec fn product_toward_zero(v: int, gain: u32) -> int {
    let size: nat = if v < 0 {
        (-v) as nat
    } else {
        v as nat
    };
    let whole = rounded24(size * significand(gain)) as int / pow2(shift(gain)) as int;
    if (v < 0) == is_negative(gain) {
        whole
    } else {
        -whole
    }
}

/// A sample under a gain: the product, limited to 16 bits.
pub open spec fn scaled(v: i16, gain: u32) -> i16 {
    crate::consts::clamped(product_toward_zero(v as int, gain), -32768, 32767) as i16
}

/// The 16-bit sample for a device sample in single precision: the input limited to -1.0..1.0,
/// times 32767, rounded to single precision and then to the nearest integer, halves away from
/// zero. What is not a number becomes silence.
pub open spec fn pcm16_of_single(bits: u32) -> i16 {
    if is_nan(bits) {
        0
    } else {
        let size: int = if magnitude(bits) >= ONE_BITS {
            32767
        } else {
            let half = pow2((shift(bits) - 1) as nat) as int;
            (rounded24(32767 * significand(bits)) as int / half + 1) / 2
        };
        if is_negative(bits) {
            (-size) as i16
        } else {
            size as i16
        }
    }
}

/// Rounds `p` to 24 significant bits.
fn round24(p: u64) -> (r: u64)
    requires
        p <= 0x7fff_ffff_ffff_ffff,
    ensures
        r == rounded24(p as nat),
{
    proof {
        lemma_rounded_bounds(p as nat, 0x100_0000);
    }
    round_to(p as u128, 0x100_0000) as u64
}

fn significand_of(bits: u32) -> (r: u64)
    ensures
        r == significand(bits),
        r < 0x100_0000,
{
    let m: u32 = bits % SIGN_BIT;
    if m < 0x80_0000 {
        m as u64
    } else {
        (m % 0x80_0000 + 0x80_0000) as u64
    }
}

fn shift_of(bits: u32) -> (s: u32)
    requires
        magnitude(bits) <= GAIN_MAX_BITS,
    ensures
        s == shift(bits),
        22 <= s <= 149,
        magnitude(bits) < ONE_BITS ==> s >= 24,
{
    let m: u32 = bits % SIGN_BIT;
    if m < 0x80_0000 {
        149
    } else {
        150 - m / 0x80_0000
    }
}

/// `m / 2^s` for any shift.
fn shifted_right(m: u64, s: u32) -> (r: u64)
    ensures
        r == m as int / pow2(s as nat) as int,
{
    if s >= 64 {
        proof {
            vstd::arithmetic::power2::lemma_pow2_strictly_increases(63, s as nat);
            vstd::arithmetic::power2::lemma2_to64();
            vstd::arithmetic::power2::lemma2_to64_rest();
            if s > 64 {
                vstd::arithmetic::power2::lemma_pow2_strictly_increases(64, s as nat);
            }
            vstd::arithmetic::div_mod::lemma_basic_div(m as int, pow2(s as nat) as int);
        }
        0
    } else {
        proof {
            vstd::bits::lemma_u64_shr_is_div(m, s as u64);
        }
        m >> (s as u64)
    }
}

/// Gains are limited to 0.0..2.0; what is not a number counts as 1.0.
pub open spec fn gain_in_range(gain: Gain) -> bool {
    magnitude(gain.0) <= GAIN_MAX_BITS && (is_negative(gain.0) ==> magnitude(gain.0) == 0)
}

/// The gain itself where it lies in the range; the nearer end of the range otherwise.
pub open spec fn gain_within(gain: Gain) -> Gain {
    if is_nan(gain.0) {
        Gain(ONE_BITS)
    } else if is_negative(gain.0) && magnitude(gain.0) > 0 {
        Gain(0)
    } else if magnitude(gain.0) > GAIN_MAX_BITS {
        Gain(GAIN_MAX_BITS)
    } else {
        gain
    }
}

pub fn clamp_gain(gain: Gain) -> (r: Gain)
    ensures
        r == gain_within(gain),
        gain_in_range(r),
{
    let m: u32 = gain.0 % SIGN_BIT;
    if m > INFINITY_BITS {
        Gain(ONE_BITS)
    } else if gain.0 >= SIGN_BIT && m > 0 {
        Gain(0)
    } else if m > GAIN_MAX_BITS {
        Gain(GAIN_MAX_BITS)
    } else {
        gain
    }
}

/// Applies a gain to one sample.
pub fn apply_gain(v: i16, gain: Gain) -> (r: i16)
    requires
        gain_in_range(gain),
    ensures
        r == scaled(v, gain.0),
{
    let size: u64 = if v < 0 {
        (-(v as i64)) as u64
    } else {
        v as u64
    };
    let sig: u64 = significand_of(gain.0);
    assert(size * sig <= 0x8000 * 0x100_0000) by (nonlinear_arith)
        requires
            0 <= size <= 0x8000,
            0 <= sig < 0x100_0000,
    ;
    let m: u64 = round24(size * sig);
    let s: u32 = shift_of(gain.0);
    let whole: u64 = shifted_right(m, s);
    proof {
        lemma_rounded_bounds((size * sig) as nat, 0x100_0000);
        vstd::arithmetic::power2::lemma_pow2_pos(s as nat);
        vstd::arithmetic::div_mod::lemma_div_pos_is_pos(m as int, pow2(s as nat) as int);
        vstd::arithmetic::div_mod::lemma_div_is_ordered_by_denominator(
            m as int,
            1,
            pow2(s as nat) as int,
        );
        assert(size * sig == sig * size) by (nonlinear_arith);
    }
    if (v < 0) == (gain.0 >= SIGN_BIT) {
        if whole > 32767 {
            32767
        } else {
            whole as i16
        }
    } else {
        if whole > 32768 {
            -32768
        } else {
            (-(whole as i64)) as i16
        }
    }
}

/// Converts one device sample.
pub fn pcm16_from_single(bits: u32) -> (r: i16)
    ensures
        r == pcm16_of_single(bits),
{
    let m: u32 = bits % SIGN_BIT;
    if m > INFINITY_BITS {
        return 0;
    }
    let size: i64 = if m >= ONE_BITS {
        32767
    } else {
        let sig: u64 = significand_of(bits);
        assert(32767 * sig <= 32767 * 0x100_0000) by (nonlinear_arith)
            requires
                0 <= sig < 0x100_0000,
        ;
        let product: u64 = round24(32767 * sig);
        let s: u32 = shift_of(bits);
        proof {
            lemma_rounded_bounds((32767 * sig) as nat, 0x100_0000);
        }
        let doubled: u64 = shifted_right(product, s - 1);
        proof {
            let half = pow2((s - 1) as nat) as int;
            vstd::arithmetic::power2::lemma2_to64();
            if s > 24 {
                vstd::arithmetic::power2::lemma_pow2_strictly_increases(23, (s - 1) as nat);
            }
            lemma_unit_bounds((32767 * sig) as nat, 0x100_0000);
            assert(product <= 32767 * 0x100_0000);
            vstd::arithmetic::div_mod::lemma_div_is_ordered(
                product as int,
                32767int * 0x100_0000int,
                half,
            );
            vstd::arithmetic::div_mod::lemma_div_is_ordered_by_denominator(
                32767int * 0x100_0000int,
                0x80_0000,
                half,
            );
        }
        ((doubled + 1) / 2) as i64
    };
    if bits >= SIGN_BIT {
        (-size) as i16
    } else {
        size as i16
    }
}

/// A gain of 1.0 changes no sample.
pub proof fn law_gain_of_one_is_identity(v: i16)
    ensures
        scaled(v, ONE_BITS) == v,
{
    let size: nat = if v < 0 {
        (-(v as int)) as nat
    } else {
        v as nat
    };
    vstd::arithmetic::power2::lemma2_to64();
    assert(significand(ONE_BITS) == pow2(23));
    assert(shift(ONE_BITS) == 23);
    lemma_rounded_is_exact(size, 23, 0x100_0000);
    vstd::arithmetic::div_mod::lemma_div_multiples_vanish(size as int, pow2(23) as int);
    assert(size * pow2(23) == pow2(23) * size) by (nonlinear_arith);
}

/// A gain of zero, of either sign, mutes every sample.
pub proof fn law_gain_of_zero_mutes(v: i16, gain: Gain)
    requires
        magnitude(gain.0) == 0,
    ensures
        scaled(v, gain.0) == 0,
{
    lemma_no_size_no_product(v, gain.0);
}

/// Silence stays silent under every gain.
pub proof fn law_silence_stays_silent(gain: Gain)
    ensures
        scaled(0, gain.0) == 0,
{
    lemma_no_size_no_product(0, gain.0);
}

proof fn lemma_no_size_no_product(v: i16, gain: u32)
    requires
        v == 0 || magnitude(gain) == 0,
    ensures
        scaled(v, gain) == 0,
{
    let size: nat = if v < 0 {
        (-(v as int)) as nat
    } else {
        v as nat
    };
    assert(size * significand(gain) == 0) by (nonlinear_arith)
        requires
            size == 0 || significand(gain) == 0,
    ;
    assert(rounded24(0) == 0);
    vstd::arithmetic::power2::lemma_pow2_pos(shift(gain));
    vstd::arithmetic::div_mod::lemma_div_basics(pow2(shift(gain)) as int);
}

/// Limiting a gain twice is limiting it once.
pub proof fn law_gain_limit_is_idempotent(gain: Gain)
    ensures
        gain_within(gain_within(gain)) == gain_within(gain),
{
}

/// A sample and its opposite become opposites, before the limit to 16 bits.
pub proof fn law_gain_keeps_the_sign(v: int, gain: u32)
    requires
        -0x8000 <= v <= 0x8000,
    ensures
        product_toward_zero(-v, gain) == -product_toward_zero(v, gain),
        v >= 0 && !is_negative(gain) ==> product_toward_zero(v, gain) >= 0,
        v >= 0 && is_negative(gain) ==> product_toward_zero(v, gain) <= 0,
{
    let size: nat = if v < 0 {
        (-v) as nat
    } else {
        v as nat
    };
    let m = rounded24(size * significand(gain)) as int;
    vstd::arithmetic::power2::lemma_pow2_pos(shift(gain));
    vstd::arithmetic::div_mod::lemma_div_pos_is_pos(m, pow2(shift(gain)) as int);
    if v == 0 {
        assert(size * significand(gain) == 0) by (nonlinear_arith)
            requires
                size == 0,
        ;
        assert(rounded24(0) == 0);
        vstd::arithmetic::div_mod::lemma_div_basics(pow2(shift(gain)) as int);
    }
}

/// Half the gain is half the product, rounded toward zero: the bit pattern of half a normal
/// number has an exponent that is smaller by one.
pub proof fn law_half_the_gain_halves(v: int, gain: u32)
    requires
        v >= 0,
        0x100_0000 <= gain <= GAIN_MAX_BITS,
    ensures
        product_toward_zero(v, (gain - 0x80_0000) as u32) == product_toward_zero(v, gain) / 2,
{
    let half = (gain - 0x80_0000) as u32;
    assert(significand(half) == significand(gain));
    assert(shift(half) == shift(gain) + 1);
    vstd::arithmetic::power2::lemma_pow2_unfold(shift(half));
    vstd::arithmetic::power2::lemma_pow2_pos(shift(gain));
    let m = rounded24(v as nat * significand(gain)) as int;
    vstd::arithmetic::div_mod::lemma_div_denominator(m, pow2(shift(gain)) as int, 2);
}

/// The largest gain doubles a sample, up to what 16 bits hold.
pub proof fn law_largest_gain_doubles(v: i16)
    ensures
        -16384 <= v < 16384 ==> scaled(v, GAIN_MAX_BITS) == 2 * v,
        v >= 16384 ==> scaled(v, GAIN_MAX_BITS) == 32767,
        v < -16384 ==> scaled(v, GAIN_MAX_BITS) == -32768,
{
    let size: nat = if v < 0 {
        (-(v as int)) as nat
    } else {
        v as nat
    };
    vstd::arithmetic::power2::lemma2_to64();
    assert(significand(GAIN_MAX_BITS) == pow2(23));
    assert(shift(GAIN_MAX_BITS) == 22);
    lemma_rounded_is_exact(size, 23, 0x100_0000);
    assert(size * pow2(23) == pow2(22) * (2 * size)) by (nonlinear_arith)
        requires
            pow2(23) == 2 * pow2(22),
    ;
    vstd::arithmetic::div_mod::lemma_div_multiples_vanish(2 * size as int, pow2(22) as int);
}

/// A gain in the range is kept, whatever is not a number counts as one, and every other gain
/// becomes the end of the range on its side.
pub proof fn law_gains_are_limited_to_the_range(gain: Gain)
    ensures
        gain_in_range(gain_within(gain)),
        gain_in_range(gain) ==> gain_within(gain) == gain,
        is_nan(gain.0) ==> gain_within(gain).0 == 0x3f80_0000,
        0x4000_0000 <= gain.0 <= 0x7f80_0000 ==> gain_within(gain).0 == 0x4000_0000,
        0x8000_0000 < gain.0 <= 0xff80_0000 ==> gain_within(gain).0 == 0,
        gain.0 <= 0x4000_0000 ==> gain_within(gain).0 == gain.0,
        is_nan(gain.0) <==> 0x7f80_0000 < gain.0 < 0x8000_0000 || 0xff80_0000 < gain.0,
{
}

/// A device sample and its opposite become opposites; full scale and anything beyond it become
/// the largest sample, and what is not a number becomes silence.
pub proof fn law_device_samples_are_symmetric(bits: u32)
    requires
        bits < SIGN_BIT,
    ensures
        pcm16_of_single((bits + SIGN_BIT) as u32) == -pcm16_of_single(bits),
        0 <= pcm16_of_single(bits) <= 32767,
        0x3f80_0000 <= bits <= 0x7f80_0000 ==> pcm16_of_single(bits) == 32767,
        bits > 0x7f80_0000 ==> pcm16_of_single(bits) == 0,
{
    let other = (bits + SIGN_BIT) as u32;
    assert(magnitude(bits) == bits);
    assert(magnitude(other) == bits);
    if bits < ONE_BITS {
        let sig = significand(bits);
        assert(32767 * sig <= 32767 * 0x100_0000);
        let half = pow2((shift(bits) - 1) as nat) as int;
        let product = rounded24(32767 * sig) as int;
        vstd::arithmetic::power2::lemma2_to64();
        if shift(bits) > 24 {
            vstd::arithmetic::power2::lemma_pow2_strictly_increases(23, (shift(bits) - 1) as nat);
        }
        lemma_rounded_bounds((32767 * sig) as nat, 0x100_0000);
        lemma_unit_bounds((32767 * sig) as nat, 0x100_0000);
        lemma_largest_product(sig);
        vstd::arithmetic::div_mod::lemma_div_pos_is_pos(product, half);
        vstd::arithmetic::div_mod::lemma_div_is_ordered(product, 32767int * 0x100_0000int, half);
        vstd::arithmetic::div_mod::lemma_div_is_ordered_by_denominator(
            32767int * 0x100_0000int,
            0x80_0000,
            half,
        );
    }
}

proof fn lemma_largest_product(sig: nat)
    requires
        sig < 0x100_0000,
    ensures
        rounded24(32767 * sig) <= 32767 * 0x100_0000,
{
    let p = 32767 * sig;
    lemma_rounded_bounds(p, 0x100_0000);
    lemma_unit_bounds(p, 0x100_0000);
    if p >= 0x100_0000 {
        let u = unit(p, 0x100_0000);
        assert(u <= 65533);
    }
}

/// The bit pattern of a normal number holds its significand below the exponent: one less in the
/// exponent is half the number, and one is the pattern of 2^23 steps of 2^-23.
pub proof fn law_patterns_hold_the_gains(bits: u32)
    requires
        0x80_0000 <= bits <= 0x4000_0000,
    ensures
        0x80_0000 <= significand(bits) < 0x100_0000,
        (significand(bits) - bits) % 0x80_0000 == 0,
        bits >= 0x100_0000 ==> {
            let half = (bits - 0x80_0000) as u32;
            significand(half) == significand(bits) && shift(half) == shift(bits) + 1
        },
        significand(0x3f80_0000) == 0x80_0000 && shift(0x3f80_0000) == 23,
{
}

/// A sample under a gain is the product of the two, rounded once to single precision and then
/// toward zero.
pub proof fn law_products_are_rounded_toward_zero(v: int, gain: u32)
    requires
        0 <= v <= 0x8000,
        gain <= 0x4000_0000,
    ensures
        ({
            let product = rounded24(v as nat * significand(gain));
            let unit = pow2(shift(gain));
            product_toward_zero(v, gain) * unit <= product < (product_toward_zero(v, gain) + 1)
                * unit
        }),
{
    let p = rounded24(v as nat * significand(gain)) as int;
    let u = pow2(shift(gain)) as int;
    vstd::arithmetic::power2::lemma_pow2_pos(shift(gain));
    vstd::arithmetic::div_mod::lemma_fundamental_div_mod(p, u);
    vstd::arithmetic::div_mod::lemma_mod_bound(p, u);
    let q = p / u;
    let r = p % u;
    assert(q * u <= p < (q + 1) * u) by (nonlinear_arith)
        requires
            p == u * q + r,
            0 <= r < u,
    ;
}

/// A device sample below full scale is 32767 times the number, rounded once to single precision
/// and then to the nearest whole number.
pub proof fn law_device_samples_are_the_nearest(bits: u32)
    requires
        bits < 0x3f80_0000,
    ensures
        ({
            let product = rounded24(32767 * significand(bits));
            let half = pow2((shift(bits) - 1) as nat);
            (2 * pcm16_of_single(bits) - 1) * half <= product < (2 * pcm16_of_single(bits) + 1)
                * half
        }),
{
    law_device_samples_are_symmetric(bits);
    let p = rounded24(32767 * significand(bits)) as int;
    let h = pow2((shift(bits) - 1) as nat) as int;
    let x = p / h;
    let r = pcm16_of_single(bits) as int;
    vstd::arithmetic::power2::lemma2_to64();
    if shift(bits) > 24 {
        vstd::arithmetic::power2::lemma_pow2_strictly_increases(23, (shift(bits) - 1) as nat);
    }
    lemma_largest_product(significand(bits));
    vstd::arithmetic::div_mod::lemma_fundamental_div_mod(p, h);
    vstd::arithmetic::div_mod::lemma_mod_bound(p, h);
    vstd::arithmetic::div_mod::lemma_div_pos_is_pos(p, h);
    vstd::arithmetic::div_mod::lemma_div_is_ordered(p, 32767int * 0x100_0000int, h);
    vstd::arithmetic::div_mod::lemma_div_is_ordered_by_denominator(
        32767int * 0x100_0000int,
        0x80_0000,
        h,
    );
    assert(r == (x + 1) / 2);
    let rem = p % h;
    assert((2 * r - 1) * h <= p < (2 * r + 1) * h) by (nonlinear_arith)
        requires
            p == h * x + rem,
            0 <= rem < h,
            2 * r - 1 <= x <= 2 * r,
    ;
}

} // verus!
