//! Shares of a length in double precision, on bit patterns.
//!
//! A selection is given in shares of the display: numbers from 0 to 1 that do not depend on its
//! scaling. They are IEEE 754 double precision numbers, held as their bit patterns. Turning them
//! into pixels takes a subtraction, a product and a rounding to the nearest integer; the first
//! two are rounded to 53 significant bits, ties to even, as the hardware does it.

use crate::convert::lesser;
use crate::rounding::{
    lemma_rounded_bounds, lemma_rounded_is_exact, lemma_rounded_scales, lemma_unit_bounds,
    lemma_unit_is, round_parts, round_to, rounded,
};
use vstd::arithmetic::power2::pow2;
use vstd::prelude::*;

verus! {

/// A share: the bit pattern of a double precision number.
#[derive(Debug, Clone, Copy, PartialEq, Eq, Structural)]
pub struct Share(pub u64);

/// Bit pattern of 1.0.
pub const ONE_SHARE: u64 = 0x3ff0_0000_0000_0000;

/// Weight of the sign bit.
pub const SHARE_SIGN: u64 = 0x8000_0000_0000_0000;

/// Bit pattern of infinity; larger magnitudes are not numbers.
pub const SHARE_INFINITY: u64 = 0x7ff0_0000_0000_0000;

/// Weight of the lowest exponent bit, which is also the leading bit of a full significand.
pub const SHARE_LEAD: u64 = 0x10_0000_0000_0000;

/// Significands stay below this number.
pub const SHARE_TOP: u64 = 0x20_0000_0000_0000;

pub open spec fn is_number(s: Share) -> bool {
    s.0 % SHARE_SIGN <= SHARE_INFINITY
}

/// A number limited to 0..1; its bit pattern is then ordered like its value.
pub open spec fn limited(s: Share) -> u64 {
    if s.0 >= SHARE_SIGN {
        0
    } else if s.0 > ONE_SHARE {
        ONE_SHARE
    } else {
        s.0
    }
}

/// The two ends of a span, the smaller first. An end that is not a number is replaced by the
/// other one; without any number there is no span.
pub open spec fn span(a: Share, b: Share) -> Option<(u64, u64)> {
    if !is_number(a) && !is_number(b) {
        None
    } else if !is_number(a) {
        Some((limited(b), limited(b)))
    } else if !is_number(b) {
        Some((limited(a), limited(a)))
    } else if limited(a) <= limited(b) {
        Some((limited(a), limited(b)))
    } else {
        Some((limited(b), limited(a)))
    }
}

/// The value of a limited number is `significand / 2^shift`.
pub open spec fn significand(m: u64) -> nat {
    if m < SHARE_LEAD {
        m as nat
    } else {
        (m % SHARE_LEAD + SHARE_LEAD) as nat
    }
}

pub open spec fn shift(m: u64) -> nat {
    if m < SHARE_LEAD {
        1074
    } else {
        (1075 - m / SHARE_LEAD) as nat
    }
}

/// `p / 2^s`, to the nearest integer, halves up.
pub open spec fn nearest_whole(p: nat, s: nat) -> nat {
    (p / pow2((s - 1) as nat) + 1) / 2
}

/// `q / 2^s` of a length in pixels.
pub open spec fn pixels(q: nat, s: nat, len: u32) -> u32 {
    lesser(nearest_whole(rounded(q * len as nat, SHARE_TOP as nat), s) as int, u32::MAX as int)
        as u32
}

/// The difference of two limited numbers, in units of the smaller one.
pub open spec fn difference(low: u64, high: u64) -> nat {
    rounded(
        (significand(high) * pow2((shift(low) - shift(high)) as nat) - significand(low)) as nat,
        SHARE_TOP as nat,
    )
}

/// Position and length of a span in pixels.
pub open spec fn span_pixels(a: Share, b: Share, len: u32) -> (u32, u32) {
    match span(a, b) {
        None => (0, 0),
        Some((low, high)) => (
            pixels(significand(low), shift(low), len),
            pixels(difference(low, high), shift(low), len),
        ),
    }
}

fn significand_of(m: u64) -> (r: u64)
    ensures
        r == significand(m),
        r < SHARE_TOP,
        m >= SHARE_LEAD ==> r >= SHARE_LEAD,
{
    if m < SHARE_LEAD {
        m
    } else {
        m % SHARE_LEAD + SHARE_LEAD
    }
}

fn shift_of(m: u64) -> (s: u32)
    requires
        m <= ONE_SHARE,
    ensures
        s == shift(m),
        52 <= s <= 1074,
        m < SHARE_LEAD ==> s == 1074,
{
    if m < SHARE_LEAD {
        1074
    } else {
        (1075 - m / SHARE_LEAD) as u32
    }
}

/// Turns `q / 2^s` of a length into pixels.
fn to_pixels(q: u128, s: u32, len: u32) -> (r: u32)
    requires
        q <= SHARE_TOP,
        1 <= s,
    ensures
        r == pixels(q as nat, s as nat, len),
{
    assert(0 <= q * len <= 0x20_0000_0000_0000 * 0x1_0000_0000) by (nonlinear_arith)
        requires
            0 <= q <= 0x20_0000_0000_0000,
            0 <= len < 0x1_0000_0000,
    ;
    let p: u128 = round_to(q * len as u128, SHARE_TOP as u128);
    let halves: u128 = halved(p, s - 1);
    proof {
        lemma_rounded_bounds((q * len) as nat, SHARE_TOP as nat);
        vstd::arithmetic::power2::lemma_pow2_pos((s - 1) as nat);
        vstd::arithmetic::div_mod::lemma_div_is_ordered_by_denominator(
            p as int,
            1,
            pow2((s - 1) as nat) as int,
        );
    }
    let whole: u128 = (halves + 1) / 2;
    if whole > 0xffff_ffff {
        0xffff_ffff
    } else {
        whole as u32
    }
}

/// `p / 2^h` for any exponent.
fn halved(p: u128, h: u32) -> (r: u128)
    ensures
        r == p as int / pow2(h as nat) as int,
{
    if h >= 128 {
        proof {
            vstd::arithmetic::power2::lemma2_to64_rest();
            vstd::arithmetic::power2::lemma_pow2_adds(64, 64);
            if h > 128 {
                vstd::arithmetic::power2::lemma_pow2_strictly_increases(128, h as nat);
            }
            vstd::arithmetic::div_mod::lemma_basic_div(p as int, pow2(h as nat) as int);
        }
        0
    } else {
        proof {
            vstd::bits::lemma_u128_shr_is_div(p, h as u128);
        }
        p >> (h as u128)
    }
}

/// Scaling numerator and denominator changes nothing.
proof fn lemma_whole_scales(p: nat, k: nat, s: nat)
    requires
        s >= 1,
    ensures
        nearest_whole(p * pow2(k), s + k) == nearest_whole(p, s),
{
    let h = pow2((s - 1) as nat);
    vstd::arithmetic::power2::lemma_pow2_pos(k);
    vstd::arithmetic::power2::lemma_pow2_pos((s - 1) as nat);
    vstd::arithmetic::power2::lemma_pow2_adds((s - 1) as nat, k);
    assert((s + k - 1) as nat == (s - 1) as nat + k);
    vstd::arithmetic::div_mod::lemma_div_multiples_vanish_quotient(
        pow2(k) as int,
        p as int,
        h as int,
    );
    assert(p * pow2(k) == pow2(k) * p) by (nonlinear_arith);
    assert(h * pow2(k) == pow2(k) * h) by (nonlinear_arith);
}

/// Pixels do not depend on how a value is written as a fraction.
proof fn lemma_pixels_scale(q: nat, k: nat, s: nat, len: u32)
    requires
        s >= 1,
    ensures
        pixels(q * pow2(k), s + k, len) == pixels(q, s, len),
{
    let n = len as nat;
    assert((q * pow2(k)) * n == (q * n) * pow2(k)) by (nonlinear_arith);
    lemma_rounded_scales(q * n, k, SHARE_TOP as nat);
    lemma_whole_scales(rounded(q * n, SHARE_TOP as nat), k, s);
}

proof fn lemma_span_is_ordered(low: u64, high: u64)
    requires
        low <= high <= ONE_SHARE,
    ensures
        52 <= shift(high) <= shift(low) <= 1074,
        significand(low) < SHARE_TOP,
        shift(low) > shift(high) ==> SHARE_LEAD <= significand(high) < SHARE_TOP,
        significand(low) <= significand(high) * pow2((shift(low) - shift(high)) as nat),
{
    let n = (shift(low) - shift(high)) as nat;
    vstd::arithmetic::power2::lemma2_to64();
    if low >= SHARE_LEAD {
        vstd::arithmetic::div_mod::lemma_div_is_ordered(
            low as int,
            high as int,
            SHARE_LEAD as int,
        );
    }
    if n == 0 {
        assert(significand(high) * 1 == significand(high)) by (nonlinear_arith);
    } else {
        vstd::arithmetic::power2::lemma_pow2_unfold(n);
        vstd::arithmetic::power2::lemma_pow2_pos((n - 1) as nat);
        assert(significand(high) * pow2(n) >= significand(high) * 2) by (nonlinear_arith)
            requires
                pow2(n) >= 2,
        ;
    }
}

/// Beside a much larger number, a small one is lost.
proof fn lemma_small_is_lost(big: nat, n: nat, small: nat)
    requires
        SHARE_LEAD <= big < SHARE_TOP,
        n >= 64,
        small < SHARE_TOP,
    ensures
        small <= big * pow2(n),
        rounded((big * pow2(n) - small) as nat, SHARE_TOP as nat) == big * pow2(n),
{
    let top = SHARE_TOP as nat;
    let lead = SHARE_LEAD as nat;
    let m = (n - 1) as nat;
    vstd::arithmetic::power2::lemma2_to64_rest();
    vstd::arithmetic::power2::lemma_pow2_unfold(n);
    if m > 63 {
        vstd::arithmetic::power2::lemma_pow2_strictly_increases(63, m);
    }
    let h = pow2(m);
    let d = (big * pow2(n) - small) as nat;
    assert(big * pow2(n) == 2 * (big * h)) by (nonlinear_arith)
        requires
            pow2(n) == 2 * h,
    ;
    assert(big * h >= lead * h) by (nonlinear_arith)
        requires
            big >= lead,
            h >= 0,
    ;
    assert(lead * h >= h) by (nonlinear_arith)
        requires
            lead >= 1,
            h >= 0,
    ;
    if small == 0 {
        lemma_rounded_is_exact(big, n, top);
    } else if big > lead {
        assert(lead * pow2(n) <= d < top * pow2(n)) by (nonlinear_arith)
            requires
                d == big * pow2(n) - small,
                lead + 1 <= big,
                big < top,
                0 < small <= pow2(n),
        ;
        lemma_unit_is(d, n, top);
        let u = pow2(n) as int;
        assert(d == (big - 1) * u + (u - small)) by (nonlinear_arith)
            requires
                d == big * u - small,
        ;
        vstd::arithmetic::div_mod::lemma_fundamental_div_mod_converse(
            d as int,
            u,
            big - 1,
            u - small,
        );
        assert((big - 1) * u + u == big * u) by (nonlinear_arith);
    } else {
        assert(lead * h <= d < top * h) by (nonlinear_arith)
            requires
                d == 2 * (big * h) - small,
                big == lead,
                top == 2 * lead,
                0 < small <= h,
                lead >= 1,
        ;
        lemma_unit_is(d, m, top);
        let u = h as int;
        assert(d == (top - 1) * u + (u - small)) by (nonlinear_arith)
            requires
                d == 2 * (big * u) - small,
                top == 2 * big,
        ;
        vstd::arithmetic::div_mod::lemma_fundamental_div_mod_converse(
            d as int,
            u,
            top - 1,
            u - small,
        );
        assert((top - 1) * u + u == big * pow2(n)) by (nonlinear_arith)
            requires
                top == 2 * big,
                pow2(n) == 2 * u,
        ;
    }
}

/// The length of a span in pixels.
fn span_length(low: u64, high: u64, len: u32) -> (r: u32)
    requires
        low <= high <= ONE_SHARE,
    ensures
        r == pixels(difference(low, high), shift(low), len),
{
    proof {
        lemma_span_is_ordered(low, high);
    }
    let small: u64 = significand_of(low);
    let big: u64 = significand_of(high);
    let s_low: u32 = shift_of(low);
    let s_high: u32 = shift_of(high);
    let n: u32 = s_low - s_high;
    if n >= 64 {
        proof {
            lemma_small_is_lost(big as nat, n as nat, small as nat);
            lemma_pixels_scale(big as nat, n as nat, s_high as nat, len);
            assert(s_low as nat == s_high as nat + n as nat);
        }
        return to_pixels(big as u128, s_high, len);
    }
    proof {
        vstd::arithmetic::power2::lemma2_to64_rest();
        vstd::arithmetic::power2::lemma_pow2_pos(n as nat);
        vstd::arithmetic::power2::lemma_pow2_strictly_increases(n as nat, 64);
        vstd::bits::lemma_u64_shl_is_mul(1, n as u64);
    }
    let scale: u64 = 1u64 << (n as u64);
    proof {
        assert(1 * pow2(n as nat) == pow2(n as nat)) by (nonlinear_arith);
        assert(0 <= big * scale <= 0x20_0000_0000_0000 * 0x1_0000_0000_0000_0000)
            by (nonlinear_arith)
            requires
                0 <= big <= 0x20_0000_0000_0000,
                0 <= scale <= 0x1_0000_0000_0000_0000,
        ;
    }
    let d: u128 = big as u128 * scale as u128 - small as u128;
    let (q, k): (u128, u32) = round_parts(d, SHARE_TOP as u128);
    proof {
        let top = SHARE_TOP as nat;
        lemma_unit_bounds(d as nat, top);
        if k > n {
            vstd::arithmetic::power2::lemma_pow2_unfold((n + 1) as nat);
            if k > n + 1 {
                vstd::arithmetic::power2::lemma_pow2_strictly_increases((n + 1) as nat, k as nat);
            }
            let u = pow2(n as nat);
            assert(d < top * u) by (nonlinear_arith)
                requires
                    d <= big * u,
                    big < top,
                    u > 0,
            ;
            assert((top / 2) * pow2(k as nat) >= top * u) by (nonlinear_arith)
                requires
                    top % 2 == 0,
                    pow2(k as nat) >= 2 * u,
            ;
            assert(false);
        }
        lemma_pixels_scale(q as nat, k as nat, (s_low - k) as nat, len);
        assert(s_low as nat == (s_low - k) as nat + k as nat);
    }
    to_pixels(q, s_low - k, len)
}

fn limit(s: Share) -> (m: u64)
    ensures
        m == limited(s),
        m <= ONE_SHARE,
{
    if s.0 >= SHARE_SIGN {
        0
    } else if s.0 > ONE_SHARE {
        ONE_SHARE
    } else {
        s.0
    }
}

/// Turns a span into pixels: its position and its length.
pub fn to_span(a: Share, b: Share, len: u32) -> (r: (u32, u32))
    ensures
        r == span_pixels(a, b, len),
{
    let a_counts: bool = a.0 % SHARE_SIGN <= SHARE_INFINITY;
    let b_counts: bool = b.0 % SHARE_SIGN <= SHARE_INFINITY;
    if !a_counts && !b_counts {
        return (0, 0);
    }
    let x: u64 = if a_counts {
        limit(a)
    } else {
        limit(b)
    };
    let y: u64 = if b_counts {
        limit(b)
    } else {
        limit(a)
    };
    let (low, high): (u64, u64) = if x <= y {
        (x, y)
    } else {
        (y, x)
    };
    (
        to_pixels(significand_of(low) as u128, shift_of(low), len),
        span_length(low, high, len),
    )
}

/// It does not matter in which direction a span is drawn.
pub proof fn law_direction_does_not_matter(a: Share, b: Share, len: u32)
    ensures
        span_pixels(a, b, len) == span_pixels(b, a, len),
{
}

/// What lies outside of the display counts as its edge: from an edge or beyond to the other edge
/// or beyond is the whole length.
pub proof fn law_whole_span_is_the_length(a: Share, b: Share, len: u32)
    requires
        is_number(a),
        is_number(b),
        limited(a) == 0,
        limited(b) == ONE_SHARE,
    ensures
        span_pixels(a, b, len) == (0u32, len),
{
    let top = SHARE_TOP as nat;
    vstd::arithmetic::power2::lemma2_to64_rest();
    assert(shift(0) == 1074 && shift(ONE_SHARE) == 52);
    assert(significand(0) == 0 && significand(ONE_SHARE) == pow2(52));
    let h = pow2(1073);
    vstd::arithmetic::power2::lemma_pow2_pos(1073);
    assert(0 * len as nat == 0) by (nonlinear_arith);
    assert(rounded(0, top) == 0);
    vstd::arithmetic::div_mod::lemma_div_basics(h as int);
    lemma_rounded_is_exact(SHARE_LEAD as nat, 1022, top);
    let d = pow2(52) * pow2(1022);
    vstd::arithmetic::power2::lemma_pow2_adds(52, 1022);
    assert(d == pow2(1074));
    assert(difference(0, ONE_SHARE) == d);
    lemma_rounded_is_exact(len as nat, 1074, top);
    assert(d * len as nat == len as nat * d) by (nonlinear_arith);
    vstd::arithmetic::power2::lemma_pow2_unfold(1074);
    assert(len as nat * d == h * (2 * len as nat)) by (nonlinear_arith)
        requires
            d == 2 * h,
    ;
    vstd::arithmetic::div_mod::lemma_div_multiples_vanish((2 * len) as int, h as int);
}

/// A number within the range is kept, one beyond an end becomes that end.
pub proof fn law_shares_are_limited_to_the_display(s: Share)
    ensures
        limited(s) <= 0x3ff0_0000_0000_0000,
        s.0 <= 0x3ff0_0000_0000_0000 ==> limited(s) == s.0,
        0x3ff0_0000_0000_0000 < s.0 < 0x8000_0000_0000_0000 ==> limited(s)
            == 0x3ff0_0000_0000_0000,
        s.0 >= 0x8000_0000_0000_0000 ==> limited(s) == 0,
        is_number(s) <==> s.0 <= 0x7ff0_0000_0000_0000 || 0x8000_0000_0000_0000 <= s.0
            <= 0xfff0_0000_0000_0000,
{
}

/// A span has its ends in order, and each of them is an end that was given.
pub proof fn law_spans_have_their_ends_in_order(a: Share, b: Share)
    ensures
        span(a, b) is None <==> !is_number(a) && !is_number(b),
        span(a, b) matches Some((low, high)) ==> {
            &&& low <= high
            &&& is_number(a) ==> low <= limited(a) <= high
            &&& is_number(b) ==> low <= limited(b) <= high
            &&& (is_number(a) && low == limited(a)) || (is_number(b) && low == limited(b))
            &&& (is_number(a) && high == limited(a)) || (is_number(b) && high == limited(b))
        },
{
}

/// The bit pattern of a normal number holds its significand below the exponent: the next pattern
/// is the next number, and one more in the exponent is twice the number.
pub proof fn law_patterns_hold_the_numbers(m: u64)
    requires
        0x10_0000_0000_0000 <= m <= 0x3ff0_0000_0000_0000,
    ensures
        0x10_0000_0000_0000 <= significand(m) < 0x20_0000_0000_0000,
        (significand(m) - m) % 0x10_0000_0000_0000 == 0,
        m >= 0x20_0000_0000_0000 ==> {
            let half = (m - 0x10_0000_0000_0000) as u64;
            significand(half) == significand(m) && shift(half) == shift(m) + 1
        },
        significand(0x3ff0_0000_0000_0000) == 0x10_0000_0000_0000 && shift(0x3ff0_0000_0000_0000)
            == 52,
{
}

/// A share of a length is the nearest whole number of pixels to the product, halves up. The
/// product itself is the exact one, rounded once.
pub proof fn law_pixels_are_the_nearest(q: nat, s: nat, len: u32)
    requires
        s >= 1,
        pixels(q, s, len) < u32::MAX,
    ensures
        ({
            let half = pow2((s - 1) as nat);
            let product = rounded(q * len as nat, 0x20_0000_0000_0000);
            (2 * pixels(q, s, len) - 1) * half <= product < (2 * pixels(q, s, len) + 1) * half
        }),
{
    let h = pow2((s - 1) as nat) as int;
    let p = rounded(q * len as nat, SHARE_TOP as nat) as int;
    let x = p / h;
    let r = pixels(q, s, len) as int;
    vstd::arithmetic::power2::lemma_pow2_pos((s - 1) as nat);
    vstd::arithmetic::div_mod::lemma_fundamental_div_mod(p, h);
    vstd::arithmetic::div_mod::lemma_mod_bound(p, h);
    assert(r == (x + 1) / 2);
    let rem = p % h;
    assert((2 * r - 1) * h <= p < (2 * r + 1) * h) by (nonlinear_arith)
        requires
            p == h * x + rem,
            0 <= rem < h,
            2 * r - 1 <= x <= 2 * r,
    ;
}

/// A span starts where its lower end lies, and one whose ends meet is empty.
pub proof fn law_spans_start_at_their_lower_end(a: Share, b: Share, len: u32)
    requires
        is_number(a),
        is_number(b),
        limited(a) <= limited(b),
    ensures
        span_pixels(a, b, len).0 == span_pixels(a, a, len).0,
        span_pixels(a, b, len).0 == pixels(significand(limited(a)), shift(limited(a)), len),
        limited(a) == limited(b) ==> span_pixels(a, b, len).1 == 0,
{
    if limited(a) == limited(b) {
        let m = limited(a);
        vstd::arithmetic::power2::lemma2_to64();
        assert(significand(m) * pow2(0) - significand(m) == 0) by (nonlinear_arith)
            requires
                pow2(0) == 1,
        ;
        assert(difference(m, m) == rounded(0, SHARE_TOP as nat));
        assert(rounded(0, SHARE_TOP as nat) == 0);
        assert(0 * len as nat == 0) by (nonlinear_arith);
        let h = pow2((shift(m) - 1) as nat);
        vstd::arithmetic::power2::lemma_pow2_pos((shift(m) - 1) as nat);
        vstd::arithmetic::div_mod::lemma_div_basics(h as int);
    }
}

/// Without any number there is nothing to show.
pub proof fn law_no_numbers_no_span(a: Share, b: Share, len: u32)
    requires
        !is_number(a),
        !is_number(b),
    ensures
        span_pixels(a, b, len) == (0u32, 0u32),
{
}

/// A span is as long as the distance of its ends, rounded once to double precision: the distance is
/// counted in the steps of the lower end, which are the finer ones.
pub proof fn law_spans_are_as_long_as_the_distance(a: Share, b: Share, len: u32)
    requires
        is_number(a),
        is_number(b),
        limited(a) <= limited(b),
    ensures
        ({
            let low = limited(a);
            let high = limited(b);
            let distance = significand(high) * pow2((shift(low) - shift(high)) as nat)
                - significand(low);
            span_pixels(a, b, len).1 == pixels(
                rounded(distance as nat, 0x20_0000_0000_0000),
                shift(low),
                len,
            )
        }),
{
}

} // verus!
