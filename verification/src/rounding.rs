//! Rounding to a number of significant bits, as floating point arithmetic does it.

use vstd::arithmetic::power2::pow2;
use vstd::prelude::*;

verus! {

/// Distance of neighbouring numbers at `p`, where the significand stays below `top`: the smallest
/// power of two whose `top`-fold exceeds `p`.
pub open spec fn unit(p: nat, top: nat) -> nat
    decreases p,
{
    if p < top || p == 0 {
        1
    } else {
        2 * unit(p / 2, top)
    }
}

/// The multiple of `u` nearest to `p`; of two equally near ones the even multiple.
pub open spec fn nearest_even(p: nat, u: nat) -> nat {
    if 2 * (p % u) < u || (2 * (p % u) == u && (p / u) % 2 == 0) {
        (p - p % u) as nat
    } else {
        (p - p % u + u) as nat
    }
}

/// `p` rounded so that its significand stays within `top`.
pub open spec fn rounded(p: nat, top: nat) -> nat {
    nearest_even(p, unit(p, top))
}

pub(crate) proof fn lemma_unit_bounds(p: nat, top: nat)
    requires
        top >= 2,
        top % 2 == 0,
    ensures
        unit(p, top) >= 1,
        p < top * unit(p, top),
        p >= top ==> (top / 2) * unit(p, top) <= p,
        p < top ==> unit(p, top) == 1,
    decreases p,
{
    if p >= top {
        lemma_unit_bounds(p / 2, top);
        let u = unit(p / 2, top);
        assert(top * (2 * u) == 2 * (top * u)) by (nonlinear_arith);
        assert((top / 2) * (2 * u) == 2 * ((top / 2) * u)) by (nonlinear_arith);
        if p / 2 < top {
            assert((top / 2) * 1 == top / 2) by (nonlinear_arith);
        }
    } else {
        assert(top * 1 == top) by (nonlinear_arith);
    }
}

pub(crate) proof fn lemma_rounded_bounds(p: nat, top: nat)
    requires
        top >= 2,
        top % 2 == 0,
    ensures
        rounded(p, top) <= 2 * p,
        2 * rounded(p, top) <= 2 * p + unit(p, top),
        unit(p, top) <= p || unit(p, top) == 1,
{
    lemma_unit_bounds(p, top);
    let u = unit(p, top);
    vstd::arithmetic::div_mod::lemma_fundamental_div_mod(p as int, u as int);
    vstd::arithmetic::div_mod::lemma_mod_bound(p as int, u as int);
    if u == 1 {
        assert(p as int % 1 == 0);
    } else {
        assert(u <= (top / 2) * u) by (nonlinear_arith)
            requires
                top >= 2,
                u >= 1,
        ;
    }
}

/// Rounding is exact wherever the significand fits.
pub(crate) proof fn lemma_rounded_is_exact(a: nat, k: nat, top: nat)
    requires
        top >= 2,
        top % 2 == 0,
        a < top,
    ensures
        (a * pow2(k)) % unit(
            a * pow2(k),
            top,
        ) == 0,
        rounded(a * pow2(k), top) == a
            * pow2(k),
    decreases k,
{
    let p = a * pow2(k);
    lemma_unit_bounds(p, top);
    if k == 0 {
        vstd::arithmetic::power2::lemma2_to64();
    } else if p >= top {
        lemma_rounded_is_exact(a, (k - 1) as nat, top);
        vstd::arithmetic::power2::lemma_pow2_unfold(k);
        let q = a * pow2((k - 1) as nat);
        assert(p == 2 * q) by (nonlinear_arith)
            requires
                p == a * pow2(k),
                q == a * pow2((k - 1) as nat),
                pow2(k) == 2 * pow2(
                    (k - 1) as nat,
                ),
        ;
        lemma_unit_bounds(q, top);
        let u = unit(q, top);
        vstd::arithmetic::div_mod::lemma_fundamental_div_mod(q as int, u as int);
        assert((2 * q) as int == (q as int / u as int) * (2 * u)) by (nonlinear_arith)
            requires
                q as int == u * (q as int / u as int),
        ;
        vstd::arithmetic::div_mod::lemma_mod_multiples_basic(q as int / u as int, (2 * u) as int);
    } else {
        vstd::arithmetic::div_mod::lemma_mod_self_0(1);
    }
}

/// Doubling a number doubles its rounded value.
pub(crate) proof fn lemma_rounded_doubles(p: nat, top: nat)
    requires
        top >= 2,
        top % 2 == 0,
    ensures
        unit(2 * p, top) == unit(p, top) || unit(2 * p, top) == 2 * unit(p, top),
        rounded(2 * p, top) == 2 * rounded(p, top),
{
    lemma_unit_bounds(p, top);
    lemma_unit_bounds(2 * p, top);
    let u = unit(p, top);
    if 2 * p >= top {
        assert((2 * p) / 2 == p);
        assert(unit(2 * p, top) == 2 * u);
        vstd::arithmetic::div_mod::lemma_truncate_middle(p as int, 2, u as int);
        vstd::arithmetic::div_mod::lemma_div_multiples_vanish_quotient(2, p as int, u as int);
        vstd::arithmetic::div_mod::lemma_fundamental_div_mod(p as int, u as int);
        vstd::arithmetic::div_mod::lemma_mod_bound(p as int, u as int);
        assert((2 * p) % (2 * u) == 2 * (p % u));
        assert((2 * p) / (2 * u) == p / u);
        vstd::arithmetic::div_mod::lemma_mod_decreases(p, u);
        assert(nearest_even(2 * p, 2 * u) == 2 * nearest_even(p, u));
    } else {
        assert(p as int % 1 == 0 && (2 * p) as int % 1 == 0);
    }
}

/// Rounding commutes with scaling by a power of two.
pub(crate) proof fn lemma_rounded_scales(p: nat, n: nat, top: nat)
    requires
        top >= 2,
        top % 2 == 0,
    ensures
        rounded(p * pow2(n), top) == rounded(p, top) * pow2(n),
    decreases n,
{
    if n == 0 {
        vstd::arithmetic::power2::lemma2_to64();
        assert(p * 1 == p && rounded(p, top) * 1 == rounded(p, top)) by (nonlinear_arith);
    } else {
        let m = (n - 1) as nat;
        lemma_rounded_scales(p, m, top);
        lemma_rounded_doubles(p * pow2(m), top);
        vstd::arithmetic::power2::lemma_pow2_unfold(n);
        let r = rounded(p, top);
        assert(p * (2 * pow2(m)) == 2 * (p * pow2(m))) by (nonlinear_arith);
        assert(r * (2 * pow2(m)) == 2 * (r * pow2(m))) by (nonlinear_arith);
    }
}

/// The unit of a number between two powers of two.
pub(crate) proof fn lemma_unit_is(p: nat, k: nat, top: nat)
    requires
        top >= 2,
        top % 2 == 0,
        (top / 2) * pow2(k) <= p < top * pow2(k),
        k > 0 || p < top,
    ensures
        unit(p, top) == pow2(k),
    decreases k,
{
    vstd::arithmetic::power2::lemma2_to64();
    if k > 0 {
        let m = (k - 1) as nat;
        vstd::arithmetic::power2::lemma_pow2_unfold(k);
        vstd::arithmetic::power2::lemma_pow2_pos(m);
        assert((top / 2) * (2 * pow2(m)) == top * pow2(m)) by (nonlinear_arith)
            requires
                top % 2 == 0,
        ;
        assert(top * (2 * pow2(m)) == 2 * (top * pow2(m))) by (nonlinear_arith);
        assert(top <= top * pow2(m)) by (nonlinear_arith)
            requires
                pow2(m) >= 1,
        ;
        assert((top / 2) * pow2(k) == 2 * ((top / 2) * pow2(m))) by (nonlinear_arith)
            requires
                pow2(k) == 2 * pow2(m),
        ;
        if m == 0 {
            assert(top * 1 == top) by (nonlinear_arith);
        }
        lemma_unit_is(p / 2, m, top);
    }
}

/// The unit and its exponent.
fn unit_parts(p: u128, top: u128) -> (r: (u128, u32))
    requires
        top >= 2,
        top % 2 == 0,
    ensures
        r.0 == unit(p as nat, top as nat),
        r.0 == pow2(r.1 as nat),
        r.0 <= p || r.0 == 1,
        r.1 < 128,
    decreases p,
{
    proof {
        vstd::arithmetic::power2::lemma2_to64();
        lemma_rounded_bounds(p as nat, top as nat);
    }
    if p < top {
        (1, 0)
    } else {
        let (u, k): (u128, u32) = unit_parts(p / 2, top);
        proof {
            vstd::arithmetic::power2::lemma_pow2_unfold((k + 1) as nat);
            if k + 1 >= 128 {
                vstd::arithmetic::power2::lemma2_to64_rest();
                vstd::arithmetic::power2::lemma_pow2_adds(64, 64);
                assert(false);
            }
        }
        (2 * u, k + 1)
    }
}

/// Rounds `p` so that its significand stays within `top`: gives the significand and the exponent
/// of the result.
pub(crate) fn round_parts(p: u128, top: u128) -> (r: (u128, u32))
    requires
        top >= 2,
        top % 2 == 0,
        p < u128::MAX,
    ensures
        rounded(p as nat, top as nat) == r.0 * pow2(r.1 as nat),
        pow2(r.1 as nat) == unit(p as nat, top as nat),
        r.0 <= top,
        r.1 < 128,
{
    let (u, k): (u128, u32) = unit_parts(p, top);
    proof {
        lemma_unit_bounds(p as nat, top as nat);
        vstd::arithmetic::div_mod::lemma_fundamental_div_mod(p as int, u as int);
        vstd::arithmetic::div_mod::lemma_mod_bound(p as int, u as int);
    }
    let rest: u128 = p % u;
    let whole: u128 = p / u;
    proof {
        assert(whole < top) by (nonlinear_arith)
            requires
                p == u * whole + rest,
                p < top * u,
                0 <= rest,
                u > 0,
        ;
        assert((whole + 1) * u == u * whole + u) by (nonlinear_arith);
        assert(u * whole == whole * u) by (nonlinear_arith);
    }
    if rest < u - rest || (rest == u - rest && whole % 2 == 0) {
        (whole, k)
    } else {
        (whole + 1, k)
    }
}

/// Rounds `p` so that its significand stays within `top`.
pub(crate) fn round_to(p: u128, top: u128) -> (r: u128)
    requires
        top >= 2,
        top % 2 == 0,
        p <= u128::MAX / 2,
    ensures
        r == rounded(p as nat, top as nat),
{
    let (u, _): (u128, u32) = unit_parts(p, top);
    proof {
        lemma_unit_bounds(p as nat, top as nat);
    }
    nearest(p, u)
}

/// The multiple of `u` nearest to `p`.
pub(crate) fn nearest(p: u128, u: u128) -> (r: u128)
    requires
        u > 0,
        p + u <= u128::MAX,
    ensures
        r == nearest_even(p as nat, u as nat),
{
    proof {
        vstd::arithmetic::div_mod::lemma_fundamental_div_mod(p as int, u as int);
        vstd::arithmetic::div_mod::lemma_mod_bound(p as int, u as int);
        assert(p as int % u as int <= p) by {
            vstd::arithmetic::div_mod::lemma_mod_decreases(p as nat, u as nat);
        }
    }
    let rest: u128 = p % u;
    let down: u128 = p - rest;
    if rest < u - rest || (rest == u - rest && (p / u) % 2 == 0) {
        down
    } else {
        down + u
    }
}

/// Rounding goes to the nearest number that can be held: a multiple of the distance between
/// neighbours, at most half of it away, and to the even multiple where two are equally near. The
/// distance is the least at which the significand stays below the bound.
pub proof fn law_rounding_goes_to_the_nearest(p: nat, top: nat)
    requires
        top >= 2,
        top % 2 == 0,
    ensures
        p < top * unit(p, top),
        p >= top ==> (top / 2) * unit(p, top) <= p,
        rounded(p, top) as int % unit(p, top) as int == 0,
        -unit(p, top) <= 2 * (rounded(p, top) - p) <= unit(p, top),
        2 * (rounded(p, top) - p) == unit(p, top) || 2 * (p - rounded(p, top)) == unit(p, top)
            ==> (rounded(p, top) as int / unit(p, top) as int) % 2 == 0,
{
    lemma_unit_bounds(p, top);
    let u = unit(p, top) as int;
    let q = p as int / u;
    let r = p as int % u;
    vstd::arithmetic::div_mod::lemma_fundamental_div_mod(p as int, u);
    vstd::arithmetic::div_mod::lemma_mod_bound(p as int, u);
    assert(u * (q + 1) == u * q + u) by (nonlinear_arith);
    vstd::arithmetic::div_mod::lemma_fundamental_div_mod_converse(u * q, u, q, 0);
    vstd::arithmetic::div_mod::lemma_fundamental_div_mod_converse(u * (q + 1), u, q + 1, 0);
    assert(rounded(p, top) == u * q || rounded(p, top) == u * (q + 1));
}

} // verus!
