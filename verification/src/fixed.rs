//! Decimal fixed-point scalars.
//!
//! A scalar is an `i64` holding the real value times [`SCALE`]. All products
//! and quotients round toward zero, exactly as the hardware would; the spec
//! function [`tdiv`] pins that rounding down so contracts can state results
//! exactly. Every range the engine works in is bounded by one of the limit
//! constants below, which keeps all intermediate arithmetic inside `i128`.

use vstd::prelude::*;

verus! {

use vstd::arithmetic::div_mod::{
    lemma_div_is_ordered,
    lemma_div_is_ordered_by_denominator,
    lemma_div_pos_is_pos,
    lemma_div_by_multiple,
    lemma_basic_div,
    lemma_fundamental_div_mod,
    lemma_mod_bound,
};

/// Fixed-point unit: a stored value of `SCALE` means the real number one.
pub const SCALE: i64 = 1_000_000;

/// Smallest zoom factor, the real value 0.001.
pub const ZOOM_MIN: i64 = 1_000;

/// Largest zoom factor, the real value 100.0.
pub const ZOOM_MAX: i64 = 100_000_000;

/// Camera focus and card centers are kept inside this bound.
pub const POS_LIMIT: i64 = 1_000_000_000_000_000;

/// Any world coordinate the engine computes stays inside this bound.
pub const WORLD_LIMIT: i64 = 4_000_000_000_000_000;

/// Normalized device coordinates are clamped into this bound on entry.
pub const NDC_LIMIT: i64 = 1_000_000_000;

/// Smallest accepted viewport aspect ratio (width over height).
pub const ASPECT_MIN: i64 = 1_000;

/// Largest accepted viewport aspect ratio.
pub const ASPECT_MAX: i64 = 1_000_000_000;

/// Pixel coordinates are clamped into this bound on entry.
pub const PIXEL_LIMIT: i64 = 1_000_000_000_000;

/// Largest accepted single-step zoom multiplier.
pub const FACTOR_MAX: i64 = 1_000_000_000;

/// Largest matrix entry `build_view_proj` will report before saturating.
pub const MATRIX_LIMIT: i64 = 4_000_000_000_000_000_000;

/// `v` pulled into the closed interval `[lo, hi]`.
pub open spec fn clamped(v: int, lo: int, hi: int) -> int {
    if v < lo {
        lo
    } else if v > hi {
        hi
    } else {
        v
    }
}

/// Magnitude of an integer.
pub open spec fn mag(a: int) -> int {
    if a >= 0 {
        a
    } else {
        -a
    }
}

/// Quotient of `a` by `b` rounded toward zero, the rounding executable
/// division uses. (The spec operator `/` rounds toward negative infinity.)
pub open spec fn tdiv(a: int, b: int) -> int {
    if a >= 0 {
        a / b
    } else {
        -((-a) / b)
    }
}

/// Remainder matching [`tdiv`]: `a == b * tdiv(a, b) + tmod(a, b)`.
pub open spec fn tmod(a: int, b: int) -> int {
    a - b * tdiv(a, b)
}

pub fn clamp64(v: i64, lo: i64, hi: i64) -> (r: i64)
    requires
        lo <= hi,
    ensures
        r == clamped(v as int, lo as int, hi as int),
{
    if v < lo {
        lo
    } else if v > hi {
        hi
    } else {
        v
    }
}

fn abs_mag(a: i64) -> (r: u128)
    ensures
        r == mag(a as int),
{
    if a >= 0 {
        a as u128
    } else {
        (-(a as i128)) as u128
    }
}

/// `clamped(tdiv(a * b, d), lo, hi)`, computed without overflow by going
/// through unsigned 128-bit magnitudes.
pub fn mul_div_clamp(a: i64, b: i64, d: i64, lo: i64, hi: i64) -> (r: i64)
    requires
        1 <= d,
        lo <= hi,
    ensures
        r == clamped(tdiv((a as int) * (b as int), d as int), lo as int, hi as int),
{
    let an = abs_mag(a);
    let bn = abs_mag(b);
    let neg = (a < 0) != (b < 0);
    proof {
        assert(an * bn <= 0x40000000000000000000000000000000) by (nonlinear_arith)
            requires
                an <= 0x8000000000000000,
                bn <= 0x8000000000000000,
        ;
        assert((an as int) * (bn as int) == mag((a as int) * (b as int))) by (nonlinear_arith)
            requires
                an == mag(a as int),
                bn == mag(b as int),
        ;
    }
    let prod = an * bn;
    let q = prod / (d as u128);
    proof {
        lemma_div_is_ordered(0, prod as int, d as int);
        lemma_div_is_ordered(prod as int, 0x80000000000000000000000000000000 - 1, d as int);
        assert(q < 0x80000000000000000000000000000000);
    }
    let qi: i128 = if neg { -(q as i128) } else { q as i128 };
    proof {
        let ab = (a as int) * (b as int);
        let di = d as int;
        assert((d as u128) as int == di);
        assert(q == (prod as int) / di);
        if ab >= 0 {
            assert(prod == ab);
            assert(tdiv(ab, di) == ab / di);
            if neg {
                assert(ab == 0) by (nonlinear_arith)
                    requires
                        ab == (a as int) * (b as int),
                        ab >= 0,
                        (a < 0) != (b < 0),
                ;
                lemma_basic_div(0, di);
                assert(q == 0);
                assert(qi == 0);
            } else {
                assert(qi == q);
            }
        } else {
            assert(prod == -ab);
            assert(neg) by (nonlinear_arith)
                requires
                    (a as int) * (b as int) < 0,
                    ab == (a as int) * (b as int),
                    neg == ((a < 0) != (b < 0)),
            ;
            assert(tdiv(ab, di) == -((-ab) / di));
            assert(qi == -(q as int));
        }
        assert(qi == tdiv(ab, di));
    }
    let lo1 = lo as i128;
    let hi1 = hi as i128;
    let c: i128 = if qi < lo1 {
        lo1
    } else if qi > hi1 {
        hi1
    } else {
        qi
    };
    c as i64
}

/// Negating the numerator negates a truncating quotient.
pub proof fn lemma_tdiv_neg(a: int, b: int)
    requires
        b >= 1,
    ensures
        tdiv(-a, b) == -tdiv(a, b),
{
    if a == 0 {
        assert(tdiv(0, b) == 0int / b);
    } else if a > 0 {
        assert(tdiv(-a, b) == -(a / b));
        assert(tdiv(a, b) == a / b);
    } else {
        assert(tdiv(-a, b) == (-a) / b);
        assert(tdiv(a, b) == -((-a) / b));
    }
}

/// Truncating division is monotone in the numerator.
pub proof fn lemma_tdiv_mono(a1: int, a2: int, b: int)
    requires
        b >= 1,
        a1 <= a2,
    ensures
        tdiv(a1, b) <= tdiv(a2, b),
{
    if a1 >= 0 {
        lemma_div_is_ordered(a1, a2, b);
    } else if a2 < 0 {
        lemma_div_is_ordered(-a2, -a1, b);
    } else {
        lemma_div_pos_is_pos(-a1, b);
        lemma_div_pos_is_pos(a2, b);
    }
}

/// A numerator bounded in magnitude gives a quotient bounded in magnitude.
pub proof fn lemma_tdiv_bound(a: int, m: int, b: int)
    requires
        b >= 1,
        -m <= a <= m,
    ensures
        -tdiv(m, b) <= tdiv(a, b) <= tdiv(m, b),
{
    lemma_tdiv_mono(a, m, b);
    lemma_tdiv_mono(-m, a, b);
    lemma_tdiv_neg(m, b);
}

/// Dividing an exact multiple recovers the factor.
pub proof fn lemma_tdiv_exact(k: int, b: int)
    requires
        b >= 1,
    ensures
        tdiv(k * b, b) == k,
{
    if k >= 0 {
        lemma_div_by_multiple(k, b);
        assert(tdiv(k * b, b) == (k * b) / b);
    } else {
        lemma_div_by_multiple(-k, b);
        assert((-k) * b == -(k * b)) by (nonlinear_arith);
        assert(k * b <= 0) by (nonlinear_arith)
            requires
                k < 0,
                b >= 1,
        ;
        if k * b == 0 {
            assert(k * b == k * b);
            assert((-k) * b > 0) by (nonlinear_arith)
                requires
                    k < 0,
                    b >= 1,
            ;
        }
        assert(tdiv(k * b, b) == -((-(k * b)) / b));
        assert(((-k) * b) / b == -k);
    }
}

/// The remainder of a truncating division is smaller than the divisor in
/// magnitude and carries the numerator's sign.
pub proof fn lemma_tmod_bound(a: int, b: int)
    requires
        b >= 1,
    ensures
        a == b * tdiv(a, b) + tmod(a, b),
        -b < tmod(a, b) < b,
        a >= 0 ==> tmod(a, b) >= 0,
        a <= 0 ==> tmod(a, b) <= 0,
{
    if a >= 0 {
        lemma_fundamental_div_mod(a, b);
        lemma_mod_bound(a, b);
        assert(tmod(a, b) == a % b);
    } else {
        lemma_fundamental_div_mod(-a, b);
        lemma_mod_bound(-a, b);
        assert(tdiv(a, b) == -((-a) / b));
        assert(b * tdiv(a, b) == -(b * ((-a) / b))) by (nonlinear_arith)
            requires
                tdiv(a, b) == -((-a) / b),
        ;
        assert(tmod(a, b) == -((-a) % b));
    }
}

/// A quotient of a near-multiple of the divisor lands near the factor.
pub proof fn lemma_tdiv_near_multiple(q: int, z: int, r: int, m: int)
    requires
        z >= 1,
        m >= 0,
        -m <= r <= m,
    ensures
        q - tdiv(m, z) - 1 <= tdiv(q * z - r, z) <= q + tdiv(m, z) + 1,
{
    let k = tdiv(m, z);
    assert(k == m / z);
    lemma_fundamental_div_mod(m, z);
    lemma_mod_bound(m, z);
    assert(m < z * (k + 1)) by (nonlinear_arith)
        requires
            m == z * (m / z) + m % z,
            m % z < z,
            k == m / z,
    ;
    assert((q - k - 1) * z <= q * z - r) by (nonlinear_arith)
        requires
            r <= m,
            m < z * (k + 1),
            z >= 1,
    ;
    assert(q * z - r <= (q + k + 1) * z) by (nonlinear_arith)
        requires
            -m <= r,
            m < z * (k + 1),
            z >= 1,
    ;
    lemma_tdiv_mono((q - k - 1) * z, q * z - r, z);
    lemma_tdiv_mono(q * z - r, (q + k + 1) * z, z);
    lemma_tdiv_exact(q - k - 1, z);
    lemma_tdiv_exact(q + k + 1, z);
}

/// Growing the divisor cannot grow a truncating quotient's magnitude.
pub proof fn lemma_tdiv_denominator(a: int, b1: int, b2: int)
    requires
        1 <= b1 <= b2,
        a >= 0,
    ensures
        tdiv(a, b2) <= tdiv(a, b1),
{
    lemma_div_is_ordered_by_denominator(a, b1, b2);
}

} // verus!
