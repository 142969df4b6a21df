//! Fixed-point scalar arithmetic for surface coordinates.
//!
//! A coordinate is an `i64` raw value counting units of `1 / ONE`; `ONE`
//! therefore plays the role of `1.0` and `HALF` of `0.5`. Blend weights are
//! raw values in `[0, ONE]`. Every operation rounds at most once, toward
//! negative infinity.

use vstd::arithmetic::div_mod::{
    lemma_div_is_ordered, lemma_div_multiples_vanish, lemma_fundamental_div_mod,
    lemma_fundamental_div_mod_converse,
};
use vstd::prelude::*;

verus! {

/// Raw value of the scalar one: coordinates carry 16 fractional bits.
pub const ONE: i64 = 65536;

/// Raw value of the scalar one half, the blend weight of an exact bisection.
pub const HALF: i64 = 32768;

/// Largest raw magnitude a coordinate may have; keeps every product with a
/// blend weight comfortably inside `i64`.
pub const COORD_LIMIT: i64 = 0x100_0000_0000;

/// A raw coordinate value within the working range.
pub open spec fn bounded(x: i64) -> bool {
    -COORD_LIMIT <= x <= COORD_LIMIT
}

/// A raw value admissible as a blend weight.
pub open spec fn is_weight(t: i64) -> bool {
    0 <= t <= ONE
}

/// The scalar blend `x * t + y * (1 - t)` before scaling back down.
pub open spec fn blend_num(x: int, y: int, t: int) -> int {
    x * t + y * (ONE - t)
}

/// The fixed-point blend of `x` toward `y` with weight `t` out of `ONE`,
/// rounded once toward negative infinity.
pub open spec fn blend(x: int, y: int, t: int) -> int {
    blend_num(x, y, t) / (ONE as int)
}

/// The fixed-point product of a coordinate and a weight, rounded toward
/// negative infinity.
pub open spec fn scale(x: int, t: int) -> int {
    (x * t) / (ONE as int)
}

/// Scales a pre-multiplied raw value back down by `ONE`, rounding toward
/// negative infinity, with no signed division at run time.
pub fn scale_down(x: i64) -> (r: i64)
    requires
        -0x4000_0000_0000_0000 < x < 0x4000_0000_0000_0000,
    ensures
        r as int == (x as int) / (ONE as int),
{
    if x >= 0 {
        let q: u64 = (x as u64) / 65536;
        proof {
            assert((x as u64) as int == x as int);
            assert(q as int == (x as int) / (ONE as int));
        }
        q as i64
    } else {
        let m: u64 = (-x) as u64;
        let q: u64 = (m + 65535) / 65536;
        proof {
            assert(m as int == -(x as int));
            lemma_fundamental_div_mod((m + 65535) as int, ONE as int);
            let s = ((m + 65535) as int) % (ONE as int);
            assert((m + 65535) as int == (ONE as int) * (q as int) + s);
            assert(0 <= 65535int - s < ONE as int);
            assert(x as int == (-(q as int)) * (ONE as int) + (65535int - s)) by {
                assert((ONE as int) * (q as int) == (q as int) * (ONE as int)) by (nonlinear_arith);
                assert((-(q as int)) * (ONE as int) == -((q as int) * (ONE as int)))
                    by (nonlinear_arith);
            }
            lemma_fundamental_div_mod_converse(
                x as int,
                ONE as int,
                -(q as int),
                65535int - s,
            );
        }
        -(q as i64)
    }
}

/// A raw value no larger in magnitude than the sum of two bounded
/// coordinates; what scaling accepts.
pub open spec fn bounded_sum(x: i64) -> bool {
    -2 * COORD_LIMIT <= x <= 2 * COORD_LIMIT
}

/// Blends coordinate `x` toward `y` with weight `t` out of `ONE`.
pub fn blend_c(x: i64, y: i64, t: i64) -> (r: i64)
    requires
        bounded(x),
        bounded(y),
        is_weight(t),
    ensures
        r as int == blend(x as int, y as int, t as int),
        bounded(r),
{
    proof {
        assert(-0x100_0000_0000_0000 <= (x as int) * (t as int) <= 0x100_0000_0000_0000
            && -0x100_0000_0000_0000 <= (y as int) * (ONE - t) <= 0x100_0000_0000_0000)
            by (nonlinear_arith)
            requires
                bounded(x),
                bounded(y),
                is_weight(t),
        ;
        lemma_blend_between(x as int, y as int, t as int);
    }
    scale_down(x * t + y * (ONE - t))
}

/// Scales coordinate `x` by weight `t` out of `ONE`.
pub fn scale_c(x: i64, t: i64) -> (r: i64)
    requires
        bounded_sum(x),
        is_weight(t),
    ensures
        r as int == scale(x as int, t as int),
        x >= 0 ==> 0 <= r <= x,
        x < 0 ==> x <= r <= 0,
{
    proof {
        assert(-0x4000_0000_0000_0000 < (x as int) * (t as int) < 0x4000_0000_0000_0000)
            by (nonlinear_arith)
            requires
                bounded_sum(x),
                is_weight(t),
        ;
        lemma_scale_between(x as int, t as int);
    }
    scale_down(x * t)
}

/// The quotient of a weighted sum lies between the quotients of its bounds:
/// with weights summing to `ONE`, the blend stays between its endpoints.
pub proof fn lemma_blend_between(x: int, y: int, t: int)
    requires
        0 <= t <= ONE,
    ensures
        x <= y ==> x <= blend(x, y, t) <= y,
        y <= x ==> y <= blend(x, y, t) <= x,
{
    let lo = if x <= y { x } else { y };
    let hi = if x <= y { y } else { x };
    assert(lo * (ONE as int) <= blend_num(x, y, t) <= hi * (ONE as int)) by (nonlinear_arith)
        requires
            0 <= t <= ONE,
            lo <= x <= hi,
            lo <= y <= hi,
    ;
    lemma_div_is_ordered(lo * (ONE as int), blend_num(x, y, t), ONE as int);
    lemma_div_is_ordered(blend_num(x, y, t), hi * (ONE as int), ONE as int);
    lemma_div_multiples_vanish(lo, ONE as int);
    lemma_div_multiples_vanish(hi, ONE as int);
}

/// Scaling by a weight never moves a value away from zero.
pub proof fn lemma_scale_between(x: int, t: int)
    requires
        0 <= t <= ONE,
    ensures
        x >= 0 ==> 0 <= scale(x, t) <= x,
        x < 0 ==> x <= scale(x, t) <= 0,
{
    assert(scale(x, t) == blend(x, 0, t)) by {
        assert(blend_num(x, 0, t) == x * t) by (nonlinear_arith);
    }
    lemma_blend_between(x, 0, t);
}

/// A blend returns its first argument at full weight and its second at
/// zero weight.
pub proof fn lemma_blend_endpoints(x: int, y: int)
    ensures
        blend(x, y, ONE as int) == x,
        blend(x, y, 0) == y,
{
    assert(blend_num(x, y, ONE as int) == (ONE as int) * x) by (nonlinear_arith);
    assert(blend_num(x, y, 0) == (ONE as int) * y) by (nonlinear_arith);
    lemma_div_multiples_vanish(x, ONE as int);
    lemma_div_multiples_vanish(y, ONE as int);
}

/// Blending with weight `HALF` is the floor of the exact average.
pub proof fn lemma_blend_half(x: int, y: int)
    ensures
        blend(x, y, HALF as int) == (x + y) / 2,
{
    let q = (x + y) / 2;
    let r = (x + y) % 2;
    lemma_fundamental_div_mod(x + y, 2);
    assert(blend_num(x, y, HALF as int) == (x + y) * (HALF as int)) by (nonlinear_arith);
    assert((x + y) * (HALF as int) == q * (ONE as int) + r * (HALF as int)) by (nonlinear_arith)
        requires
            x + y == 2 * q + r,
    ;
    assert(0 <= r * (HALF as int) < ONE as int) by (nonlinear_arith)
        requires
            0 <= r < 2,
    ;
    lemma_fundamental_div_mod_converse(
        blend_num(x, y, HALF as int),
        ONE as int,
        q,
        r * (HALF as int),
    );
}

/// Scaling by `HALF` is the floor of the exact half.
pub proof fn lemma_scale_half(x: int)
    ensures
        scale(x, HALF as int) == x / 2,
{
    let q = x / 2;
    let r = x % 2;
    lemma_fundamental_div_mod(x, 2);
    assert(x * (HALF as int) == q * (ONE as int) + r * (HALF as int)) by (nonlinear_arith)
        requires
            x == 2 * q + r,
    ;
    assert(0 <= r * (HALF as int) < ONE as int) by (nonlinear_arith)
        requires
            0 <= r < 2,
    ;
    lemma_fundamental_div_mod_converse(x * (HALF as int), ONE as int, q, r * (HALF as int));
}

} // verus!
