//! Vector primitives: fixed-arity coordinate tuples with componentwise
//! addition, uniform scaling, linear interpolation and a bulk `flatten` that
//! packs a sequence of vectors into one contiguous raw-coordinate buffer.

use crate::fixed::{
    blend, blend_c, bounded, bounded_sum, is_weight, lemma_blend_half, scale, scale_c, HALF,
};
use vstd::prelude::*;

verus! {

/// A two-component vector of raw fixed-point coordinates.
#[derive(Copy, Clone, Debug, PartialEq, Eq, Structural)]
pub struct Vec2(pub i64, pub i64);

/// A three-component vector of raw fixed-point coordinates.
#[derive(Copy, Clone, Debug, PartialEq, Eq, Structural)]
pub struct Vec3(pub i64, pub i64, pub i64);

/// A four-component vector of raw fixed-point coordinates.
#[derive(Copy, Clone, Debug, PartialEq, Eq, Structural)]
pub struct Vec4(pub i64, pub i64, pub i64, pub i64);

/// The floor of the exact average of two raw coordinates.
pub open spec fn mid_val(x: i64, y: i64) -> i64 {
    ((x as int + y as int) / 2) as i64
}

/// The componentwise floor-average of two vectors: the exact bisection point
/// of the segment between them, up to the final rounding step.
pub open spec fn midpoint2(a: Vec2, b: Vec2) -> Vec2 {
    Vec2(mid_val(a.0, b.0), mid_val(a.1, b.1))
}

/// The componentwise floor-average of two three-component vectors.
pub open spec fn midpoint3(a: Vec3, b: Vec3) -> Vec3 {
    Vec3(mid_val(a.0, b.0), mid_val(a.1, b.1), mid_val(a.2, b.2))
}

/// The floor-average of bounded coordinates is their exact spec-level
/// average and stays bounded.
pub proof fn lemma_mid_val(x: i64, y: i64)
    requires
        bounded(x),
        bounded(y),
    ensures
        mid_val(x, y) as int == (x as int + y as int) / 2,
        bounded(mid_val(x, y)),
        blend(x as int, y as int, HALF as int) == mid_val(x, y) as int,
{
    let s = x as int + y as int;
    assert(-2 * 0x100_0000_0000 <= s <= 2 * 0x100_0000_0000);
    assert(-0x100_0000_0000 <= s / 2 <= 0x100_0000_0000);
    assert((s / 2) as i64 as int == s / 2);
    lemma_blend_half(x as int, y as int);
}

/// Midpoint exactness: blending two coordinates at one half is exactly
/// their componentwise average whenever that average is whole; in general
/// it is the average's floor.
pub proof fn lemma_mix_half_exact(x: i64, y: i64)
    requires
        (x + y) % 2 == 0,
    ensures
        2 * blend(x as int, y as int, HALF as int) == x + y,
{
    lemma_blend_half(x as int, y as int);
    vstd::arithmetic::div_mod::lemma_fundamental_div_mod(x as int + y as int, 2);
}

impl Vec2 {
    /// Every component within the working coordinate range.
    pub open spec fn in_bounds(self) -> bool {
        bounded(self.0) && bounded(self.1)
    }

    /// Componentwise sum.
    pub fn add(self, rhs: Vec2) -> (r: Vec2)
        requires
            self.in_bounds(),
            rhs.in_bounds(),
        ensures
            r.0 as int == self.0 + rhs.0,
            r.1 as int == self.1 + rhs.1,
            bounded_sum(r.0) && bounded_sum(r.1),
    {
        Vec2(self.0 + rhs.0, self.1 + rhs.1)
    }

    /// Uniform scale by the weight `rhs` out of `ONE`.
    pub fn mul(self, rhs: i64) -> (r: Vec2)
        requires
            bounded_sum(self.0) && bounded_sum(self.1),
            is_weight(rhs),
        ensures
            r.0 as int == scale(self.0 as int, rhs as int),
            r.1 as int == scale(self.1 as int, rhs as int),
            bounded_sum(r.0) && bounded_sum(r.1),
    {
        Vec2(scale_c(self.0, rhs), scale_c(self.1, rhs))
    }

    /// The linear blend `self * scale + rhs * (1 - scale)`: at weight `ONE`
    /// it returns `self`, at weight `0` it returns `rhs`.
    pub fn mix(&self, rhs: &Vec2, scale: i64) -> (r: Vec2)
        requires
            self.in_bounds(),
            rhs.in_bounds(),
            is_weight(scale),
        ensures
            r.0 as int == blend(self.0 as int, rhs.0 as int, scale as int),
            r.1 as int == blend(self.1 as int, rhs.1 as int, scale as int),
            r.in_bounds(),
            scale == HALF ==> r == midpoint2(*self, *rhs),
    {
        let r = Vec2(blend_c(self.0, rhs.0, scale), blend_c(self.1, rhs.1, scale));
        proof {
            if scale == HALF {
                lemma_mid_val(self.0, rhs.0);
                lemma_mid_val(self.1, rhs.1);
            }
        }
        r
    }

    /// Packs the vectors into one contiguous buffer, two raw coordinates per
    /// vector, order preserved, no padding.
    pub fn flatten(vectors: &[Vec2]) -> (r: Vec<i64>)
        ensures
            r@.len() == vectors@.len() * 2,
            forall|i: int|
                0 <= i < vectors@.len() ==> r@[2 * i] == (#[trigger] vectors@[i]).0 && r@[2 * i
                    + 1] == vectors@[i].1,
    {
        let mut r: Vec<i64> = Vec::new();
        let mut idx: usize = 0;
        while idx < vectors.len()
            invariant
                idx <= vectors@.len(),
                r@.len() == idx * 2,
                forall|i: int|
                    0 <= i < idx ==> r@[2 * i] == (#[trigger] vectors@[i]).0 && r@[2 * i + 1]
                        == vectors@[i].1,
            decreases vectors@.len() - idx,
        {
            let v = vectors[idx];
            r.push(v.0);
            r.push(v.1);
            idx = idx + 1;
        }
        r
    }
}

impl Vec3 {
    /// Every component within the working coordinate range.
    pub open spec fn in_bounds(self) -> bool {
        bounded(self.0) && bounded(self.1) && bounded(self.2)
    }

    /// Componentwise sum.
    pub fn add(self, rhs: Vec3) -> (r: Vec3)
        requires
            self.in_bounds(),
            rhs.in_bounds(),
        ensures
            r.0 as int == self.0 + rhs.0,
            r.1 as int == self.1 + rhs.1,
            r.2 as int == self.2 + rhs.2,
            bounded_sum(r.0) && bounded_sum(r.1) && bounded_sum(r.2),
    {
        Vec3(self.0 + rhs.0, self.1 + rhs.1, self.2 + rhs.2)
    }

    /// Uniform scale by the weight `rhs` out of `ONE`.
    pub fn mul(self, rhs: i64) -> (r: Vec3)
        requires
            bounded_sum(self.0) && bounded_sum(self.1) && bounded_sum(self.2),
            is_weight(rhs),
        ensures
            r.0 as int == scale(self.0 as int, rhs as int),
            r.1 as int == scale(self.1 as int, rhs as int),
            r.2 as int == scale(self.2 as int, rhs as int),
            bounded_sum(r.0) && bounded_sum(r.1) && bounded_sum(r.2),
    {
        Vec3(scale_c(self.0, rhs), scale_c(self.1, rhs), scale_c(self.2, rhs))
    }

    /// The linear blend `self * scale + rhs * (1 - scale)`.
    pub fn mix(&self, rhs: &Vec3, scale: i64) -> (r: Vec3)
        requires
            self.in_bounds(),
            rhs.in_bounds(),
            is_weight(scale),
        ensures
            r.0 as int == blend(self.0 as int, rhs.0 as int, scale as int),
            r.1 as int == blend(self.1 as int, rhs.1 as int, scale as int),
            r.2 as int == blend(self.2 as int, rhs.2 as int, scale as int),
            r.in_bounds(),
            scale == HALF ==> r == midpoint3(*self, *rhs),
    {
        let r = Vec3(
            blend_c(self.0, rhs.0, scale),
            blend_c(self.1, rhs.1, scale),
            blend_c(self.2, rhs.2, scale),
        );
        proof {
            if scale == HALF {
                lemma_mid_val(self.0, rhs.0);
                lemma_mid_val(self.1, rhs.1);
                lemma_mid_val(self.2, rhs.2);
            }
        }
        r
    }

    /// Packs the vectors into one contiguous buffer, three raw coordinates
    /// per vector, order preserved, no padding.
    pub fn flatten(vectors: &[Vec3]) -> (r: Vec<i64>)
        ensures
            r@.len() == vectors@.len() * 3,
            forall|i: int|
                0 <= i < vectors@.len() ==> r@[3 * i] == (#[trigger] vectors@[i]).0 && r@[3 * i
                    + 1] == vectors@[i].1 && r@[3 * i + 2] == vectors@[i].2,
    {
        let mut r: Vec<i64> = Vec::new();
        let mut idx: usize = 0;
        while idx < vectors.len()
            invariant
                idx <= vectors@.len(),
                r@.len() == idx * 3,
                forall|i: int|
                    0 <= i < idx ==> r@[3 * i] == (#[trigger] vectors@[i]).0 && r@[3 * i + 1]
                        == vectors@[i].1 && r@[3 * i + 2] == vectors@[i].2,
            decreases vectors@.len() - idx,
        {
            let v = vectors[idx];
            r.push(v.0);
            r.push(v.1);
            r.push(v.2);
            idx = idx + 1;
        }
        r
    }
}

impl Vec4 {
    /// Every component within the working coordinate range.
    pub open spec fn in_bounds(self) -> bool {
        bounded(self.0) && bounded(self.1) && bounded(self.2) && bounded(self.3)
    }

    /// Packs the vectors into one contiguous buffer, four raw coordinates per
    /// vector, order preserved, no padding.
    pub fn flatten(vectors: &[Vec4]) -> (r: Vec<i64>)
        ensures
            r@.len() == vectors@.len() * 4,
            forall|i: int|
                0 <= i < vectors@.len() ==> r@[4 * i] == (#[trigger] vectors@[i]).0 && r@[4 * i
                    + 1] == vectors@[i].1 && r@[4 * i + 2] == vectors@[i].2 && r@[4 * i + 3]
                    == vectors@[i].3,
    {
        let mut r: Vec<i64> = Vec::new();
        let mut idx: usize = 0;
        while idx < vectors.len()
            invariant
                idx <= vectors@.len(),
                r@.len() == idx * 4,
                forall|i: int|
                    0 <= i < idx ==> r@[4 * i] == (#[trigger] vectors@[i]).0 && r@[4 * i + 1]
                        == vectors@[i].1 && r@[4 * i + 2] == vectors@[i].2 && r@[4 * i + 3]
                        == vectors@[i].3,
            decreases vectors@.len() - idx,
        {
            let v = vectors[idx];
            r.push(v.0);
            r.push(v.1);
            r.push(v.2);
            r.push(v.3);
            idx = idx + 1;
        }
        r
    }
}

} // verus!
