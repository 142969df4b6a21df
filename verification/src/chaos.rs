//! Stochastic point generation: the chaos-game construction.
//!
//! An iterative alternative to recursive tessellation: starting from a seed
//! point, each step picks one of a fixed set of anchor vertices at random
//! and moves halfway from the current point toward it. The walk converges
//! onto the same attractor the tessellators approximate, but never by exact
//! construction, so its guarantees are about shape — every point stays in
//! any box that holds the seed and the anchors — not about exact positions.
//!
//! The randomness is injectable: the walks take the anchor choices as an
//! argument, and the `_random` variants draw them first, so every step after
//! the draw is verified for whatever came back.

use crate::fixed::HALF;
use crate::linear_algebra::{lemma_mid_val, midpoint2, midpoint3, Vec2, Vec3};
use vstd::arithmetic::div_mod::{lemma_div_is_ordered, lemma_div_multiples_vanish};
use vstd::prelude::*;

verus! {

/// Relies on `rand::Rng::gen_range` over `rand::thread_rng()`: it returns a
/// uniformly distributed value of the given range, here `0..n`; the range is
/// non-empty, so the call does not panic. Nothing more is assumed of the
/// drawn value than its bound.
#[verifier::external_body]
fn random_index(n: usize) -> (r: usize)
    requires
        n > 0,
    ensures
        r < n,
{
    rand::Rng::gen_range(&mut rand::thread_rng(), 0..n)
}

/// Draws `count` anchor choices, each a uniformly random index below `n`.
pub fn random_choices(count: usize, n: usize) -> (r: Vec<usize>)
    requires
        n > 0,
    ensures
        r@.len() == count,
        forall|i: int| 0 <= i < count ==> r@[i] < n,
{
    let mut r: Vec<usize> = Vec::new();
    let mut i: usize = 0;
    while i < count
        invariant
            n > 0,
            i <= count,
            r@.len() == i,
            forall|j: int| 0 <= j < i ==> r@[j] < n,
        decreases count - i,
    {
        r.push(random_index(n));
        i = i + 1;
    }
    r
}

/// One step of the planar walk, as the planar demo phrases it: the sum of
/// the current point and the chosen anchor, halved — the floor-midpoint of
/// the two.
pub fn step_2d(p: Vec2, anchor: Vec2) -> (r: Vec2)
    requires
        p.in_bounds(),
        anchor.in_bounds(),
    ensures
        r == midpoint2(p, anchor),
        r.in_bounds(),
{
    let s = p.add(anchor);
    let r = s.mul(HALF);
    proof {
        crate::fixed::lemma_scale_half(s.0 as int);
        crate::fixed::lemma_scale_half(s.1 as int);
        lemma_mid_val(p.0, anchor.0);
        lemma_mid_val(p.1, anchor.1);
    }
    r
}

/// One step of the spatial walk: the blend of the current point halfway
/// toward the chosen anchor — the same floor-midpoint, phrased through
/// `mix`.
pub fn step_3d(p: Vec3, anchor: Vec3) -> (r: Vec3)
    requires
        p.in_bounds(),
        anchor.in_bounds(),
    ensures
        r == midpoint3(p, anchor),
        r.in_bounds(),
{
    p.mix(&anchor, HALF)
}

/// The planar walk's seed: the midpoint of two edge midpoints of the anchor
/// triangle, an interior point of it.
pub fn seed_2d(a: Vec2, b: Vec2, c: Vec2) -> (r: Vec2)
    requires
        a.in_bounds(),
        b.in_bounds(),
        c.in_bounds(),
    ensures
        r == midpoint2(midpoint2(a, b), midpoint2(a, c)),
        r.in_bounds(),
{
    let u = step_2d(a, b);
    let v = step_2d(a, c);
    step_2d(u, v)
}

/// The planar walk as a sequence: the seed, then one floor-midpoint step
/// per anchor choice, in order.
pub open spec fn walk_2d_spec(anchors: Seq<Vec2>, choices: Seq<usize>, seed: Vec2) -> Seq<Vec2>
    decreases choices.len(),
{
    if choices.len() == 0 {
        seq![seed]
    } else {
        let prev = walk_2d_spec(anchors, choices.drop_last(), seed);
        prev.push(midpoint2(prev.last(), anchors[choices.last() as int]))
    }
}

/// The spatial walk as a sequence.
pub open spec fn walk_3d_spec(anchors: Seq<Vec3>, choices: Seq<usize>, seed: Vec3) -> Seq<Vec3>
    decreases choices.len(),
{
    if choices.len() == 0 {
        seq![seed]
    } else {
        let prev = walk_3d_spec(anchors, choices.drop_last(), seed);
        prev.push(midpoint3(prev.last(), anchors[choices.last() as int]))
    }
}

/// A walk holds its seed first and then steps halfway toward the chosen
/// anchor, point by point.
pub proof fn lemma_walk_2d_steps(anchors: Seq<Vec2>, choices: Seq<usize>, seed: Vec2)
    ensures
        walk_2d_spec(anchors, choices, seed).len() == choices.len() + 1,
        walk_2d_spec(anchors, choices, seed)[0] == seed,
        forall|i: int|
            1 <= i <= choices.len() ==> #[trigger] walk_2d_spec(anchors, choices, seed)[i]
                == midpoint2(
                walk_2d_spec(anchors, choices, seed)[i - 1],
                anchors[choices[i - 1] as int],
            ),
    decreases choices.len(),
{
    if choices.len() > 0 {
        lemma_walk_2d_steps(anchors, choices.drop_last(), seed);
        assert(forall|i: int|
            0 <= i < choices.len() ==> walk_2d_spec(anchors, choices, seed)[i]
                == walk_2d_spec(anchors, choices.drop_last(), seed)[i]);
    }
}

/// The spatial counterpart of `lemma_walk_2d_steps`.
pub proof fn lemma_walk_3d_steps(anchors: Seq<Vec3>, choices: Seq<usize>, seed: Vec3)
    ensures
        walk_3d_spec(anchors, choices, seed).len() == choices.len() + 1,
        walk_3d_spec(anchors, choices, seed)[0] == seed,
        forall|i: int|
            1 <= i <= choices.len() ==> #[trigger] walk_3d_spec(anchors, choices, seed)[i]
                == midpoint3(
                walk_3d_spec(anchors, choices, seed)[i - 1],
                anchors[choices[i - 1] as int],
            ),
    decreases choices.len(),
{
    if choices.len() > 0 {
        lemma_walk_3d_steps(anchors, choices.drop_last(), seed);
        assert(forall|i: int|
            0 <= i < choices.len() ==> walk_3d_spec(anchors, choices, seed)[i]
                == walk_3d_spec(anchors, choices.drop_last(), seed)[i]);
    }
}

/// Runs the planar walk over the given anchor choices.
pub fn walk_2d(anchors: &Vec<Vec2>, choices: &Vec<usize>, seed: Vec2) -> (points: Vec<Vec2>)
    requires
        seed.in_bounds(),
        forall|i: int| 0 <= i < anchors@.len() ==> (#[trigger] anchors@[i]).in_bounds(),
        forall|i: int| 0 <= i < choices@.len() ==> (#[trigger] choices@[i]) < anchors@.len(),
    ensures
        points@ == walk_2d_spec(anchors@, choices@, seed),
        points@.len() == choices@.len() + 1,
{
    let mut points: Vec<Vec2> = Vec::new();
    points.push(seed);
    let mut i: usize = 0;
    while i < choices.len()
        invariant
            seed.in_bounds(),
            forall|j: int| 0 <= j < anchors@.len() ==> (#[trigger] anchors@[j]).in_bounds(),
            forall|j: int| 0 <= j < choices@.len() ==> (#[trigger] choices@[j]) < anchors@.len(),
            i <= choices@.len(),
            points@ == walk_2d_spec(anchors@, choices@.take(i as int), seed),
            points@.len() == i + 1,
            points@.last().in_bounds(),
        decreases choices@.len() - i,
    {
        let choice = choices[i];
        let anchor = anchors[choice];
        let p = points[points.len() - 1];
        let next = step_2d(p, anchor);
        points.push(next);
        proof {
            let taken = choices@.take(i + 1);
            assert(taken.drop_last() =~= choices@.take(i as int));
            assert(taken.last() == choices@[i as int]);
            assert(points@ =~= walk_2d_spec(anchors@, taken, seed));
        }
        i = i + 1;
    }
    proof {
        assert(choices@.take(choices@.len() as int) =~= choices@);
    }
    points
}

/// Runs the spatial walk over the given anchor choices.
pub fn walk_3d(anchors: &Vec<Vec3>, choices: &Vec<usize>, seed: Vec3) -> (points: Vec<Vec3>)
    requires
        seed.in_bounds(),
        forall|i: int| 0 <= i < anchors@.len() ==> (#[trigger] anchors@[i]).in_bounds(),
        forall|i: int| 0 <= i < choices@.len() ==> (#[trigger] choices@[i]) < anchors@.len(),
    ensures
        points@ == walk_3d_spec(anchors@, choices@, seed),
        points@.len() == choices@.len() + 1,
{
    let mut points: Vec<Vec3> = Vec::new();
    points.push(seed);
    let mut i: usize = 0;
    while i < choices.len()
        invariant
            seed.in_bounds(),
            forall|j: int| 0 <= j < anchors@.len() ==> (#[trigger] anchors@[j]).in_bounds(),
            forall|j: int| 0 <= j < choices@.len() ==> (#[trigger] choices@[j]) < anchors@.len(),
            i <= choices@.len(),
            points@ == walk_3d_spec(anchors@, choices@.take(i as int), seed),
            points@.len() == i + 1,
            points@.last().in_bounds(),
        decreases choices@.len() - i,
    {
        let choice = choices[i];
        let anchor = anchors[choice];
        let p = points[points.len() - 1];
        let next = step_3d(p, anchor);
        points.push(next);
        proof {
            let taken = choices@.take(i + 1);
            assert(taken.drop_last() =~= choices@.take(i as int));
            assert(taken.last() == choices@[i as int]);
            assert(points@ =~= walk_3d_spec(anchors@, taken, seed));
        }
        i = i + 1;
    }
    proof {
        assert(choices@.take(choices@.len() as int) =~= choices@);
    }
    points
}

/// Generates the planar chaos-game point cloud of the anchor triangle
/// `a`, `b`, `c`: the interior seed, then `count` random halving steps.
/// Every point after the seed is the floor-midpoint of its predecessor and
/// one of the three anchors.
pub fn walk_2d_random(a: Vec2, b: Vec2, c: Vec2, count: usize) -> (points: Vec<Vec2>)
    requires
        a.in_bounds(),
        b.in_bounds(),
        c.in_bounds(),
    ensures
        points@.len() == count + 1,
        points@[0] == midpoint2(midpoint2(a, b), midpoint2(a, c)),
        forall|i: int|
            1 <= i <= count ==> exists|k: int|
                0 <= k < 3 && #[trigger] points@[i] == midpoint2(
                    points@[i - 1],
                    seq![a, b, c][k],
                ),
{
    let seed = seed_2d(a, b, c);
    let mut anchors: Vec<Vec2> = Vec::new();
    anchors.push(a);
    anchors.push(b);
    anchors.push(c);
    let choices = random_choices(count, 3);
    let points = walk_2d(&anchors, &choices, seed);
    proof {
        lemma_walk_2d_steps(anchors@, choices@, seed);
        assert(anchors@ =~= seq![a, b, c]);
        assert forall|i: int| 1 <= i <= count implies exists|k: int|
            0 <= k < 3 && #[trigger] points@[i] == midpoint2(
                points@[i - 1],
                seq![a, b, c][k],
            ) by {
            let k = choices@[i - 1] as int;
            assert(0 <= k < 3);
            assert(points@[i] == midpoint2(points@[i - 1], seq![a, b, c][k]));
        }
    }
    points
}

/// Generates the spatial chaos-game point cloud of the given anchors from
/// the given seed: the seed, then `count` random halving steps. Every point
/// after the seed is the floor-midpoint of its predecessor and one of the
/// anchors.
pub fn walk_3d_random(anchors: &Vec<Vec3>, seed: Vec3, count: usize) -> (points: Vec<Vec3>)
    requires
        anchors@.len() > 0,
        seed.in_bounds(),
        forall|i: int| 0 <= i < anchors@.len() ==> (#[trigger] anchors@[i]).in_bounds(),
    ensures
        points@.len() == count + 1,
        points@[0] == seed,
        forall|i: int|
            1 <= i <= count ==> exists|k: int|
                0 <= k < anchors@.len() && #[trigger] points@[i] == midpoint3(
                    points@[i - 1],
                    anchors@[k],
                ),
{
    let choices = random_choices(count, anchors.len());
    let points = walk_3d(anchors, &choices, seed);
    proof {
        lemma_walk_3d_steps(anchors@, choices@, seed);
        assert forall|i: int| 1 <= i <= count implies exists|k: int|
            0 <= k < anchors@.len() && #[trigger] points@[i] == midpoint3(
                points@[i - 1],
                anchors@[k],
            ) by {
            let k = choices@[i - 1] as int;
            assert(0 <= k < anchors@.len());
            assert(points@[i] == midpoint3(points@[i - 1], anchors@[k]));
        }
    }
    points
}

/// A point lying within the axis-aligned box with corners `lo` and `hi`.
pub open spec fn in_box_2d(p: Vec2, lo: Vec2, hi: Vec2) -> bool {
    lo.0 <= p.0 <= hi.0 && lo.1 <= p.1 <= hi.1
}

/// A point lying within the axis-aligned box with corners `lo` and `hi`.
pub open spec fn in_box_3d(p: Vec3, lo: Vec3, hi: Vec3) -> bool {
    lo.0 <= p.0 <= hi.0 && lo.1 <= p.1 <= hi.1 && lo.2 <= p.2 <= hi.2
}

/// The floor-midpoint of two coordinates in a range stays in the range.
proof fn lemma_mid_in_range(x: i64, y: i64, lo: i64, hi: i64)
    requires
        lo <= x <= hi,
        lo <= y <= hi,
    ensures
        lo <= crate::linear_algebra::mid_val(x, y) <= hi,
{
    let s = x as int + y as int;
    lemma_div_is_ordered(2 * (lo as int), s, 2);
    lemma_div_is_ordered(s, 2 * (hi as int), 2);
    lemma_div_multiples_vanish(lo as int, 2);
    lemma_div_multiples_vanish(hi as int, 2);
    assert(lo as int <= s / 2 <= hi as int);
    assert((s / 2) as i64 as int == s / 2);
}

/// Convergence onto the attractor's extent: every point of the planar walk
/// lies within any axis-aligned box that contains the seed and all the
/// anchors, however the anchors were chosen.
pub proof fn lemma_walk_2d_in_box(
    anchors: Seq<Vec2>,
    choices: Seq<usize>,
    seed: Vec2,
    lo: Vec2,
    hi: Vec2,
)
    requires
        in_box_2d(seed, lo, hi),
        forall|i: int| 0 <= i < anchors.len() ==> in_box_2d(#[trigger] anchors[i], lo, hi),
        forall|i: int| 0 <= i < choices.len() ==> (#[trigger] choices[i]) < anchors.len(),
    ensures
        forall|i: int|
            0 <= i < walk_2d_spec(anchors, choices, seed).len() ==> in_box_2d(
                #[trigger] walk_2d_spec(anchors, choices, seed)[i],
                lo,
                hi,
            ),
    decreases choices.len(),
{
    if choices.len() > 0 {
        lemma_walk_2d_in_box(anchors, choices.drop_last(), seed, lo, hi);
        let prev = walk_2d_spec(anchors, choices.drop_last(), seed);
        let anchor = anchors[choices.last() as int];
        lemma_mid_in_range(prev.last().0, anchor.0, lo.0, hi.0);
        lemma_mid_in_range(prev.last().1, anchor.1, lo.1, hi.1);
    }
}

/// The spatial counterpart of `lemma_walk_2d_in_box`.
pub proof fn lemma_walk_3d_in_box(
    anchors: Seq<Vec3>,
    choices: Seq<usize>,
    seed: Vec3,
    lo: Vec3,
    hi: Vec3,
)
    requires
        in_box_3d(seed, lo, hi),
        forall|i: int| 0 <= i < anchors.len() ==> in_box_3d(#[trigger] anchors[i], lo, hi),
        forall|i: int| 0 <= i < choices.len() ==> (#[trigger] choices[i]) < anchors.len(),
    ensures
        forall|i: int|
            0 <= i < walk_3d_spec(anchors, choices, seed).len() ==> in_box_3d(
                #[trigger] walk_3d_spec(anchors, choices, seed)[i],
                lo,
                hi,
            ),
    decreases choices.len(),
{
    if choices.len() > 0 {
        lemma_walk_3d_in_box(anchors, choices.drop_last(), seed, lo, hi);
        let prev = walk_3d_spec(anchors, choices.drop_last(), seed);
        let anchor = anchors[choices.last() as int];
        lemma_mid_in_range(prev.last().0, anchor.0, lo.0, hi.0);
        lemma_mid_in_range(prev.last().1, anchor.1, lo.1, hi.1);
        lemma_mid_in_range(prev.last().2, anchor.2, lo.2, hi.2);
    }
}

} // verus!
