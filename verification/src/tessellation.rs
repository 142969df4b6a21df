//! Recursive midpoint tessellation.
//!
//! Three variants share one recursion shape: a base shape is split at edge
//! midpoints into children, each recursed one level shallower, and at depth
//! zero the leaf's vertices (and, for the colored variant, a fixed per-face
//! color) are appended to the output. The order in which children are visited
//! is part of each variant's contract: it fixes the layout of the emitted
//! vertex sequence, which determines draw order.

use crate::fixed::{HALF, ONE};
use crate::linear_algebra::{midpoint2, midpoint3, Vec2, Vec3};
use vstd::arithmetic::power::pow;
use vstd::prelude::*;

verus! {

/// The vertex sequence of the triangle gasket: at depth zero the three
/// anchors in order, else the three corner children, anchored at `a`, `b`,
/// `c` in that order, each keeping its anchor and the two facing edge
/// midpoints.
pub open spec fn gasket_vertices(a: Vec2, b: Vec2, c: Vec2, depth: nat) -> Seq<Vec2>
    decreases depth,
{
    if depth == 0 {
        seq![a, b, c]
    } else {
        let ab = midpoint2(a, b);
        let ac = midpoint2(a, c);
        let bc = midpoint2(b, c);
        gasket_vertices(a, ab, ac, (depth - 1) as nat) + gasket_vertices(
            b,
            bc,
            ab,
            (depth - 1) as nat,
        ) + gasket_vertices(c, ac, bc, (depth - 1) as nat)
    }
}

/// The vertex sequence of the twist tessellation: the same three corner
/// children as the gasket, but the center child — built from the three edge
/// midpoints — is recursed first, and no child is discarded.
pub open spec fn twist_vertices(a: Vec2, b: Vec2, c: Vec2, depth: nat) -> Seq<Vec2>
    decreases depth,
{
    if depth == 0 {
        seq![a, b, c]
    } else {
        let ab = midpoint2(a, b);
        let ac = midpoint2(a, c);
        let bc = midpoint2(b, c);
        twist_vertices(ab, ac, bc, (depth - 1) as nat) + twist_vertices(
            a,
            ab,
            ac,
            (depth - 1) as nat,
        ) + twist_vertices(b, bc, ab, (depth - 1) as nat) + twist_vertices(
            c,
            ac,
            bc,
            (depth - 1) as nat,
        )
    }
}

/// The fixed face-to-color table of the tetrahedron gasket; the entry is a
/// visualization convention, not derived from the geometry.
pub open spec fn face_color(idx: int) -> Vec3 {
    if idx == 0 {
        Vec3(ONE, 0, 0)
    } else if idx == 1 {
        Vec3(0, ONE, 0)
    } else if idx == 2 {
        Vec3(0, 0, ONE)
    } else {
        Vec3(0, 0, 0)
    }
}

/// The twelve vertices of one leaf tetrahedron: its four triangular faces in
/// the fixed emission order.
pub open spec fn tetra_vertices(a: Vec3, b: Vec3, c: Vec3, d: Vec3) -> Seq<Vec3> {
    seq![a, c, b, a, c, d, a, b, d, b, c, d]
}

/// The twelve color entries matching `tetra_vertices`: one fixed color per
/// face, repeated for the face's three vertices.
pub open spec fn tetra_face_colors() -> Seq<Vec3> {
    seq![
        face_color(0),
        face_color(0),
        face_color(0),
        face_color(1),
        face_color(1),
        face_color(1),
        face_color(2),
        face_color(2),
        face_color(2),
        face_color(3),
        face_color(3),
        face_color(3),
    ]
}

/// The vertex sequence of the tetrahedron gasket: at depth zero one leaf
/// tetrahedron, else the four corner children built from the six edge
/// midpoints, anchored at `a`, `b`, `c`, `d` in that order.
pub open spec fn tetra_gasket_vertices(a: Vec3, b: Vec3, c: Vec3, d: Vec3, depth: nat) -> Seq<
    Vec3,
>
    decreases depth,
{
    if depth == 0 {
        tetra_vertices(a, b, c, d)
    } else {
        let ab = midpoint3(a, b);
        let ac = midpoint3(a, c);
        let ad = midpoint3(a, d);
        let bc = midpoint3(b, c);
        let bd = midpoint3(b, d);
        let cd = midpoint3(c, d);
        tetra_gasket_vertices(a, ab, ac, ad, (depth - 1) as nat) + tetra_gasket_vertices(
            ab,
            b,
            bc,
            bd,
            (depth - 1) as nat,
        ) + tetra_gasket_vertices(ac, bc, c, cd, (depth - 1) as nat) + tetra_gasket_vertices(
            ad,
            bd,
            cd,
            d,
            (depth - 1) as nat,
        )
    }
}

/// The color sequence of the tetrahedron gasket: every leaf contributes the
/// same twelve entries, so the sequence depends on the depth alone.
pub open spec fn tetra_gasket_colors(depth: nat) -> Seq<Vec3>
    decreases depth,
{
    if depth == 0 {
        tetra_face_colors()
    } else {
        let child = tetra_gasket_colors((depth - 1) as nat);
        child + child + child + child
    }
}

/// Looks up the fixed color of leaf face `idx`.
pub fn base_color(idx: usize) -> (c: Vec3)
    requires
        idx < 4,
    ensures
        c == face_color(idx as int),
        c.in_bounds(),
{
    if idx == 0 {
        Vec3(ONE, 0, 0)
    } else if idx == 1 {
        Vec3(0, ONE, 0)
    } else if idx == 2 {
        Vec3(0, 0, ONE)
    } else {
        Vec3(0, 0, 0)
    }
}

/// Appends the triangle-gasket tessellation of the triangle `a`, `b`, `c` at
/// the given subdivision depth to `points`.
pub fn divide_triangle(points: &mut Vec<Vec2>, a: &Vec2, b: &Vec2, c: &Vec2, count: usize)
    requires
        a.in_bounds(),
        b.in_bounds(),
        c.in_bounds(),
    ensures
        final(points)@ == old(points)@ + gasket_vertices(*a, *b, *c, count as nat),
    decreases count,
{
    if count == 0 {
        points.push(*a);
        points.push(*b);
        points.push(*c);
        proof {
            assert(points@ =~= old(points)@ + gasket_vertices(*a, *b, *c, 0));
        }
    } else {
        let ab = a.mix(b, HALF);
        let ac = a.mix(c, HALF);
        let bc = b.mix(c, HALF);
        divide_triangle(points, a, &ab, &ac, count - 1);
        divide_triangle(points, b, &bc, &ab, count - 1);
        divide_triangle(points, c, &ac, &bc, count - 1);
        proof {
            assert(points@ =~= old(points)@ + gasket_vertices(*a, *b, *c, count as nat));
        }
    }
}

/// Appends the twist tessellation of the triangle `a`, `b`, `c` at the given
/// subdivision depth to `points`; the center child is emitted first.
pub fn tesselate(points: &mut Vec<Vec2>, a: &Vec2, b: &Vec2, c: &Vec2, count: usize)
    requires
        a.in_bounds(),
        b.in_bounds(),
        c.in_bounds(),
    ensures
        final(points)@ == old(points)@ + twist_vertices(*a, *b, *c, count as nat),
    decreases count,
{
    if count == 0 {
        points.push(*a);
        points.push(*b);
        points.push(*c);
        proof {
            assert(points@ =~= old(points)@ + twist_vertices(*a, *b, *c, 0));
        }
    } else {
        let ab = a.mix(b, HALF);
        let ac = a.mix(c, HALF);
        let bc = b.mix(c, HALF);
        tesselate(points, &ab, &ac, &bc, count - 1);
        tesselate(points, a, &ab, &ac, count - 1);
        tesselate(points, b, &bc, &ab, count - 1);
        tesselate(points, c, &ac, &bc, count - 1);
        proof {
            assert(points@ =~= old(points)@ + twist_vertices(*a, *b, *c, count as nat));
        }
    }
}

/// Appends one triangular face and three copies of its table color.
pub fn triangle(
    points: &mut Vec<Vec3>,
    colors: &mut Vec<Vec3>,
    a: &Vec3,
    b: &Vec3,
    c: &Vec3,
    color_idx: usize,
)
    requires
        color_idx < 4,
    ensures
        final(points)@ == old(points)@ + seq![*a, *b, *c],
        final(colors)@ == old(colors)@ + seq![
            face_color(color_idx as int),
            face_color(color_idx as int),
            face_color(color_idx as int),
        ],
{
    points.push(*a);
    colors.push(base_color(color_idx));
    points.push(*b);
    colors.push(base_color(color_idx));
    points.push(*c);
    colors.push(base_color(color_idx));
    proof {
        assert(points@ =~= old(points)@ + seq![*a, *b, *c]);
        assert(colors@ =~= old(colors)@ + seq![
            face_color(color_idx as int),
            face_color(color_idx as int),
            face_color(color_idx as int),
        ]);
    }
}

/// Appends the four faces of one leaf tetrahedron, each face tagged with its
/// table color.
pub fn tetra(points: &mut Vec<Vec3>, colors: &mut Vec<Vec3>, a: &Vec3, b: &Vec3, c: &Vec3, d: &Vec3)
    ensures
        final(points)@ == old(points)@ + tetra_vertices(*a, *b, *c, *d),
        final(colors)@ == old(colors)@ + tetra_face_colors(),
{
    triangle(points, colors, a, c, b, 0);
    triangle(points, colors, a, c, d, 1);
    triangle(points, colors, a, b, d, 2);
    triangle(points, colors, b, c, d, 3);
    proof {
        assert(points@ =~= old(points)@ + tetra_vertices(*a, *b, *c, *d));
        assert(colors@ =~= old(colors)@ + tetra_face_colors());
    }
}

/// Appends the tetrahedron-gasket tessellation of the tetrahedron `a`, `b`,
/// `c`, `d` at the given subdivision depth: vertices to `points` and the
/// matching per-face colors to `colors`.
#[verifier::rlimit(60)]
pub fn divide_tetra(
    points: &mut Vec<Vec3>,
    colors: &mut Vec<Vec3>,
    a: &Vec3,
    b: &Vec3,
    c: &Vec3,
    d: &Vec3,
    count: usize,
)
    requires
        a.in_bounds(),
        b.in_bounds(),
        c.in_bounds(),
        d.in_bounds(),
    ensures
        final(points)@ == old(points)@ + tetra_gasket_vertices(*a, *b, *c, *d, count as nat),
        final(colors)@ == old(colors)@ + tetra_gasket_colors(count as nat),
    decreases count,
{
    if count == 0 {
        tetra(points, colors, a, b, c, d);
    } else {
        let ab = a.mix(b, HALF);
        let ac = a.mix(c, HALF);
        let ad = a.mix(d, HALF);
        let bc = b.mix(c, HALF);
        let bd = b.mix(d, HALF);
        let cd = c.mix(d, HALF);
        divide_tetra(points, colors, a, &ab, &ac, &ad, count - 1);
        divide_tetra(points, colors, &ab, b, &bc, &bd, count - 1);
        divide_tetra(points, colors, &ac, &bc, c, &cd, count - 1);
        divide_tetra(points, colors, &ad, &bd, &cd, d, count - 1);
        proof {
            assert(points@ =~= old(points)@ + tetra_gasket_vertices(
                *a,
                *b,
                *c,
                *d,
                count as nat,
            ));
            assert(colors@ =~= old(colors)@ + tetra_gasket_colors(count as nat));
        }
    }
}

/// Depth-0 tessellation identity: at depth zero each triangle variant
/// returns exactly its three input vertices, in anchor order.
pub proof fn lemma_depth_zero_identity(a: Vec2, b: Vec2, c: Vec2)
    ensures
        gasket_vertices(a, b, c, 0) == seq![a, b, c],
        twist_vertices(a, b, c, 0) == seq![a, b, c],
{
}

/// Exponential growth of the triangle gasket: depth `d` emits `3 * 3^d`
/// vertices.
pub proof fn lemma_gasket_len(a: Vec2, b: Vec2, c: Vec2, depth: nat)
    ensures
        gasket_vertices(a, b, c, depth).len() == 3 * pow(3, depth),
    decreases depth,
{
    reveal(pow);
    if depth == 0 {
        assert(pow(3, 0) == 1);
    } else {
        let ab = midpoint2(a, b);
        let ac = midpoint2(a, c);
        let bc = midpoint2(b, c);
        lemma_gasket_len(a, ab, ac, (depth - 1) as nat);
        lemma_gasket_len(b, bc, ab, (depth - 1) as nat);
        lemma_gasket_len(c, ac, bc, (depth - 1) as nat);
        assert(pow(3, depth) == 3 * pow(3, (depth - 1) as nat));
    }
}

/// Exponential growth of the twist tessellation: depth `d` emits `3 * 4^d`
/// vertices.
pub proof fn lemma_twist_len(a: Vec2, b: Vec2, c: Vec2, depth: nat)
    ensures
        twist_vertices(a, b, c, depth).len() == 3 * pow(4, depth),
    decreases depth,
{
    reveal(pow);
    if depth == 0 {
        assert(pow(4, 0) == 1);
    } else {
        let ab = midpoint2(a, b);
        let ac = midpoint2(a, c);
        let bc = midpoint2(b, c);
        lemma_twist_len(ab, ac, bc, (depth - 1) as nat);
        lemma_twist_len(a, ab, ac, (depth - 1) as nat);
        lemma_twist_len(b, bc, ab, (depth - 1) as nat);
        lemma_twist_len(c, ac, bc, (depth - 1) as nat);
        assert(pow(4, depth) == 4 * pow(4, (depth - 1) as nat));
    }
}

/// Exponential growth of the tetrahedron gasket: depth `d` emits `12 * 4^d`
/// vertices — four faces of three vertices per leaf — and as many colors.
pub proof fn lemma_tetra_gasket_len(a: Vec3, b: Vec3, c: Vec3, d: Vec3, depth: nat)
    ensures
        tetra_gasket_vertices(a, b, c, d, depth).len() == 12 * pow(4, depth),
        tetra_gasket_colors(depth).len() == 12 * pow(4, depth),
    decreases depth,
{
    reveal(pow);
    if depth == 0 {
        assert(pow(4, 0) == 1);
    } else {
        let ab = midpoint3(a, b);
        let ac = midpoint3(a, c);
        let ad = midpoint3(a, d);
        let bc = midpoint3(b, c);
        let bd = midpoint3(b, d);
        let cd = midpoint3(c, d);
        lemma_tetra_gasket_len(a, ab, ac, ad, (depth - 1) as nat);
        lemma_tetra_gasket_len(ab, b, bc, bd, (depth - 1) as nat);
        lemma_tetra_gasket_len(ac, bc, c, cd, (depth - 1) as nat);
        lemma_tetra_gasket_len(ad, bd, cd, d, (depth - 1) as nat);
        assert(pow(4, depth) == 4 * pow(4, (depth - 1) as nat));
    }
}

} // verus!
