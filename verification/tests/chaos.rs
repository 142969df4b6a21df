use fractal_gl::chaos::{seed_2d, walk_2d, walk_2d_random, walk_3d, walk_3d_random};
use fractal_gl::fixed::ONE;
use fractal_gl::linear_algebra::{Vec2, Vec3};

fn triangle_anchors() -> (Vec2, Vec2, Vec2) {
    (Vec2(-ONE, -ONE), Vec2(0, ONE), Vec2(ONE, -ONE))
}

fn mid2(a: Vec2, b: Vec2) -> Vec2 {
    Vec2((a.0 + b.0).div_euclid(2), (a.1 + b.1).div_euclid(2))
}

fn mid3(a: Vec3, b: Vec3) -> Vec3 {
    Vec3(
        (a.0 + b.0).div_euclid(2),
        (a.1 + b.1).div_euclid(2),
        (a.2 + b.2).div_euclid(2),
    )
}

#[test]
fn seed_is_the_midpoint_of_two_edge_midpoints() {
    let (a, b, c) = triangle_anchors();
    let u = mid2(a, b);
    let v = mid2(a, c);
    assert_eq!(seed_2d(a, b, c), mid2(u, v));
    assert_eq!(seed_2d(a, b, c), Vec2(-16384, -32768));
}

#[test]
fn planar_walk_follows_the_chosen_anchors_exactly() {
    let (a, b, c) = triangle_anchors();
    let anchors = vec![a, b, c];
    let choices = vec![0usize, 1, 2, 2, 0];
    let seed = seed_2d(a, b, c);
    let points = walk_2d(&anchors, &choices, seed);
    assert_eq!(points.len(), choices.len() + 1);
    assert_eq!(points[0], seed);
    for (i, &k) in choices.iter().enumerate() {
        assert_eq!(points[i + 1], mid2(points[i], anchors[k]));
    }
}

#[test]
fn spatial_walk_follows_the_chosen_anchors_exactly() {
    let anchors = vec![
        Vec3(0, 0, -ONE),
        Vec3(0, 61793, 21845),
        Vec3(-53516, -30896, 21845),
        Vec3(53516, -30896, 21845),
    ];
    let choices = vec![3usize, 0, 1, 2];
    let seed = Vec3(0, 0, 0);
    let points = walk_3d(&anchors, &choices, seed);
    assert_eq!(points.len(), choices.len() + 1);
    assert_eq!(points[0], seed);
    for (i, &k) in choices.iter().enumerate() {
        assert_eq!(points[i + 1], mid3(points[i], anchors[k]));
    }
}

#[test]
fn random_planar_walk_steps_toward_some_anchor() {
    let (a, b, c) = triangle_anchors();
    let anchors = [a, b, c];
    let points = walk_2d_random(a, b, c, 500);
    assert_eq!(points.len(), 501);
    assert_eq!(points[0], seed_2d(a, b, c));
    for i in 1..points.len() {
        let prev = points[i - 1];
        let matched = anchors.iter().any(|&v| points[i] == mid2(prev, v));
        assert!(matched, "step {} is not a halving step toward an anchor", i);
    }
}

#[test]
fn random_planar_walk_stays_in_the_anchor_hull() {
    let (a, b, c) = triangle_anchors();
    let n = 10_000;
    let points = walk_2d_random(a, b, c, n);
    assert_eq!(points.len(), n + 1);
    let eps = 1e-3;
    for p in &points {
        let x = p.0 as f64 / ONE as f64;
        let y = p.1 as f64 / ONE as f64;
        // the convex hull of the anchors (-1,-1), (0,1), (1,-1)
        assert!(y >= -1.0 - eps);
        assert!(y <= 2.0 * x + 1.0 + eps);
        assert!(y <= -2.0 * x + 1.0 + eps);
    }
}

#[test]
fn random_planar_walk_centroid_approaches_the_anchor_centroid() {
    let (a, b, c) = triangle_anchors();
    let n = 20_000;
    let points = walk_2d_random(a, b, c, n);
    let (mut sx, mut sy) = (0.0f64, 0.0f64);
    for p in &points {
        sx += p.0 as f64 / ONE as f64;
        sy += p.1 as f64 / ONE as f64;
    }
    let cx = sx / points.len() as f64;
    let cy = sy / points.len() as f64;
    // the attractor's centroid is the anchors' centroid, (0, -1/3)
    assert!(cx.abs() < 0.05, "centroid x drifted: {}", cx);
    assert!((cy + 1.0 / 3.0).abs() < 0.05, "centroid y drifted: {}", cy);
}

#[test]
fn random_spatial_walk_stays_in_the_bounding_box() {
    let anchors = vec![
        Vec3(0, 0, -ONE),
        Vec3(0, 61793, 21845),
        Vec3(-53516, -30896, 21845),
        Vec3(53516, -30896, 21845),
    ];
    let seed = Vec3(0, 0, 0);
    let n = 50_000;
    let points = walk_3d_random(&anchors, seed, n);
    assert_eq!(points.len(), n + 1);
    assert_eq!(points[0], seed);
    let lo = (-53516i64, -30896i64, -ONE);
    let hi = (53516i64, 61793i64, 21845i64);
    for p in &points {
        assert!(lo.0 <= p.0 && p.0 <= hi.0);
        assert!(lo.1 <= p.1 && p.1 <= hi.1);
        assert!(lo.2 <= p.2 && p.2 <= hi.2);
    }
}

#[test]
fn random_spatial_walk_centroid_approaches_the_anchor_centroid() {
    let anchors = vec![
        Vec3(0, 0, -ONE),
        Vec3(0, 61793, 21845),
        Vec3(-53516, -30896, 21845),
        Vec3(53516, -30896, 21845),
    ];
    let seed = Vec3(0, 0, 0);
    let n = 50_000;
    let points = walk_3d_random(&anchors, seed, n);
    let mut sums = (0.0f64, 0.0f64, 0.0f64);
    for p in &points {
        sums.0 += p.0 as f64;
        sums.1 += p.1 as f64;
        sums.2 += p.2 as f64;
    }
    let count = points.len() as f64;
    let centroid = (sums.0 / count, sums.1 / count, sums.2 / count);
    let anchor_centroid = (0.0, 0.25f64 * (61793.0 - 2.0 * 30896.0), 0.25f64 * (-65536.0 + 3.0 * 21845.0));
    let tol = 0.05 * ONE as f64;
    assert!((centroid.0 - anchor_centroid.0).abs() < tol);
    assert!((centroid.1 - anchor_centroid.1).abs() < tol);
    assert!((centroid.2 - anchor_centroid.2).abs() < tol);
}
