use fractal_gl::fixed::{HALF, ONE};
use fractal_gl::linear_algebra::{Vec2, Vec3, Vec4};

#[test]
fn mix_midpoint_is_componentwise_average() {
    let a = Vec2(2, 4);
    let b = Vec2(4, 8);
    let m = a.mix(&b, HALF);
    assert_eq!(m, Vec2(3, 6));
}

#[test]
fn mix_midpoint_floors_odd_sums() {
    let a = Vec2(1, -1);
    let b = Vec2(2, -2);
    let m = a.mix(&b, HALF);
    // the exact averages are 1.5 and -1.5; rounding is toward negative infinity
    assert_eq!(m, Vec2(1, -2));
}

#[test]
fn mix_endpoint_weights() {
    let a = Vec2(12345, -678);
    let b = Vec2(-999, 424242);
    assert_eq!(a.mix(&b, ONE), a);
    assert_eq!(a.mix(&b, 0), b);
    let u = Vec3(1000, 2000, -3000);
    let v = Vec3(-4000, 5000, 6000);
    assert_eq!(u.mix(&v, ONE), u);
    assert_eq!(u.mix(&v, 0), v);
}

#[test]
fn mix_3d_midpoint() {
    let a = Vec3(0, 0, -ONE);
    let b = Vec3(0, ONE, 0);
    assert_eq!(a.mix(&b, HALF), Vec3(0, ONE / 2, -ONE / 2));
}

#[test]
fn add_and_mul_are_exact() {
    let a = Vec2(100, -200);
    let b = Vec2(300, 500);
    assert_eq!(a.add(b), Vec2(400, 300));
    // scaling by HALF floors the halves
    assert_eq!(Vec2(5, -5).mul(HALF), Vec2(2, -3));
    assert_eq!(Vec3(10, 20, 30).add(Vec3(1, 2, 3)), Vec3(11, 22, 33));
    assert_eq!(Vec3(8, -8, 9).mul(HALF), Vec3(4, -4, 4));
    // a full weight keeps the value
    assert_eq!(Vec2(77, -77).mul(ONE), Vec2(77, -77));
}

#[test]
fn flatten_round_trip_vec2() {
    let vs = [Vec2(1, 2), Vec2(3, 4), Vec2(-5, -6)];
    let buf = Vec2::flatten(&vs);
    assert_eq!(buf.len(), vs.len() * 2);
    for (i, v) in vs.iter().enumerate() {
        assert_eq!(buf[i * 2], v.0);
        assert_eq!(buf[i * 2 + 1], v.1);
    }
}

#[test]
fn flatten_round_trip_vec3() {
    let vs = [Vec3(9, 8, 7), Vec3(-1, 0, 1)];
    let buf = Vec3::flatten(&vs);
    assert_eq!(buf, vec![9, 8, 7, -1, 0, 1]);
}

#[test]
fn flatten_round_trip_vec4() {
    let vs = [Vec4(1, 2, 3, 4), Vec4(5, 6, 7, 8)];
    let buf = Vec4::flatten(&vs);
    assert_eq!(buf, vec![1, 2, 3, 4, 5, 6, 7, 8]);
}

#[test]
fn flatten_of_empty_is_empty() {
    let buf = Vec2::flatten(&[]);
    assert!(buf.is_empty());
}
