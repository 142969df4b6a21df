use fractal_gl::fixed::ONE;
use fractal_gl::linear_algebra::{Vec2, Vec3};
use fractal_gl::tessellation::{base_color, divide_tetra, divide_triangle, tesselate, tetra};

#[test]
fn depth_zero_returns_the_three_inputs_in_anchor_order() {
    let a = Vec2(-ONE, -ONE);
    let b = Vec2(0, ONE);
    let c = Vec2(ONE, -ONE);
    let mut points = Vec::new();
    divide_triangle(&mut points, &a, &b, &c, 0);
    assert_eq!(points, vec![a, b, c]);

    let mut twisted = Vec::new();
    tesselate(&mut twisted, &a, &b, &c, 0);
    assert_eq!(twisted, vec![a, b, c]);
}

#[test]
fn gasket_depth_one_layout() {
    let a = Vec2(0, 2);
    let b = Vec2(4, 6);
    let c = Vec2(8, 10);
    let ab = Vec2(2, 4);
    let ac = Vec2(4, 6);
    let bc = Vec2(6, 8);
    let mut points = Vec::new();
    divide_triangle(&mut points, &a, &b, &c, 1);
    assert_eq!(points, vec![a, ab, ac, b, bc, ab, c, ac, bc]);
}

#[test]
fn twist_depth_one_emits_center_child_first() {
    let a = Vec2(0, 2);
    let b = Vec2(4, 6);
    let c = Vec2(8, 10);
    let ab = Vec2(2, 4);
    let ac = Vec2(4, 6);
    let bc = Vec2(6, 8);
    let mut points = Vec::new();
    tesselate(&mut points, &a, &b, &c, 1);
    assert_eq!(
        points,
        vec![ab, ac, bc, a, ab, ac, b, bc, ab, c, ac, bc]
    );
}

#[test]
fn gasket_vertex_count_is_three_times_three_to_the_depth() {
    let a = Vec2(-ONE, -ONE);
    let b = Vec2(0, ONE);
    let c = Vec2(ONE, -ONE);
    for (depth, expected) in [(0usize, 3usize), (1, 9), (2, 27), (3, 81), (4, 243), (5, 729)] {
        let mut points = Vec::new();
        divide_triangle(&mut points, &a, &b, &c, depth);
        assert_eq!(points.len(), expected);
    }
}

#[test]
fn twist_vertex_count_is_three_times_four_to_the_depth() {
    let a = Vec2(0, 49152);
    let b = Vec2(-49152, -49152);
    let c = Vec2(49152, -49152);
    for (depth, expected) in [(0usize, 3usize), (1, 12), (2, 48), (3, 192), (4, 768)] {
        let mut points = Vec::new();
        tesselate(&mut points, &a, &b, &c, depth);
        assert_eq!(points.len(), expected);
    }
}

#[test]
fn tetra_gasket_count_is_twelve_times_four_to_the_depth() {
    let a = Vec3(0, 0, -ONE);
    let b = Vec3(0, 61793, 21845);
    let c = Vec3(-53516, -30896, 21845);
    let d = Vec3(53516, -30896, 21845);
    for (depth, expected) in [(0usize, 12usize), (1, 48), (2, 192), (3, 768)] {
        let mut points = Vec::new();
        let mut colors = Vec::new();
        divide_tetra(&mut points, &mut colors, &a, &b, &c, &d, depth);
        assert_eq!(points.len(), expected);
        assert_eq!(colors.len(), expected);
    }
}

#[test]
fn leaf_tetrahedron_faces_and_color_table() {
    let a = Vec3(0, 0, 0);
    let b = Vec3(1, 0, 0);
    let c = Vec3(0, 1, 0);
    let d = Vec3(0, 0, 1);
    let mut points = Vec::new();
    let mut colors = Vec::new();
    tetra(&mut points, &mut colors, &a, &b, &c, &d);
    assert_eq!(points, vec![a, c, b, a, c, d, a, b, d, b, c, d]);
    let red = Vec3(ONE, 0, 0);
    let green = Vec3(0, ONE, 0);
    let blue = Vec3(0, 0, ONE);
    let black = Vec3(0, 0, 0);
    assert_eq!(
        colors,
        vec![red, red, red, green, green, green, blue, blue, blue, black, black, black]
    );
}

#[test]
fn face_color_table_is_fixed() {
    assert_eq!(base_color(0), Vec3(ONE, 0, 0));
    assert_eq!(base_color(1), Vec3(0, ONE, 0));
    assert_eq!(base_color(2), Vec3(0, 0, ONE));
    assert_eq!(base_color(3), Vec3(0, 0, 0));
}

#[test]
fn tessellation_appends_to_existing_output() {
    let a = Vec2(0, 0);
    let b = Vec2(2, 0);
    let c = Vec2(0, 2);
    let mut points = vec![Vec2(7, 7)];
    divide_triangle(&mut points, &a, &b, &c, 0);
    assert_eq!(points, vec![Vec2(7, 7), a, b, c]);
}
