use fractal_gl::accumulator::{primitive_for, PrimitiveKind, VertexAccumulator};
use fractal_gl::fixed::ONE;
use fractal_gl::linear_algebra::{Vec2, Vec3};

fn black() -> Vec3 {
    Vec3(0, 0, 0)
}

fn point(i: i64) -> Vec2 {
    Vec2(i, -i)
}

#[test]
fn non_wrapping_capacity_bound() {
    let mut acc = VertexAccumulator::new(4, false, Vec2(0, 0), black());
    for i in 0..4i64 {
        assert_eq!(acc.submit(point(i), black()), Some(i as usize));
    }
    let before: Vec<Vec2> = acc.positions().clone();
    // every submission beyond capacity is a silent no-op
    for i in 4..9i64 {
        assert_eq!(acc.submit(point(i), black()), None);
    }
    assert_eq!(acc.total_count(), 4);
    assert_eq!(acc.positions(), &before);
    assert_eq!(acc.positions(), &vec![point(0), point(1), point(2), point(3)]);
    assert_eq!(acc.draw_count(), 4);
}

#[test]
fn wrapping_overwrites_oldest_slots() {
    let mut acc = VertexAccumulator::new(4, true, Vec2(0, 0), black());
    // capacity + 2 submissions
    for i in 0..6i64 {
        let expected = (i as usize) % 4;
        assert_eq!(acc.submit(point(i), black()), Some(expected));
    }
    assert_eq!(acc.total_count(), 6);
    // the first two slots hold the newest two points, the rest the first pass
    assert_eq!(acc.positions(), &vec![point(4), point(5), point(2), point(3)]);
    // the draw length is clamped to capacity
    assert_eq!(acc.draw_count(), 4);
}

#[test]
fn group_accounting() {
    let mut acc = VertexAccumulator::new(16, false, Vec2(0, 0), black());
    acc.submit(point(1), black());
    acc.submit(point(2), black());
    acc.close_group();
    acc.submit(point(3), black());
    acc.submit(point(4), black());
    acc.submit(point(5), black());
    assert_eq!(acc.closed_groups(), &vec![2]);
    assert_eq!(acc.open_group_length(), 3);
    assert_eq!(acc.total_count(), 5);
    let plan = acc.current_draw_plan();
    assert_eq!(plan.len(), 2);
    assert_eq!(plan[0].kind, PrimitiveKind::PolygonFan);
    assert_eq!(plan[0].first, 0);
    assert_eq!(plan[0].count, 2);
    let trailing = plan[plan.len() - 1];
    assert_eq!(trailing.kind, PrimitiveKind::PolygonFan);
    assert_eq!(trailing.first, 2);
    assert_eq!(trailing.count, 3);
}

#[test]
fn draw_plan_offsets_accumulate_over_groups() {
    let mut acc = VertexAccumulator::new(32, false, Vec2(0, 0), black());
    for i in 0..3i64 {
        acc.submit(point(i), black());
    }
    acc.close_group();
    for i in 3..8i64 {
        acc.submit(point(i), black());
    }
    acc.close_group();
    acc.submit(point(8), black());
    let plan = acc.current_draw_plan();
    assert_eq!(plan.len(), 3);
    assert_eq!((plan[0].first, plan[0].count), (0, 3));
    assert_eq!((plan[1].first, plan[1].count), (3, 5));
    assert_eq!((plan[2].first, plan[2].count), (8, 1));
    assert_eq!(plan[2].kind, PrimitiveKind::Points);
}

#[test]
fn primitive_kind_boundaries() {
    assert_eq!(primitive_for(0), PrimitiveKind::Points);
    assert_eq!(primitive_for(1), PrimitiveKind::Points);
    assert_eq!(primitive_for(2), PrimitiveKind::Line);
    assert_eq!(primitive_for(3), PrimitiveKind::PolygonFan);
    assert_eq!(primitive_for(4), PrimitiveKind::PolygonFan);
}

#[test]
fn trailing_plan_kind_follows_open_group_length() {
    let mut acc = VertexAccumulator::new(8, false, Vec2(0, 0), black());
    let kinds: [PrimitiveKind; 4] = [
        PrimitiveKind::Points,
        PrimitiveKind::Points,
        PrimitiveKind::Line,
        PrimitiveKind::PolygonFan,
    ];
    for (submitted, expected) in kinds.iter().enumerate() {
        let plan = acc.current_draw_plan();
        assert_eq!(plan[plan.len() - 1].kind, *expected);
        assert_eq!(plan[plan.len() - 1].count, submitted);
        acc.submit(point(submitted as i64), black());
    }
}

#[test]
fn closing_an_empty_group_records_a_zero_length_group() {
    let mut acc = VertexAccumulator::new(8, false, Vec2(0, 0), black());
    acc.close_group();
    assert_eq!(acc.closed_groups(), &vec![0]);
    assert_eq!(acc.open_group_length(), 0);
    let plan = acc.current_draw_plan();
    assert_eq!(plan.len(), 2);
    assert_eq!((plan[0].first, plan[0].count), (0, 0));
}

#[test]
fn submit_hex_writes_position_and_parsed_color() {
    let mut acc = VertexAccumulator::new(4, false, Vec2(0, 0), black());
    assert_eq!(acc.submit_hex(point(1), "#ff0000"), Some(0));
    assert_eq!(acc.submit_hex(point(2), "#0000ff"), Some(1));
    assert_eq!(acc.positions()[0], point(1));
    assert_eq!(acc.colors()[0], Vec3(ONE, 0, 0));
    assert_eq!(acc.colors()[1], Vec3(0, 0, ONE));
    assert_eq!(acc.total_count(), 2);
}

#[test]
fn submit_hex_drops_the_whole_submission_on_a_malformed_color() {
    let mut acc = VertexAccumulator::new(4, false, Vec2(0, 0), black());
    acc.submit_hex(point(1), "#00ff00");
    let before: Vec<Vec2> = acc.positions().clone();
    // all-or-nothing: the position is not written and no counter moves
    assert_eq!(acc.submit_hex(point(9), "green"), None);
    assert_eq!(acc.submit_hex(point(9), "#00ff0"), None);
    assert_eq!(acc.submit_hex(point(9), "#00ff0g"), None);
    assert_eq!(acc.submit_hex(point(9), "ff00000"), None);
    assert_eq!(acc.total_count(), 1);
    assert_eq!(acc.open_group_length(), 1);
    assert_eq!(acc.positions(), &before);
}

#[test]
fn wrapping_accumulator_reports_offsets_modulo_capacity() {
    let mut acc = VertexAccumulator::new(3, true, Vec2(0, 0), black());
    let offsets: Vec<Option<usize>> =
        (0..7i64).map(|i| acc.submit(point(i), black())).collect();
    assert_eq!(
        offsets,
        vec![Some(0), Some(1), Some(2), Some(0), Some(1), Some(2), Some(0)]
    );
    assert_eq!(acc.total_count(), 7);
    assert_eq!(acc.draw_count(), 3);
}
