use sprite_anim::geometry::{midpoint, Point};

#[test]
fn midpoint_of_surface_diagonal_is_exact() {
    let m = midpoint(Point { x: 0, y: 0 }, Point { x: 600, y: 600 });
    assert_eq!(m, Point { x: 300, y: 300 });
}

#[test]
fn midpoint_rounds_down_on_odd_sums() {
    assert_eq!(midpoint(Point { x: 1, y: 0 }, Point { x: 2, y: 5 }), Point { x: 1, y: 2 });
    assert_eq!(midpoint(Point { x: -3, y: 0 }, Point { x: 0, y: -1 }), Point { x: -2, y: -1 });
}

#[test]
fn midpoint_of_extremes_does_not_overflow() {
    let m = midpoint(Point { x: i64::MAX, y: i64::MIN }, Point { x: i64::MAX, y: i64::MIN });
    assert_eq!(m, Point { x: i64::MAX, y: i64::MIN });
    let m = midpoint(Point { x: i64::MAX, y: i64::MIN }, Point { x: i64::MIN, y: i64::MAX });
    assert_eq!(m, Point { x: -1, y: -1 });
}
