use intersection_core::geometry::{compute_rotated_corners, contains_point, sat_collision, Vec2};
use intersection_core::types::CollisionType;

#[test]
fn corners_tall_tag() {
    // A through tag is 24 wide and 100 tall; halved and padded by the
    // 2-unit buffer that makes half extents 14 and 52.
    let b = compute_rotated_corners(100, 100, CollisionType::NS, false);
    assert_eq!(b.c0, Vec2 { x: 86, y: 48 });
    assert_eq!(b.c1, Vec2 { x: 114, y: 48 });
    assert_eq!(b.c2, Vec2 { x: 114, y: 152 });
    assert_eq!(b.c3, Vec2 { x: 86, y: 152 });
}

#[test]
fn corners_wide_tag() {
    let b = compute_rotated_corners(0, 0, CollisionType::WS, false);
    assert_eq!(b.c0, Vec2 { x: -52, y: -14 });
    assert_eq!(b.c2, Vec2 { x: 52, y: 14 });
}

#[test]
fn corners_generic_tag_square() {
    let b = compute_rotated_corners(10, 20, CollisionType::GG, false);
    assert_eq!(b.c0, Vec2 { x: -42, y: -32 });
    assert_eq!(b.c2, Vec2 { x: 62, y: 72 });
}

#[test]
fn corners_heading_flag_swaps_extents() {
    let plain = compute_rotated_corners(0, 0, CollisionType::NS, false);
    let swapped = compute_rotated_corners(0, 0, CollisionType::NS, true);
    assert_eq!(plain.c0, Vec2 { x: -14, y: -52 });
    assert_eq!(swapped.c0, Vec2 { x: -52, y: -14 });
}

#[test]
fn overlap_basic() {
    let a = compute_rotated_corners(600, 250, CollisionType::NS, false);
    let b = compute_rotated_corners(650, 292, CollisionType::ES, false);
    assert!(sat_collision(&a, &b));
}

#[test]
fn overlap_symmetry_concrete() {
    let a = compute_rotated_corners(600, 250, CollisionType::NS, false);
    let b = compute_rotated_corners(650, 292, CollisionType::ES, false);
    assert_eq!(sat_collision(&a, &b), sat_collision(&b, &a));

    let c = compute_rotated_corners(0, 0, CollisionType::NS, false);
    let d = compute_rotated_corners(500, 500, CollisionType::NS, false);
    assert_eq!(sat_collision(&c, &d), sat_collision(&d, &c));
    assert!(!sat_collision(&c, &d));
}

#[test]
fn overlap_reflexive_concrete() {
    let a = compute_rotated_corners(123, 456, CollisionType::WL, true);
    assert!(sat_collision(&a, &a));
}

#[test]
fn separation_boundary() {
    // Two through-tag boxes have half extents 14 each, buffer
    // included.  At distance 28 the padded boxes touch and still
    // count as overlapping; one more unit separates them.
    let a = compute_rotated_corners(0, 0, CollisionType::NS, false);
    let touching = compute_rotated_corners(28, 0, CollisionType::NS, false);
    let apart = compute_rotated_corners(29, 0, CollisionType::NS, false);
    assert!(sat_collision(&a, &touching));
    assert!(!sat_collision(&a, &apart));
}

#[test]
fn separation_vertical() {
    // Same boundary on the y-axis: half heights are 52 each.
    let a = compute_rotated_corners(0, 0, CollisionType::NS, false);
    let touching = compute_rotated_corners(0, 104, CollisionType::NS, false);
    let apart = compute_rotated_corners(0, 105, CollisionType::NS, false);
    assert!(sat_collision(&a, &touching));
    assert!(!sat_collision(&a, &apart));
}

#[test]
fn contains_point_basic() {
    let b = compute_rotated_corners(100, 100, CollisionType::NS, false);
    assert!(contains_point(&b, 100, 100));
    assert!(contains_point(&b, 86, 48)); // bottom-left corner included
    assert!(!contains_point(&b, 114, 100)); // right edge excluded
    assert!(!contains_point(&b, 100, 152)); // top edge excluded
    assert!(!contains_point(&b, 200, 100));
}

#[test]
fn vec2_dot() {
    let a = Vec2::new(3, 4);
    let b = Vec2::new(-2, 5);
    assert_eq!(a.dot(b), 14);
}
