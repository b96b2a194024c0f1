//! Oriented bounding boxes and the separating-axis overlap test.
//!
//! Every vehicle footprint is an axis-aligned rectangle in this
//! coordinate frame: a vehicle faces one of the four cardinal
//! directions, and a mid-turn heading is approximated by swapping the
//! rectangle's width and height rather than by a true rotation.  The
//! overlap test is still written as a full separating-axis scan over
//! the eight edge normals, and is proved equivalent to interval overlap
//! on both coordinate axes.  Axes are not normalized: scaling an axis
//! by a positive factor scales both projection intervals alike, so it
//! cannot change whether they are disjoint.

use vstd::prelude::*;
use crate::types::CollisionType;

verus! {

/// Fixed safety margin added on every side of a vehicle's nominal
/// footprint before overlap testing.
pub const HITBOX_BUFFER: i64 = 2;

/// Bound on any coordinate a box corner may hold; keeps every product
/// formed by the separating-axis test inside `i64`.
pub const COORD_LIMIT: i64 = 1_000_000;

/// Bound on a vehicle position handed to box construction; leaves room
/// for the largest half extent plus the buffer.
pub const POS_LIMIT: i64 = 999_000;

pub open spec fn coord_in_range(v: int) -> bool {
    -COORD_LIMIT <= v <= COORD_LIMIT
}

pub open spec fn pos_in_range(v: int) -> bool {
    -POS_LIMIT <= v <= POS_LIMIT
}

/// A plane vector with integer coordinates.
#[derive(Debug, Clone, Copy, PartialEq, Eq, Structural)]
pub struct Vec2 {
    pub x: i64,
    pub y: i64,
}

/// Dot product over unbounded integers.
pub open spec fn dot2(a: Vec2, b: Vec2) -> int {
    a.x * b.x + a.y * b.y
}

pub open spec fn min2(p: int, q: int) -> int {
    if p <= q { p } else { q }
}

pub open spec fn max2(p: int, q: int) -> int {
    if p >= q { p } else { q }
}

impl Vec2 {
    pub fn new(x: i64, y: i64) -> (v: Vec2)
        ensures
            v.x == x,
            v.y == y,
    {
        Vec2 { x, y }
    }

    /// Dot product; the bounds keep both partial products in `i64`.
    pub fn dot(self, other: Vec2) -> (d: i64)
        requires
            -2 * COORD_LIMIT <= self.x <= 2 * COORD_LIMIT,
            -2 * COORD_LIMIT <= self.y <= 2 * COORD_LIMIT,
            coord_in_range(other.x as int),
            coord_in_range(other.y as int),
        ensures
            d == dot2(self, other),
    {
        proof {
            assert(-2_000_000_000_000 <= self.x as int * other.x as int <= 2_000_000_000_000)
                by (nonlinear_arith)
                requires
                    -2_000_000 <= self.x as int <= 2_000_000,
                    -1_000_000 <= other.x as int <= 1_000_000;
            assert(-2_000_000_000_000 <= self.y as int * other.y as int <= 2_000_000_000_000)
                by (nonlinear_arith)
                requires
                    -2_000_000 <= self.y as int <= 2_000_000,
                    -1_000_000 <= other.y as int <= 1_000_000;
        }
        self.x * other.x + self.y * other.y
    }
}

/// A vehicle footprint: four corners listed counter-clockwise starting
/// at the corner with the smallest coordinates.
#[derive(Debug, Clone, Copy, PartialEq, Eq, Structural)]
pub struct OrientedBox {
    pub c0: Vec2,
    pub c1: Vec2,
    pub c2: Vec2,
    pub c3: Vec2,
}

impl OrientedBox {
    pub open spec fn left(self) -> int {
        self.c0.x as int
    }

    pub open spec fn right(self) -> int {
        self.c1.x as int
    }

    pub open spec fn bottom(self) -> int {
        self.c0.y as int
    }

    pub open spec fn top(self) -> int {
        self.c2.y as int
    }

    /// Well-formed: the corners trace an axis-aligned rectangle with
    /// positive extents, all coordinates within the working range.
    pub open spec fn wf(self) -> bool {
        &&& self.c0.y == self.c1.y
        &&& self.c2.y == self.c3.y
        &&& self.c0.x == self.c3.x
        &&& self.c1.x == self.c2.x
        &&& self.c0.x < self.c1.x
        &&& self.c0.y < self.c2.y
        &&& coord_in_range(self.c0.x as int)
        &&& coord_in_range(self.c1.x as int)
        &&& coord_in_range(self.c0.y as int)
        &&& coord_in_range(self.c2.y as int)
    }

    pub open spec fn corner_spec(self, i: int) -> Vec2 {
        if i == 0 {
            self.c0
        } else if i == 1 {
            self.c1
        } else if i == 2 {
            self.c2
        } else {
            self.c3
        }
    }

    pub fn corner(&self, i: usize) -> (v: Vec2)
        requires
            i < 4,
        ensures
            v == self.corner_spec(i as int),
    {
        if i == 0 {
            self.c0
        } else if i == 1 {
            self.c1
        } else if i == 2 {
            self.c2
        } else {
            self.c3
        }
    }
}

/// The x-extents of the two boxes are disjoint.
pub open spec fn x_separated(a: OrientedBox, b: OrientedBox) -> bool {
    a.right() < b.left() || b.right() < a.left()
}

/// The y-extents of the two boxes are disjoint.
pub open spec fn y_separated(a: OrientedBox, b: OrientedBox) -> bool {
    a.top() < b.bottom() || b.top() < a.bottom()
}

/// Two boxes overlap when neither coordinate axis separates them;
/// boxes that merely touch count as overlapping.
pub open spec fn overlaps(a: OrientedBox, b: OrientedBox) -> bool {
    !x_separated(a, b) && !y_separated(a, b)
}

/// Nominal half width of a vehicle footprint before any heading swap:
/// through and left tags aligned with the vertical axis are narrow and
/// tall, side-aligned tags are wide and flat, the generic tag is square.
pub open spec fn base_half_w(t: CollisionType) -> int {
    match t {
        CollisionType::NS | CollisionType::SS | CollisionType::NL | CollisionType::SL => 12,
        CollisionType::ES | CollisionType::WS | CollisionType::WL | CollisionType::EL => 50,
        CollisionType::GG => 50,
    }
}

pub open spec fn base_half_h(t: CollisionType) -> int {
    match t {
        CollisionType::NS | CollisionType::SS | CollisionType::NL | CollisionType::SL => 50,
        CollisionType::ES | CollisionType::WS | CollisionType::WL | CollisionType::EL => 12,
        CollisionType::GG => 50,
    }
}

/// Half width after the heading swap, including the safety buffer.
pub open spec fn half_w(t: CollisionType, rotated: bool) -> int {
    (if rotated { base_half_h(t) } else { base_half_w(t) }) + HITBOX_BUFFER
}

/// Half height after the heading swap, including the safety buffer.
pub open spec fn half_h(t: CollisionType, rotated: bool) -> int {
    (if rotated { base_half_w(t) } else { base_half_h(t) }) + HITBOX_BUFFER
}

/// Half width of the vehicle's nominal footprint after the heading
/// swap, without the safety buffer.
pub open spec fn nominal_half_w(t: CollisionType, rotated: bool) -> int {
    half_w(t, rotated) - HITBOX_BUFFER
}

/// Half height of the vehicle's nominal footprint after the heading
/// swap, without the safety buffer.
pub open spec fn nominal_half_h(t: CollisionType, rotated: bool) -> int {
    half_h(t, rotated) - HITBOX_BUFFER
}

/// Two intervals, given by midpoint and half extent, intersect or touch.
pub open spec fn extents_overlap(m1: int, h1: int, m2: int, h2: int) -> bool {
    m1 - h1 <= m2 + h2 && m2 - h2 <= m1 + h1
}

/// The boxes of two vehicles, placed at the given positions with the
/// given tags and heading flags, overlap.
pub open spec fn poses_overlap(
    x1: int, y1: int, t1: CollisionType, r1: bool,
    x2: int, y2: int, t2: CollisionType, r2: bool,
) -> bool {
    &&& extents_overlap(x1, half_w(t1, r1), x2, half_w(t2, r2))
    &&& extents_overlap(y1, half_h(t1, r1), y2, half_h(t2, r2))
}

/// Builds the footprint of a vehicle at `(x, y)`: the per-tag half
/// extents, swapped when the vehicle has rotated mid-turn, padded by
/// the safety buffer on every side.
pub fn compute_rotated_corners(x: i64, y: i64, collision_type: CollisionType, rotated: bool) -> (b: OrientedBox)
    requires
        pos_in_range(x as int),
        pos_in_range(y as int),
    ensures
        b.wf(),
        b.left() == x - half_w(collision_type, rotated),
        b.right() == x + half_w(collision_type, rotated),
        b.bottom() == y - half_h(collision_type, rotated),
        b.top() == y + half_h(collision_type, rotated),
{
    let (mut hw, mut hh): (i64, i64) = match collision_type {
        CollisionType::NS | CollisionType::SS | CollisionType::NL | CollisionType::SL => (12, 50),
        CollisionType::ES | CollisionType::WS | CollisionType::WL | CollisionType::EL => (50, 12),
        CollisionType::GG => (50, 50),
    };

    if rotated {
        let tmp = hw;
        hw = hh;
        hh = tmp;
    }

    let hw = hw + HITBOX_BUFFER;
    let hh = hh + HITBOX_BUFFER;

    OrientedBox {
        c0: Vec2::new(x - hw, y - hh),
        c1: Vec2::new(x + hw, y - hh),
        c2: Vec2::new(x + hw, y + hh),
        c3: Vec2::new(x - hw, y + hh),
    }
}

/// Smallest projection of the four corners onto `ax`.
pub open spec fn proj_min(bx: OrientedBox, ax: Vec2) -> int {
    min2(
        min2(dot2(ax, bx.c0), dot2(ax, bx.c1)),
        min2(dot2(ax, bx.c2), dot2(ax, bx.c3)),
    )
}

/// Largest projection of the four corners onto `ax`.
pub open spec fn proj_max(bx: OrientedBox, ax: Vec2) -> int {
    max2(
        max2(dot2(ax, bx.c0), dot2(ax, bx.c1)),
        max2(dot2(ax, bx.c2), dot2(ax, bx.c3)),
    )
}

/// Projects the four corners of a box onto an axis and returns the
/// projection interval.
pub fn project(points: &OrientedBox, axis: Vec2) -> (r: (i64, i64))
    requires
        points.wf(),
        -2 * COORD_LIMIT <= axis.x <= 2 * COORD_LIMIT,
        -2 * COORD_LIMIT <= axis.y <= 2 * COORD_LIMIT,
    ensures
        r.0 == proj_min(*points, axis),
        r.1 == proj_max(*points, axis),
{
    let mut lo = axis.dot(points.c0);
    let mut hi = lo;

    let v = axis.dot(points.c1);
    if v < lo {
        lo = v;
    }
    if v > hi {
        hi = v;
    }

    let v = axis.dot(points.c2);
    if v < lo {
        lo = v;
    }
    if v > hi {
        hi = v;
    }

    let v = axis.dot(points.c3);
    if v < lo {
        lo = v;
    }
    if v > hi {
        hi = v;
    }

    (lo, hi)
}

proof fn lemma_mul_lt_pos(m: int, p: int, q: int)
    by (nonlinear_arith)
    requires
        m > 0,
    ensures
        (m * p < m * q) == (p < q),
{
}

proof fn lemma_mul_lt_neg(m: int, p: int, q: int)
    by (nonlinear_arith)
    requires
        m < 0,
    ensures
        (m * p < m * q) == (q < p),
{
}

/// On an axis of the form `(0, m)` the projection intervals of two
/// well-formed boxes are disjoint exactly when their y-extents are.
proof fn lemma_vertical_axis_test(ax: Vec2, a: OrientedBox, b: OrientedBox)
    requires
        a.wf(),
        b.wf(),
        ax.x == 0,
        ax.y != 0,
    ensures
        (proj_max(a, ax) < proj_min(b, ax) || proj_max(b, ax) < proj_min(a, ax))
            == y_separated(a, b),
{
    let m = ax.y as int;
    assert forall|bx: OrientedBox| bx.wf() implies
        dot2(ax, bx.c0) == m * bx.bottom()
        && dot2(ax, bx.c1) == m * bx.bottom()
        && dot2(ax, bx.c2) == m * bx.top()
        && dot2(ax, bx.c3) == m * bx.top() by {
        assert(ax.x * bx.c0.x == 0) by (nonlinear_arith)
            requires ax.x == 0;
        assert(ax.x * bx.c1.x == 0) by (nonlinear_arith)
            requires ax.x == 0;
        assert(ax.x * bx.c2.x == 0) by (nonlinear_arith)
            requires ax.x == 0;
        assert(ax.x * bx.c3.x == 0) by (nonlinear_arith)
            requires ax.x == 0;
    }
    if m > 0 {
        lemma_mul_lt_pos(m, a.bottom(), a.top());
        lemma_mul_lt_pos(m, b.bottom(), b.top());
        lemma_mul_lt_pos(m, a.top(), b.bottom());
        lemma_mul_lt_pos(m, b.top(), a.bottom());
    } else {
        lemma_mul_lt_neg(m, a.bottom(), a.top());
        lemma_mul_lt_neg(m, b.bottom(), b.top());
        lemma_mul_lt_neg(m, a.bottom(), b.top());
        lemma_mul_lt_neg(m, b.bottom(), a.top());
    }
}

/// On an axis of the form `(m, 0)` the projection intervals of two
/// well-formed boxes are disjoint exactly when their x-extents are.
proof fn lemma_horizontal_axis_test(ax: Vec2, a: OrientedBox, b: OrientedBox)
    requires
        a.wf(),
        b.wf(),
        ax.y == 0,
        ax.x != 0,
    ensures
        (proj_max(a, ax) < proj_min(b, ax) || proj_max(b, ax) < proj_min(a, ax))
            == x_separated(a, b),
{
    let m = ax.x as int;
    assert forall|bx: OrientedBox| bx.wf() implies
        dot2(ax, bx.c0) == m * bx.left()
        && dot2(ax, bx.c1) == m * bx.right()
        && dot2(ax, bx.c2) == m * bx.right()
        && dot2(ax, bx.c3) == m * bx.left() by {
        assert(ax.y * bx.c0.y == 0) by (nonlinear_arith)
            requires ax.y == 0;
        assert(ax.y * bx.c1.y == 0) by (nonlinear_arith)
            requires ax.y == 0;
        assert(ax.y * bx.c2.y == 0) by (nonlinear_arith)
            requires ax.y == 0;
        assert(ax.y * bx.c3.y == 0) by (nonlinear_arith)
            requires ax.y == 0;
    }
    if m > 0 {
        lemma_mul_lt_pos(m, a.left(), a.right());
        lemma_mul_lt_pos(m, b.left(), b.right());
        lemma_mul_lt_pos(m, a.right(), b.left());
        lemma_mul_lt_pos(m, b.right(), a.left());
    } else {
        lemma_mul_lt_neg(m, a.left(), a.right());
        lemma_mul_lt_neg(m, b.left(), b.right());
        lemma_mul_lt_neg(m, a.left(), b.right());
        lemma_mul_lt_neg(m, b.left(), a.right());
    }
}

/// Separating-axis overlap test.  Scans the outward normal of each of
/// the eight edges; if some axis shows disjoint projection intervals
/// the boxes are separated, otherwise they overlap.
pub fn sat_collision(a: &OrientedBox, b: &OrientedBox) -> (r: bool)
    requires
        a.wf(),
        b.wf(),
    ensures
        r == overlaps(*a, *b),
{
    let mut i: usize = 0;
    while i < 8
        invariant
            i <= 8,
            a.wf(),
            b.wf(),
            i >= 1 ==> !y_separated(*a, *b),
            i >= 2 ==> !x_separated(*a, *b),
        decreases 8 - i,
    {
        let (p1, p2) = if i < 4 {
            (a.corner(i), a.corner((i + 1) % 4))
        } else {
            (b.corner(i - 4), b.corner((i + 1) % 4))
        };
        let axis = Vec2::new(-(p2.y - p1.y), p2.x - p1.x);

        proof {
            if i % 2 == 0 {
                assert(axis.x == 0 && axis.y != 0);
            } else {
                assert(axis.y == 0 && axis.x != 0);
            }
        }

        let (a_min, a_max) = project(a, axis);
        let (b_min, b_max) = project(b, axis);

        proof {
            if i % 2 == 0 {
                lemma_vertical_axis_test(axis, *a, *b);
            } else {
                lemma_horizontal_axis_test(axis, *a, *b);
            }
        }

        if a_max < b_min || b_max < a_min {
            return false;
        }

        i = i + 1;
    }
    true
}

/// Ray-casting point-in-polygon test over the four corners: a
/// horizontal ray from the query point toward negative x, toggling
/// parity at each edge it crosses.  For a well-formed box every edge
/// that straddles the scanline is vertical, so the crossing abscissa is
/// the edge's own x-coordinate.
pub fn contains_point(corners: &OrientedBox, px: i64, py: i64) -> (r: bool)
    requires
        corners.wf(),
        coord_in_range(px as int),
        coord_in_range(py as int),
    ensures
        r == point_in_box(*corners, px as int, py as int),
{
    let mut inside = false;
    let mut i: usize = 0;
    while i < 4
        invariant
            i <= 4,
            corners.wf(),
            i <= 1 ==> inside == false,
            2 <= i <= 3 ==> inside == (corners.bottom() <= py < corners.top()
                && px < corners.right()),
            i == 4 ==> inside == point_in_box(*corners, px as int, py as int),
        decreases 4 - i,
    {
        let p1 = corners.corner(i);
        let p2 = corners.corner((i + 1) % 4);

        if (p1.y > py) != (p2.y > py) {
            // The edge straddles the scanline, hence is vertical.
            let crossing_x = p1.x;
            if px < crossing_x {
                inside = !inside;
            }
        }

        i = i + 1;
    }
    inside
}

/// A point lies in the rectangle `[l, r) x [b, t)`.
pub open spec fn point_in_rect(l: int, r: int, b: int, t: int, px: int, py: int) -> bool {
    l <= px < r && b <= py < t
}

/// A point lies in a box; the right and top edges are excluded, as the
/// parity of ray crossings has it.
pub open spec fn point_in_box(b: OrientedBox, px: int, py: int) -> bool {
    point_in_rect(b.left(), b.right(), b.bottom(), b.top(), px, py)
}

/// Overlap is symmetric: testing A against B and B against A agree.
pub proof fn lemma_overlaps_symmetric(a: OrientedBox, b: OrientedBox)
    ensures
        overlaps(a, b) == overlaps(b, a),
{
}

/// Overlap is reflexive on any non-degenerate box.
pub proof fn lemma_overlaps_reflexive(a: OrientedBox)
    requires
        a.wf(),
    ensures
        overlaps(a, a),
{
}

/// Separation correctness: vehicles whose nominal x-extents (or
/// y-extents) are disjoint with a gap wider than the two safety
/// buffers between them never overlap.
pub proof fn lemma_separation_correct(
    x1: int, y1: int, t1: CollisionType, r1: bool,
    x2: int, y2: int, t2: CollisionType, r2: bool,
)
    requires
        ({
            ||| x1 + nominal_half_w(t1, r1) + 2 * HITBOX_BUFFER < x2 - nominal_half_w(t2, r2)
            ||| x2 + nominal_half_w(t2, r2) + 2 * HITBOX_BUFFER < x1 - nominal_half_w(t1, r1)
            ||| y1 + nominal_half_h(t1, r1) + 2 * HITBOX_BUFFER < y2 - nominal_half_h(t2, r2)
            ||| y2 + nominal_half_h(t2, r2) + 2 * HITBOX_BUFFER < y1 - nominal_half_h(t1, r1)
        }),
    ensures
        !poses_overlap(x1, y1, t1, r1, x2, y2, t2, r2),
{
}

/// The footprints built by `compute_rotated_corners` overlap exactly
/// when the position-level predicate says they do.
pub proof fn lemma_overlap_at_poses(
    a: OrientedBox, b: OrientedBox,
    x1: int, y1: int, t1: CollisionType, r1: bool,
    x2: int, y2: int, t2: CollisionType, r2: bool,
)
    requires
        a.wf(),
        b.wf(),
        a.left() == x1 - half_w(t1, r1),
        a.right() == x1 + half_w(t1, r1),
        a.bottom() == y1 - half_h(t1, r1),
        a.top() == y1 + half_h(t1, r1),
        b.left() == x2 - half_w(t2, r2),
        b.right() == x2 + half_w(t2, r2),
        b.bottom() == y2 - half_h(t2, r2),
        b.top() == y2 + half_h(t2, r2),
    ensures
        overlaps(a, b) == poses_overlap(x1, y1, t1, r1, x2, y2, t2, r2),
{
}

} // verus!
