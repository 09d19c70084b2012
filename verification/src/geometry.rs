//! Points, half sizes and axis-aligned boxes on the integer grid.
use vstd::prelude::*;

verus! {

/// A point or an extent of the plane, in grid units.
#[derive(Clone, Copy, Debug, PartialEq, Eq, Structural)]
pub struct Vec2 {
    pub x: i32,
    pub y: i32,
}

impl Vec2 {
    pub fn new(x: i32, y: i32) -> (v: Vec2)
        ensures
            v.x == x,
            v.y == y,
    {
        Vec2 { x, y }
    }
}

/// The half of a size, kept exactly: `twice` is the size it is the half of.
#[derive(Clone, Copy, Debug, PartialEq, Eq, Structural)]
pub struct HalfSize {
    pub twice: Vec2,
}

/// The pointer `(px, py)` lies strictly inside the rectangle around `(cx, cy)`
/// that reaches half of `half.twice` to each side. A point on an edge is
/// outside.
pub open spec fn strictly_inside(cx: int, cy: int, half: HalfSize, px: int, py: int) -> bool {
    &&& 2 * cx - half.twice.x < 2 * px
    &&& 2 * cx + half.twice.x > 2 * px
    &&& 2 * cy - half.twice.y < 2 * py
    &&& 2 * cy + half.twice.y > 2 * py
}

/// Tests whether a pointer is strictly inside the rectangle around a centre.
pub fn contains_strictly(center: Vec2, half: HalfSize, pointer: Vec2) -> (inside: bool)
    ensures
        inside == strictly_inside(
            center.x as int,
            center.y as int,
            half,
            pointer.x as int,
            pointer.y as int,
        ),
{
    let cx: i64 = 2 * (center.x as i64);
    let cy: i64 = 2 * (center.y as i64);
    let px: i64 = 2 * (pointer.x as i64);
    let py: i64 = 2 * (pointer.y as i64);
    let hx: i64 = half.twice.x as i64;
    let hy: i64 = half.twice.y as i64;
    cx - hx < px && cx + hx > px && cy - hy < py && cy + hy > py
}

/// An axis-aligned box: a centre and the half size that reaches from it to
/// each side. Its corners may lie on half units.
#[derive(Clone, Copy, Debug, PartialEq, Eq, Structural)]
pub struct Aabb2d {
    pub center: Vec2,
    pub half_size: HalfSize,
}

impl Aabb2d {
    /// Twice the least x of the box.
    pub open spec fn twice_min_x(self) -> int {
        2 * self.center.x - self.half_size.twice.x
    }

    /// Twice the greatest x of the box.
    pub open spec fn twice_max_x(self) -> int {
        2 * self.center.x + self.half_size.twice.x
    }

    /// Twice the least y of the box.
    pub open spec fn twice_min_y(self) -> int {
        2 * self.center.y - self.half_size.twice.y
    }

    /// Twice the greatest y of the box.
    pub open spec fn twice_max_y(self) -> int {
        2 * self.center.y + self.half_size.twice.y
    }

    /// The two boxes share a point. Their edges belong to them, so boxes that
    /// only touch do intersect.
    pub open spec fn overlaps(self, other: Aabb2d) -> bool {
        &&& self.twice_min_x() <= other.twice_max_x()
        &&& self.twice_max_x() >= other.twice_min_x()
        &&& self.twice_min_y() <= other.twice_max_y()
        &&& self.twice_max_y() >= other.twice_min_y()
    }

    pub fn new(center: Vec2, half_size: HalfSize) -> (aabb: Aabb2d)
        ensures
            aabb.center == center,
            aabb.half_size == half_size,
    {
        Aabb2d { center, half_size }
    }

    /// Tests whether two boxes intersect, edges included.
    pub fn intersects(&self, other: &Aabb2d) -> (hit: bool)
        ensures
            hit == self.overlaps(*other),
    {
        let ax: i64 = 2 * (self.center.x as i64);
        let ay: i64 = 2 * (self.center.y as i64);
        let aw: i64 = self.half_size.twice.x as i64;
        let ah: i64 = self.half_size.twice.y as i64;
        let bx: i64 = 2 * (other.center.x as i64);
        let by: i64 = 2 * (other.center.y as i64);
        let bw: i64 = other.half_size.twice.x as i64;
        let bh: i64 = other.half_size.twice.y as i64;
        ax - aw <= bx + bw && ax + aw >= bx - bw && ay - ah <= by + bh && ay + ah >= by - bh
    }
}

/// A pointer on the left or right edge of a rectangle is not inside it.
pub proof fn lemma_vertical_edge_is_outside(cx: int, cy: int, half: HalfSize, px: int, py: int)
    requires
        2 * px == 2 * cx - half.twice.x || 2 * px == 2 * cx + half.twice.x,
    ensures
        !strictly_inside(cx, cy, half, px, py),
{
}

/// A pointer on the bottom or top edge of a rectangle is not inside it.
pub proof fn lemma_horizontal_edge_is_outside(cx: int, cy: int, half: HalfSize, px: int, py: int)
    requires
        2 * py == 2 * cy - half.twice.y || 2 * py == 2 * cy + half.twice.y,
    ensures
        !strictly_inside(cx, cy, half, px, py),
{
}

/// Two boxes of which one ends, along x, exactly where the other begins
/// intersect as soon as their y ranges meet.
pub proof fn lemma_touching_sides_intersect(a: Aabb2d, b: Aabb2d)
    requires
        a.half_size.twice.x >= 0,
        b.half_size.twice.x >= 0,
        a.twice_max_x() == b.twice_min_x(),
        a.twice_min_y() <= b.twice_max_y(),
        a.twice_max_y() >= b.twice_min_y(),
    ensures
        a.overlaps(b),
        b.overlaps(a),
{
}

/// Two boxes of which one ends, along y, exactly where the other begins
/// intersect as soon as their x ranges meet.
pub proof fn lemma_touching_ends_intersect(a: Aabb2d, b: Aabb2d)
    requires
        a.half_size.twice.y >= 0,
        b.half_size.twice.y >= 0,
        a.twice_max_y() == b.twice_min_y(),
        a.twice_min_x() <= b.twice_max_x(),
        a.twice_max_x() >= b.twice_min_x(),
    ensures
        a.overlaps(b),
        b.overlaps(a),
{
}

/// The two rules for an edge differ: a point on the left or right edge of
/// a box is not strictly inside the box, and yet a box without extent at
/// that point intersects it.
pub proof fn lemma_edge_is_outside_yet_touches(bounds: Aabb2d, point: Vec2)
    requires
        bounds.half_size.twice.x >= 0,
        2 * point.x == bounds.twice_min_x() || 2 * point.x == bounds.twice_max_x(),
        bounds.twice_min_y() <= 2 * point.y <= bounds.twice_max_y(),
    ensures
        !strictly_inside(
            bounds.center.x as int,
            bounds.center.y as int,
            bounds.half_size,
            point.x as int,
            point.y as int,
        ),
        bounds.overlaps(Aabb2d { center: point, half_size: HalfSize { twice: Vec2 { x: 0, y: 0 } } }),
{
}

} // verus!
