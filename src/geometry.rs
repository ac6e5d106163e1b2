//! Points on the ground plane, the marquee rectangle and its membership test.
use vstd::prelude::*;

verus! {

/// Number of coordinate ticks in one world unit.
pub const TICKS_PER_UNIT: i64 = 1000;

/// Height, in ticks, at which the marquee outline floats above its anchor.
pub const MARQUEE_LIFT: i64 = 20;

/// A position in the world, in ticks on each axis; `y` is the vertical axis.
#[derive(Clone, Copy, Debug, PartialEq, Eq, Structural)]
pub struct WorldPoint {
    pub x: i64,
    pub y: i64,
    pub z: i64,
}

/// An axis-aligned rectangle of the ground plane (the `x`/`z` axes).
#[derive(Clone, Copy, Debug, PartialEq, Eq, Structural)]
pub struct Rect2D {
    pub min_x: i64,
    pub max_x: i64,
    pub min_z: i64,
    pub max_z: i64,
}

pub open spec fn min_of(a: i64, b: i64) -> i64 {
    if a <= b { a } else { b }
}

pub open spec fn max_of(a: i64, b: i64) -> i64 {
    if a <= b { b } else { a }
}

impl Rect2D {
    /// Each minimum is at most the matching maximum.
    pub open spec fn wf(self) -> bool {
        self.min_x <= self.max_x && self.min_z <= self.max_z
    }
}

/// The rectangle spanned on the ground plane by two points, whatever their order.
pub open spec fn span_of(a: WorldPoint, c: WorldPoint) -> Rect2D {
    Rect2D {
        min_x: min_of(a.x, c.x),
        max_x: max_of(a.x, c.x),
        min_z: min_of(a.z, c.z),
        max_z: max_of(a.z, c.z),
    }
}

/// The point's ground projection lies strictly inside the rectangle on both axes.
pub open spec fn strictly_inside(r: Rect2D, p: WorldPoint) -> bool {
    r.min_x < p.x && p.x < r.max_x && r.min_z < p.z && p.z < r.max_z
}

/// `v` lies strictly between `a` and `b`, in either order.
pub open spec fn strictly_between(a: i64, b: i64, v: i64) -> bool {
    (a < v && v < b) || (b < v && v < a)
}

/// The rectangle spanned by `anchor` and `current` on the ground plane; the vertical
/// component of both points is dropped.
pub fn rectangle(anchor: WorldPoint, current: WorldPoint) -> (r: Rect2D)
    ensures
        r == span_of(anchor, current),
        r.wf(),
{
    let (min_x, max_x) = if anchor.x <= current.x {
        (anchor.x, current.x)
    } else {
        (current.x, anchor.x)
    };
    let (min_z, max_z) = if anchor.z <= current.z {
        (anchor.z, current.z)
    } else {
        (current.z, anchor.z)
    };
    Rect2D { min_x, max_x, min_z, max_z }
}

/// Whether the ground projection of `p` lies strictly inside `rect`; points on an
/// edge are outside.
pub fn contains(rect: Rect2D, p: WorldPoint) -> (r: bool)
    ensures
        r == strictly_inside(rect, p),
{
    rect.min_x < p.x && p.x < rect.max_x && rect.min_z < p.z && p.z < rect.max_z
}

/// The height of the marquee outline over an anchor at height `y`, saturating at
/// the largest coordinate.
pub open spec fn marquee_height(y: i64) -> i64 {
    if y <= i64::MAX - MARQUEE_LIFT {
        (y + MARQUEE_LIFT) as i64
    } else {
        i64::MAX
    }
}

pub open spec fn at(x: i64, y: i64, z: i64) -> WorldPoint {
    WorldPoint { x, y, z }
}

/// The closed outline of the marquee between `a` and `c`: the start corner, the
/// corner along `z`, the opposite corner, the corner along `x`, and the start again,
/// all at the marquee height over `a`.
pub open spec fn outline_of(a: WorldPoint, c: WorldPoint) -> Seq<WorldPoint> {
    let y = marquee_height(a.y);
    seq![at(a.x, y, a.z), at(a.x, y, c.z), at(c.x, y, c.z), at(c.x, y, a.z), at(a.x, y, a.z)]
}

/// The corner points of the marquee between `anchor` and `current`, as a closed
/// polyline in fixed winding order, lifted slightly above the anchor's height.
pub fn marquee_outline(anchor: WorldPoint, current: WorldPoint) -> (r: Vec<WorldPoint>)
    ensures
        r@ == outline_of(anchor, current),
{
    let y: i64 = if anchor.y <= i64::MAX - MARQUEE_LIFT {
        anchor.y + MARQUEE_LIFT
    } else {
        i64::MAX
    };
    let r = vec![
        WorldPoint { x: anchor.x, y, z: anchor.z },
        WorldPoint { x: anchor.x, y, z: current.z },
        WorldPoint { x: current.x, y, z: current.z },
        WorldPoint { x: current.x, y, z: anchor.z },
        WorldPoint { x: anchor.x, y, z: anchor.z },
    ];
    assert(r@ =~= outline_of(anchor, current));
    r
}

/// A rectangle spanned by a point and itself holds no point.
pub proof fn lemma_degenerate_rectangle_is_empty(a: WorldPoint, c: WorldPoint, p: WorldPoint)
    requires
        a == c,
    ensures
        !strictly_inside(span_of(a, c), p),
{
}

/// The rectangle does not depend on which of the two points is the anchor.
pub proof fn lemma_rectangle_symmetric(a: WorldPoint, c: WorldPoint)
    ensures
        span_of(a, c) == span_of(c, a),
{
}

/// A point strictly inside a rectangle on both axes is contained; one on an edge
/// is not.
pub proof fn lemma_interior_and_edges(r: Rect2D, p: WorldPoint)
    requires
        r.wf(),
    ensures
        (r.min_x < p.x < r.max_x && r.min_z < p.z < r.max_z) ==> strictly_inside(r, p),
        (p.x == r.min_x || p.x == r.max_x || p.z == r.min_z || p.z == r.max_z)
            ==> !strictly_inside(r, p),
{
}

/// Membership in the spanned rectangle is the per-axis "strictly between the two
/// points" test, whichever point comes first.
pub proof fn lemma_span_membership(a: WorldPoint, c: WorldPoint, p: WorldPoint)
    ensures
        strictly_inside(span_of(a, c), p) == (strictly_between(a.x, c.x, p.x)
            && strictly_between(a.z, c.z, p.z)),
{
}

} // verus!
