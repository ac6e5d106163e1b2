//! Rays in fixed-point, the point a ray reaches, and the picking primitive.
use vstd::prelude::*;
use vstd::arithmetic::div_mod::{lemma_div_by_multiple, lemma_div_is_ordered, lemma_div_pos_is_pos};
use vstd::arithmetic::mul::lemma_mul_inequality;
use crate::geometry::{WorldPoint, TICKS_PER_UNIT};

verus! {

/// Length of a unit direction vector, in direction ticks.
pub const DIRECTION_SCALE: i64 = 1_000_000;

/// Largest magnitude of a coordinate, or of a distance along a ray, that the
/// ray arithmetic accepts.
pub const WORLD_LIMIT: i64 = 1_000_000_000_000_000_000;

/// How far a pick ray is cast, in ticks.
pub const PICK_RANGE: i64 = 5000 * TICKS_PER_UNIT;

/// Identifier of a spatial object of the host world.
#[derive(Clone, Copy, Debug, PartialEq, Eq, Hash, Structural)]
pub struct ObjectHandle {
    pub id: u64,
}

/// A direction in ticks of [`DIRECTION_SCALE`]; a unit vector has each component
/// within the scale.
#[derive(Clone, Copy, Debug, PartialEq, Eq, Structural)]
pub struct Direction {
    pub x: i64,
    pub y: i64,
    pub z: i64,
}

/// A half-line from `origin` along `direction`.
#[derive(Clone, Copy, Debug, PartialEq, Eq, Structural)]
pub struct WorldRay {
    pub origin: WorldPoint,
    pub direction: Direction,
}

/// What the ray query service reports: the nearest object struck and the
/// distance travelled to it, in ticks.
#[derive(Clone, Copy, Debug, PartialEq, Eq, Structural)]
pub struct RayHit {
    pub object: ObjectHandle,
    pub distance: i64,
}

/// The outcome of a pick: the object struck, if any, and the world point.
#[derive(Clone, Copy, Debug, PartialEq, Eq, Structural)]
pub struct PickResult {
    pub object: Option<ObjectHandle>,
    pub point: WorldPoint,
}

pub open spec fn in_limit(v: int) -> bool {
    -WORLD_LIMIT <= v <= WORLD_LIMIT
}

/// Every coordinate of the point is within [`WORLD_LIMIT`].
pub open spec fn in_world(p: WorldPoint) -> bool {
    in_limit(p.x as int) && in_limit(p.y as int) && in_limit(p.z as int)
}

pub open spec fn unit_component(c: int) -> bool {
    -DIRECTION_SCALE <= c <= DIRECTION_SCALE
}

impl Direction {
    pub open spec fn wf(self) -> bool {
        unit_component(self.x as int) && unit_component(self.y as int) && unit_component(
            self.z as int,
        )
    }
}

impl WorldRay {
    pub open spec fn wf(self) -> bool {
        in_world(self.origin) && self.direction.wf()
    }
}

/// Distance `t` travelled along one direction component `c`, rounded toward zero.
pub open spec fn scaled_offset(c: int, t: int) -> int {
    if c < 0 {
        -((-c) * t / (DIRECTION_SCALE as int))
    } else {
        c * t / (DIRECTION_SCALE as int)
    }
}

/// The point reached after travelling `t` ticks from `origin` along `d`.
pub open spec fn ray_point(origin: WorldPoint, d: Direction, t: int) -> WorldPoint {
    WorldPoint {
        x: (origin.x + scaled_offset(d.x as int, t)) as i64,
        y: (origin.y + scaled_offset(d.y as int, t)) as i64,
        z: (origin.z + scaled_offset(d.z as int, t)) as i64,
    }
}

/// The outcome of picking along `ray` when the ray query reported `hit`.
pub open spec fn pick_of(ray: Option<WorldRay>, hit: Option<RayHit>) -> Option<PickResult> {
    match (ray, hit) {
        (Some(r), Some(h)) => Some(
            PickResult {
                object: Some(h.object),
                point: ray_point(r.origin, r.direction, h.distance as int),
            },
        ),
        _ => None,
    }
}

/// Whether every coordinate of `p` is within [`WORLD_LIMIT`].
pub fn is_in_world(p: WorldPoint) -> (r: bool)
    ensures
        r == in_world(p),
{
    -WORLD_LIMIT <= p.x && p.x <= WORLD_LIMIT && -WORLD_LIMIT <= p.y && p.y <= WORLD_LIMIT
        && -WORLD_LIMIT <= p.z && p.z <= WORLD_LIMIT
}

/// Whether each component of `d` is within [`DIRECTION_SCALE`].
pub fn is_unit_bounded(d: Direction) -> (r: bool)
    ensures
        r == d.wf(),
{
    -DIRECTION_SCALE <= d.x && d.x <= DIRECTION_SCALE && -DIRECTION_SCALE <= d.y && d.y
        <= DIRECTION_SCALE && -DIRECTION_SCALE <= d.z && d.z <= DIRECTION_SCALE
}

fn offset_along(c: i64, t: i64) -> (r: i64)
    requires
        unit_component(c as int),
        0 <= t <= WORLD_LIMIT,
    ensures
        r == scaled_offset(c as int, t as int),
        -t <= r <= t,
{
    let mag: u128 = if c < 0 {
        (-(c as i128)) as u128
    } else {
        c as u128
    };
    let tt: u128 = t as u128;
    let scale: u128 = DIRECTION_SCALE as u128;
    proof {
        lemma_mul_inequality(mag as int, scale as int, tt as int);
        assert(scale * tt <= 1_000_000u128 * 1_000_000_000_000_000_000u128) by (nonlinear_arith)
            requires
                scale == 1_000_000u128,
                tt <= 1_000_000_000_000_000_000u128,
        ;
    }
    let prod: u128 = mag * tt;
    let q: u128 = prod / scale;
    proof {
        lemma_div_is_ordered(prod as int, (tt * scale) as int, scale as int);
        lemma_div_by_multiple(tt as int, scale as int);
        lemma_div_pos_is_pos(prod as int, scale as int);
    }
    if c < 0 {
        -(q as i64)
    } else {
        q as i64
    }
}

/// The point reached after travelling `t` ticks along `ray`.
pub fn point_along(ray: &WorldRay, t: i64) -> (r: WorldPoint)
    requires
        ray.wf(),
        0 <= t <= WORLD_LIMIT,
    ensures
        r == ray_point(ray.origin, ray.direction, t as int),
{
    let dx = offset_along(ray.direction.x, t);
    let dy = offset_along(ray.direction.y, t);
    let dz = offset_along(ray.direction.z, t);
    WorldPoint { x: ray.origin.x + dx, y: ray.origin.y + dy, z: ray.origin.z + dz }
}

/// Picks along the ray derived from the pointer: `ray` is `None` when the pointer
/// is outside the viewport or no ray could be derived, and `hit` is what the ray
/// query service reported for that ray. The result is the object struck and the
/// exact point at the hit distance, or `None` when nothing was struck.
pub fn screen_ray_to_entity(ray: Option<WorldRay>, hit: Option<RayHit>) -> (r: Option<PickResult>)
    requires
        ray matches Some(rr) ==> rr.wf(),
        hit matches Some(h) ==> 0 <= h.distance <= WORLD_LIMIT,
    ensures
        r == pick_of(ray, hit),
{
    match (ray, hit) {
        (Some(rr), Some(h)) => {
            let point = point_along(&rr, h.distance);
            Some(PickResult { object: Some(h.object), point })
        },
        _ => None,
    }
}

} // verus!
