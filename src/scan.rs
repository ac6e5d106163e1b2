//! The field-of-view scanner: which angles are sampled, and how each ray's outcome
//! becomes a sample.
use vstd::prelude::*;
use crate::geometry::WorldPoint;
use crate::picking::{
    in_world, point_along, ray_point, Direction, ObjectHandle, RayHit, WorldRay, WORLD_LIMIT,
};

verus! {

/// One ray of a scan: its direction, and what the ray query service reported
/// for it.
#[derive(Clone, Copy, Debug, PartialEq, Eq, Structural)]
pub struct ScanRay {
    pub direction: Direction,
    pub hit: Option<RayHit>,
}

/// The outcome of one scan ray: the angle it was cast at, the point where it
/// stopped, and the object it struck, if any.
#[derive(Clone, Copy, Debug, PartialEq, Eq, Structural)]
pub struct ScanSample {
    pub angle: i16,
    pub hit_point: WorldPoint,
    pub object: Option<ObjectHandle>,
}

/// Half of the field of view, rounded toward zero.
pub open spec fn half_fov(fov: i16) -> int {
    if fov >= 0 {
        fov / 2
    } else {
        -((-fov) / 2)
    }
}

/// The angles `a, a + step, a + 2 * step, ...` that lie below `hi`.
pub open spec fn fan_from(a: int, hi: int, step: int) -> Seq<int>
    decreases (if a < hi { hi - a } else { 0 }),
{
    if step <= 0 || a >= hi {
        Seq::empty()
    } else {
        seq![a] + fan_from(a + step, hi, step)
    }
}

/// The sampled angles of a scan: from `-fov / 2` up to, but excluding, `fov / 2`,
/// every `step` degrees.
pub open spec fn fan_angles(fov: i16, step: usize) -> Seq<int> {
    fan_from(-half_fov(fov), half_fov(fov), step as int)
}

/// The sample for one ray cast at `angle` from `origin`: the hit point and object
/// when something was struck, otherwise the point at `range` and no object.
pub open spec fn sample_of(angle: int, origin: WorldPoint, ray: ScanRay, range: i64) -> ScanSample {
    match ray.hit {
        Some(h) => ScanSample {
            angle: angle as i16,
            hit_point: ray_point(origin, ray.direction, h.distance as int),
            object: Some(h.object),
        },
        None => ScanSample {
            angle: angle as i16,
            hit_point: ray_point(origin, ray.direction, range as int),
            object: None,
        },
    }
}

/// The samples of a scan whose rays, in the order of [`fan_angles`], are `rays`.
pub open spec fn scan_of(
    rays: Seq<ScanRay>,
    fov: i16,
    origin: WorldPoint,
    step: usize,
    range: i64,
) -> Seq<ScanSample> {
    Seq::new(rays.len(), |i: int| sample_of(fan_angles(fov, step)[i], origin, rays[i], range))
}

pub open spec fn ray_ok(ray: ScanRay) -> bool {
    &&& ray.direction.wf()
    &&& ray.hit matches Some(h) ==> 0 <= h.distance <= WORLD_LIMIT
}

pub open spec fn as_ints(s: Seq<i16>) -> Seq<int> {
    s.map_values(|a: i16| a as int)
}

/// The angles, in degrees, at which a scan with field of view `fov` casts its rays,
/// one every `step` degrees from `-fov / 2` up to, but excluding, `fov / 2`.
pub fn scan_angles(fov: i16, step: usize) -> (r: Vec<i16>)
    requires
        step > 0,
    ensures
        as_ints(r@) == fan_angles(fov, step),
{
    let mag: u32 = if fov >= 0 {
        fov as u32
    } else {
        (-(fov as i32)) as u32
    };
    let half_mag: u32 = mag / 2;
    let half: i32 = if fov >= 0 {
        half_mag as i32
    } else {
        -(half_mag as i32)
    };
    assert(half == half_fov(fov));
    let mut angles: Vec<i16> = Vec::new();
    let mut a: i32 = -half;
    while a < half
        invariant
            half == half_fov(fov),
            -16384 <= half <= 16384,
            -16384 <= a <= 16384,
            step > 0,
            as_ints(angles@) + fan_from(a as int, half as int, step as int) == fan_angles(
                fov,
                step,
            ),
        decreases half - a,
    {
        let ghost before = angles@;
        angles.push(a as i16);
        assert(as_ints(angles@) =~= as_ints(before).push(a as int));
        assert(as_ints(angles@) + fan_from(a + step, half as int, step as int) =~= as_ints(before)
            + fan_from(a as int, half as int, step as int));
        let gap: usize = (half - a) as usize;
        if step >= gap {
            a = half;
        } else {
            a = a + step as i32;
        }
    }
    angles
}

/// Classifies the rays of a field-of-view scan from `origin`. `rays` holds, for each
/// angle of [`scan_angles`] in order, the direction of the ray and what the ray
/// query service reported when it was cast up to `distance`. A ray that struck an
/// object gives a sample with that object at the hit point; one that struck nothing
/// gives a sample with no object at exactly `distance` along the ray.
pub fn scan_fov(
    rays: &Vec<ScanRay>,
    fov: i16,
    origin: WorldPoint,
    sensitivity: usize,
    distance: i64,
) -> (r: Vec<ScanSample>)
    requires
        sensitivity > 0,
        in_world(origin),
        0 <= distance <= WORLD_LIMIT,
        rays@.len() == fan_angles(fov, sensitivity).len(),
        forall|i: int| 0 <= i < rays@.len() ==> ray_ok(#[trigger] rays@[i]),
    ensures
        r@ == scan_of(rays@, fov, origin, sensitivity, distance),
{
    let angles = scan_angles(fov, sensitivity);
    let mut samples: Vec<ScanSample> = Vec::new();
    let mut i: usize = 0;
    while i < rays.len()
        invariant
            i <= rays@.len(),
            angles@.len() == rays@.len(),
            as_ints(angles@) == fan_angles(fov, sensitivity),
            in_world(origin),
            0 <= distance <= WORLD_LIMIT,
            forall|k: int| 0 <= k < rays@.len() ==> ray_ok(#[trigger] rays@[k]),
            samples@ =~= scan_of(rays@, fov, origin, sensitivity, distance).take(i as int),
        decreases rays@.len() - i,
    {
        let ray = rays[i];
        let angle = angles[i];
        assert(ray_ok(rays@[i as int]));
        assert(as_ints(angles@)[i as int] == angle as int);
        let cast = WorldRay { origin, direction: ray.direction };
        let sample = match ray.hit {
            Some(h) => ScanSample {
                angle,
                hit_point: point_along(&cast, h.distance),
                object: Some(h.object),
            },
            None => ScanSample { angle, hit_point: point_along(&cast, distance), object: None },
        };
        samples.push(sample);
        i = i + 1;
    }
    samples
}

/// A scan depends on nothing but its inputs: two scans over the same rays, with
/// the same parameters, give the same samples.
pub proof fn lemma_scan_repeatable(
    rays: Seq<ScanRay>,
    fov: i16,
    origin: WorldPoint,
    step: usize,
    range: i64,
    first: Seq<ScanSample>,
    second: Seq<ScanSample>,
)
    requires
        first == scan_of(rays, fov, origin, step, range),
        second == scan_of(rays, fov, origin, step, range),
    ensures
        first == second,
{
}

/// A sample carries no object exactly when its ray struck nothing, and then its
/// hit point lies at the full range along the ray; otherwise it lies at the hit
/// distance.
pub proof fn lemma_sample_classification(
    rays: Seq<ScanRay>,
    fov: i16,
    origin: WorldPoint,
    step: usize,
    range: i64,
    i: int,
)
    requires
        0 <= i < rays.len(),
    ensures
        (scan_of(rays, fov, origin, step, range)[i].object is None) == (rays[i].hit is None),
        rays[i].hit is None ==> scan_of(rays, fov, origin, step, range)[i].hit_point
            == ray_point(origin, rays[i].direction, range as int),
        rays[i].hit matches Some(h) ==> scan_of(rays, fov, origin, step, range)[i].hit_point
            == ray_point(origin, rays[i].direction, h.distance as int),
{
}

} // verus!
