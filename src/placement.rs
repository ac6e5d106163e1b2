//! Where new units may be placed on the ground grid.
use vstd::prelude::*;

verus! {

/// The least distance between two placed units, in half world units.
pub const MIN_SPACING_HALF_UNITS: i64 = 3;

/// How far inside the ground's edge units are placed, in world units.
pub const EDGE_MARGIN: i64 = 2;

/// A cell of the ground grid, in whole world units.
#[derive(Clone, Copy, Debug, PartialEq, Eq, Structural)]
pub struct GroundSpot {
    pub x: i32,
    pub z: i32,
}

/// The two spots lie further apart than the minimum spacing.
pub open spec fn well_apart(a: GroundSpot, b: GroundSpot) -> bool {
    let dx = 2 * (a.x - b.x);
    let dz = 2 * (a.z - b.z);
    dx * dx + dz * dz > MIN_SPACING_HALF_UNITS * MIN_SPACING_HALF_UNITS
}

/// The spot lies further than the minimum spacing from every placed spot.
pub open spec fn clear_of(spot: GroundSpot, placed: Seq<GroundSpot>) -> bool {
    forall|i: int| 0 <= i < placed.len() ==> well_apart(spot, #[trigger] placed[i])
}

/// The half-width of the square in which units are placed on a ground of side
/// `ground_size`: placements run from `-extent` up to, but excluding, `extent`.
pub open spec fn extent_of(ground_size: u32) -> int {
    ground_size / 2 - EDGE_MARGIN
}

/// The half-width of the placement square on a ground of side `ground_size`.
pub fn spawn_extent(ground_size: u32) -> (r: i64)
    ensures
        r == extent_of(ground_size),
{
    (ground_size / 2) as i64 - EDGE_MARGIN
}

fn is_well_apart(a: GroundSpot, b: GroundSpot) -> (r: bool)
    ensures
        r == well_apart(a, b),
{
    let dx: i128 = 2 * (a.x as i128 - b.x as i128);
    let dz: i128 = 2 * (a.z as i128 - b.z as i128);
    assert(0 <= dx * dx <= 0x4_0000_0000_0000_0000i128 && 0 <= dz * dz
        <= 0x4_0000_0000_0000_0000i128) by (nonlinear_arith)
        requires
            -0x2_0000_0000i128 <= dx <= 0x2_0000_0000i128,
            -0x2_0000_0000i128 <= dz <= 0x2_0000_0000i128,
    ;
    let sx: i128 = dx * dx;
    let sz: i128 = dz * dz;
    sx + sz > (MIN_SPACING_HALF_UNITS * MIN_SPACING_HALF_UNITS) as i128
}

/// Whether `spot` lies further than the minimum spacing from every spot of `placed`.
pub fn is_clear(spot: GroundSpot, placed: &Vec<GroundSpot>) -> (r: bool)
    ensures
        r == clear_of(spot, placed@),
{
    let mut i: usize = 0;
    while i < placed.len()
        invariant
            i <= placed@.len(),
            forall|k: int| 0 <= k < i ==> well_apart(spot, #[trigger] placed@[k]),
        decreases placed@.len() - i,
    {
        if !is_well_apart(spot, placed[i]) {
            return false;
        }
        i = i + 1;
    }
    true
}

/// The first of the candidate spots `tries` that is clear of every placed spot, if
/// any; when one is found it joins `placed`.
pub fn place_unit(placed: &mut Vec<GroundSpot>, tries: &Vec<GroundSpot>) -> (r: Option<GroundSpot>)
    ensures
        match r {
            Some(s) => exists|k: int|
                0 <= k < tries@.len() && tries@[k] == s && clear_of(s, old(placed)@) && forall|
                    j: int,
                |
                    0 <= j < k ==> !clear_of(#[trigger] tries@[j], old(placed)@),
            None => forall|j: int|
                0 <= j < tries@.len() ==> !clear_of(#[trigger] tries@[j], old(placed)@),
        },
        match r {
            Some(s) => final(placed)@ == old(placed)@.push(s),
            None => final(placed)@ == old(placed)@,
        },
{
    let mut k: usize = 0;
    while k < tries.len()
        invariant
            k <= tries@.len(),
            placed@ == old(placed)@,
            forall|j: int| 0 <= j < k ==> !clear_of(#[trigger] tries@[j], old(placed)@),
        decreases tries@.len() - k,
    {
        let spot = tries[k];
        if is_clear(spot, placed) {
            placed.push(spot);
            return Some(spot);
        }
        k = k + 1;
    }
    None
}

} // verus!
