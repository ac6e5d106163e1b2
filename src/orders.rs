//! Move orders for the selected units.
use vstd::prelude::*;
use crate::geometry::WorldPoint;
use crate::picking::ObjectHandle;
use crate::selection::{SelectedSet, SelectedUnit};

verus! {

/// An order for `unit` to walk to `target`.
#[derive(Clone, Copy, Debug, PartialEq, Eq, Structural)]
pub struct MoveOrder {
    pub unit: ObjectHandle,
    pub target: WorldPoint,
}

/// The orders a right-button release gives: every selected unit walks to the
/// location under the pointer, when there is one.
pub open spec fn orders_for(units: Seq<SelectedUnit>, right_released: bool, target: Option<
    WorldPoint,
>) -> Seq<MoveOrder> {
    match target {
        Some(t) => if right_released {
            units.map_values(|u: SelectedUnit| MoveOrder { unit: u.unit, target: t })
        } else {
            Seq::empty()
        },
        None => Seq::empty(),
    }
}

/// Sends every selected unit to `target` when the right button was just released
/// over a known location; otherwise gives no order.
pub fn mouse_click_set_movement_target(
    selected: &SelectedSet,
    right_released: bool,
    target: Option<WorldPoint>,
) -> (r: Vec<MoveOrder>)
    ensures
        r@ == orders_for(selected.units@, right_released, target),
{
    let mut orders: Vec<MoveOrder> = Vec::new();
    if !right_released {
        return orders;
    }
    let t = match target {
        Some(t) => t,
        None => {
            return orders;
        },
    };
    let mut i: usize = 0;
    while i < selected.units.len()
        invariant
            i <= selected.units@.len(),
            orders@ =~= selected.units@.take(i as int).map_values(
                |u: SelectedUnit| MoveOrder { unit: u.unit, target: t },
            ),
        decreases selected.units@.len() - i,
    {
        orders.push(MoveOrder { unit: selected.units[i].unit, target: t });
        i = i + 1;
    }
    assert(selected.units@.take(selected.units@.len() as int) =~= selected.units@);
    orders
}

} // verus!
