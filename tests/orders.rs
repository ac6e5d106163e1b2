use unit_selection::geometry::WorldPoint;
use unit_selection::orders::{mouse_click_set_movement_target, MoveOrder};
use unit_selection::picking::ObjectHandle;
use unit_selection::placement::{is_clear, place_unit, spawn_extent, GroundSpot};
use unit_selection::selection::{SelectedSet, SelectedUnit};

#[test]
fn right_release_sends_every_selected_unit() {
    let set = SelectedSet {
        units: vec![
            SelectedUnit { unit: ObjectHandle { id: 1 }, indicator: None },
            SelectedUnit { unit: ObjectHandle { id: 2 }, indicator: None },
        ],
    };
    let t = WorldPoint { x: 5, y: 0, z: -5 };
    assert_eq!(
        mouse_click_set_movement_target(&set, true, Some(t)),
        vec![
            MoveOrder { unit: ObjectHandle { id: 1 }, target: t },
            MoveOrder { unit: ObjectHandle { id: 2 }, target: t },
        ]
    );
    assert!(mouse_click_set_movement_target(&set, false, Some(t)).is_empty());
    assert!(mouse_click_set_movement_target(&set, true, None).is_empty());
}

#[test]
fn spacing_is_strictly_more_than_one_and_a_half_units() {
    let placed = vec![GroundSpot { x: 0, z: 0 }];
    assert!(!is_clear(GroundSpot { x: 1, z: 1 }, &placed));
    assert!(is_clear(GroundSpot { x: 2, z: 0 }, &placed));
    assert!(is_clear(GroundSpot { x: 1, z: 2 }, &placed));
    assert!(!is_clear(GroundSpot { x: 0, z: 1 }, &placed));
    assert!(is_clear(GroundSpot { x: i32::MIN, z: i32::MAX }, &vec![GroundSpot { x: i32::MAX, z: i32::MIN }]));
}

#[test]
fn placement_takes_the_first_clear_try() {
    let mut placed = vec![GroundSpot { x: 0, z: 0 }];
    let tries = vec![GroundSpot { x: 1, z: 0 }, GroundSpot { x: 3, z: 3 }, GroundSpot { x: 5, z: 5 }];
    assert_eq!(place_unit(&mut placed, &tries), Some(GroundSpot { x: 3, z: 3 }));
    assert_eq!(placed, vec![GroundSpot { x: 0, z: 0 }, GroundSpot { x: 3, z: 3 }]);
    let blocked = vec![GroundSpot { x: 3, z: 4 }, GroundSpot { x: 0, z: 0 }];
    assert_eq!(place_unit(&mut placed, &blocked), None);
    assert_eq!(placed.len(), 2);
}

#[test]
fn extent_keeps_a_margin_from_the_edge() {
    assert_eq!(spawn_extent(100), 48);
    assert_eq!(spawn_extent(3), -1);
}
