use unit_selection::geometry::WorldPoint;
use unit_selection::picking::{
    is_in_world, is_unit_bounded, point_along, screen_ray_to_entity, Direction, ObjectHandle, PickResult, RayHit, WorldRay,
    DIRECTION_SCALE, WORLD_LIMIT,
};

fn ray(origin: WorldPoint, x: i64, y: i64, z: i64) -> WorldRay {
    WorldRay { origin, direction: Direction { x, y, z } }
}

#[test]
fn pick_reports_object_and_hit_point() {
    let r = ray(WorldPoint { x: 100, y: 10_000, z: 0 }, 0, -DIRECTION_SCALE, 0);
    let hit = RayHit { object: ObjectHandle { id: 7 }, distance: 9_500 };
    assert_eq!(
        screen_ray_to_entity(Some(r), Some(hit)),
        Some(PickResult {
            object: Some(ObjectHandle { id: 7 }),
            point: WorldPoint { x: 100, y: 500, z: 0 },
        })
    );
}

#[test]
fn pick_without_ray_or_hit_is_none() {
    let r = ray(WorldPoint { x: 0, y: 0, z: 0 }, DIRECTION_SCALE, 0, 0);
    let hit = RayHit { object: ObjectHandle { id: 1 }, distance: 10 };
    assert_eq!(screen_ray_to_entity(None, Some(hit)), None);
    assert_eq!(screen_ray_to_entity(Some(r), None), None);
    assert_eq!(screen_ray_to_entity(None, None), None);
}

#[test]
fn point_along_diagonal_rounds_toward_zero() {
    // (0.6, 0, -0.8) times 2.5 units.
    let r = ray(WorldPoint { x: 0, y: 0, z: 0 }, 600_000, 0, -800_000);
    assert_eq!(point_along(&r, 2_500), WorldPoint { x: 1_500, y: 0, z: -2_000 });
    let tiny = ray(WorldPoint { x: 10, y: 10, z: 10 }, -1, 1, 0);
    assert_eq!(point_along(&tiny, 999_999), WorldPoint { x: 10, y: 10, z: 10 });
    assert_eq!(point_along(&tiny, 1_000_000), WorldPoint { x: 9, y: 11, z: 10 });
}

#[test]
fn limits_of_points_and_directions() {
    assert!(is_in_world(WorldPoint { x: WORLD_LIMIT, y: -WORLD_LIMIT, z: 0 }));
    assert!(!is_in_world(WorldPoint { x: 0, y: WORLD_LIMIT + 1, z: 0 }));
    assert!(!is_in_world(WorldPoint { x: 0, y: 0, z: i64::MIN }));
    assert!(is_unit_bounded(Direction { x: DIRECTION_SCALE, y: -DIRECTION_SCALE, z: 0 }));
    assert!(!is_unit_bounded(Direction { x: 0, y: 0, z: DIRECTION_SCALE + 1 }));
}
