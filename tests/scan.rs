use unit_selection::geometry::WorldPoint;
use unit_selection::picking::{Direction, ObjectHandle, RayHit, DIRECTION_SCALE};
use unit_selection::scan::{scan_angles, scan_fov, ScanRay, ScanSample};

#[test]
fn angles_form_a_half_open_fan() {
    assert_eq!(scan_angles(90, 10), vec![-45, -35, -25, -15, -5, 5, 15, 25, 35]);
    assert_eq!(scan_angles(91, 10), vec![-45, -35, -25, -15, -5, 5, 15, 25, 35]);
    assert_eq!(scan_angles(5, 1), vec![-2, -1, 0, 1]);
    assert_eq!(scan_angles(120, 60), vec![-60, 0]);
    assert_eq!(scan_angles(10, 1000), vec![-5]);
}

#[test]
fn empty_fans() {
    assert!(scan_angles(0, 1).is_empty());
    assert!(scan_angles(1, 1).is_empty());
    assert!(scan_angles(-40, 5).is_empty());
    assert!(scan_angles(i16::MIN, 1).is_empty());
}

#[test]
fn widest_fan_stays_in_range() {
    let a = scan_angles(i16::MAX, 1);
    assert_eq!(a.len(), 32766);
    assert_eq!(a[0], -16383);
    assert_eq!(*a.last().unwrap(), 16382);
}

/// Rays straight along -z with one obstacle two units ahead, struck by the two
/// rays nearest the centre.
fn obstacle_rays() -> Vec<ScanRay> {
    let angles = scan_angles(90, 10);
    angles
        .iter()
        .map(|&a| ScanRay {
            direction: Direction { x: 0, y: 0, z: -DIRECTION_SCALE },
            hit: if a == -5 || a == 5 {
                Some(RayHit { object: ObjectHandle { id: 42 }, distance: 2_000 })
            } else {
                None
            },
        })
        .collect()
}

#[test]
fn obstacle_ahead_is_reported_by_the_central_rays() {
    let origin = WorldPoint { x: 0, y: 250, z: 0 };
    let samples = scan_fov(&obstacle_rays(), 90, origin, 10, 5_000);
    assert_eq!(samples.len(), 9);
    for s in &samples {
        if s.angle == -5 || s.angle == 5 {
            assert_eq!(s.object, Some(ObjectHandle { id: 42 }));
            assert_eq!(s.hit_point, WorldPoint { x: 0, y: 250, z: -2_000 });
        } else {
            assert_eq!(s.object, None);
            assert_eq!(s.hit_point, WorldPoint { x: 0, y: 250, z: -5_000 });
        }
    }
    let angles: Vec<i16> = samples.iter().map(|s| s.angle).collect();
    assert_eq!(angles, scan_angles(90, 10));
}

#[test]
fn scanning_twice_gives_the_same_samples() {
    let origin = WorldPoint { x: 3, y: 4, z: 5 };
    let rays = obstacle_rays();
    let first: Vec<ScanSample> = scan_fov(&rays, 90, origin, 10, 5_000);
    let second: Vec<ScanSample> = scan_fov(&rays, 90, origin, 10, 5_000);
    assert_eq!(first, second);
}

#[test]
fn missed_ray_stops_at_full_range_along_its_direction() {
    let rays = vec![
        ScanRay { direction: Direction { x: 600_000, y: 0, z: -800_000 }, hit: None },
        ScanRay {
            direction: Direction { x: -600_000, y: 0, z: -800_000 },
            hit: Some(RayHit { object: ObjectHandle { id: 1 }, distance: 1_000 }),
        },
    ];
    let samples = scan_fov(&rays, 120, WorldPoint { x: 0, y: 0, z: 0 }, 60, 10_000);
    assert_eq!(
        samples,
        vec![
            ScanSample { angle: -60, hit_point: WorldPoint { x: 6_000, y: 0, z: -8_000 }, object: None },
            ScanSample {
                angle: 0,
                hit_point: WorldPoint { x: -600, y: 0, z: -800 },
                object: Some(ObjectHandle { id: 1 }),
            },
        ]
    );
}
