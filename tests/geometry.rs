use unit_selection::geometry::{contains, marquee_outline, rectangle, Rect2D, WorldPoint};

fn p(x: i64, y: i64, z: i64) -> WorldPoint {
    WorldPoint { x, y, z }
}

#[test]
fn degenerate_rectangle_contains_nothing() {
    let a = p(3000, 7, -2000);
    let r = rectangle(a, a);
    for q in [a, p(3000, 0, -2000), p(0, 0, 0), p(3001, 0, -1999), p(2999, 0, -2001)] {
        assert!(!contains(r, q));
    }
}

#[test]
fn rectangle_ignores_point_order() {
    let a = p(5000, 3, -1000);
    let c = p(-2000, 9, 4000);
    assert_eq!(rectangle(a, c), rectangle(c, a));
    assert_eq!(
        rectangle(a, c),
        Rect2D { min_x: -2000, max_x: 5000, min_z: -1000, max_z: 4000 }
    );
}

#[test]
fn interior_points_are_contained_and_edges_are_not() {
    let r = rectangle(p(0, 0, 0), p(5000, 0, 5000));
    assert!(contains(r, p(2000, 0, 2000)));
    assert!(contains(r, p(1, 99, 4999)));
    assert!(!contains(r, p(5000, 0, 2000)));
    assert!(!contains(r, p(0, 0, 2000)));
    assert!(!contains(r, p(2000, 0, 0)));
    assert!(!contains(r, p(2000, 0, 5000)));
    assert!(!contains(r, p(6000, 0, 6000)));
}

#[test]
fn flat_rectangle_contains_nothing_on_its_flat_axis() {
    let r = rectangle(p(0, 0, 0), p(5000, 0, 0));
    assert!(!contains(r, p(2000, 0, 0)));
}

#[test]
fn outline_winds_from_the_anchor_and_closes() {
    let pts = marquee_outline(p(1000, 500, 2000), p(4000, 0, -3000));
    assert_eq!(
        pts,
        vec![
            p(1000, 520, 2000),
            p(1000, 520, -3000),
            p(4000, 520, -3000),
            p(4000, 520, 2000),
            p(1000, 520, 2000),
        ]
    );
}

#[test]
fn outline_height_saturates() {
    let pts = marquee_outline(p(0, i64::MAX - 5, 0), p(1, 0, 1));
    assert!(pts.iter().all(|q| q.y == i64::MAX));
}
