use road_traffic::geometry::{
    get_orientation, is_intersects, is_on_segment, polygon_contains, ray_end_x,
    three_distinct_vertices, Point, PointsOrientation,
};

#[test]
fn orientation_follows_the_sign_of_the_cross_product() {
    assert_eq!(get_orientation(0, 0, 1, 1, 2, 2), PointsOrientation::Collinear);
    // (qy - py)(rx - qx) - (qx - px)(ry - qy) = 1 * 1 - 1 * (-1) = 2
    assert_eq!(get_orientation(0, 0, 1, 1, 2, 0), PointsOrientation::Clockwise);
    // 1 * (-1) - 1 * 1 = -2
    assert_eq!(get_orientation(0, 0, 1, 1, 0, 2), PointsOrientation::CounterClockwise);
}

#[test]
fn orientation_is_exact_at_the_limit_of_the_coordinates() {
    let m: i64 = 4294967296;
    assert_eq!(get_orientation(-m, -m, 0, 0, m, m), PointsOrientation::Collinear);
    assert_eq!(get_orientation(-m, -m, 0, 0, m, m - 1), PointsOrientation::Clockwise);
    assert_eq!(get_orientation(-m, -m, 0, 0, m, -m), PointsOrientation::Clockwise);
    assert_eq!(get_orientation(-m, -m, m, m, -m, m), PointsOrientation::CounterClockwise);
}

#[test]
fn on_segment_is_the_bounding_box() {
    assert!(is_on_segment(0, 0, 2, 2, 5, 5));
    assert!(is_on_segment(5, 5, 0, 0, 0, 0));
    assert!(is_on_segment(0, 5, 3, 1, 5, 0));
    assert!(!is_on_segment(0, 0, 6, 2, 5, 5));
    assert!(!is_on_segment(0, 0, 2, -1, 5, 5));
}

#[test]
fn segments_that_cross_touch_or_miss() {
    assert!(is_intersects(0, 0, 4, 4, 0, 4, 4, 0));
    assert!(is_intersects(0, 0, 4, 0, 2, 0, 2, 3));
    assert!(is_intersects(0, 0, 4, 0, 2, 0, 6, 0));
    assert!(!is_intersects(0, 0, 4, 0, 5, 0, 6, 0));
    assert!(!is_intersects(0, 0, 4, 0, 0, 1, 4, 1));
    assert!(!is_intersects(0, 0, 4, 4, 5, 0, 6, 1));
}

#[test]
fn a_polygon_needs_three_different_vertices() {
    assert!(!three_distinct_vertices(&vec![]));
    assert!(!three_distinct_vertices(&vec![Point::new(0, 0), Point::new(1, 1)]));
    assert!(!three_distinct_vertices(&vec![
        Point::new(0, 0),
        Point::new(1, 1),
        Point::new(0, 0),
        Point::new(1, 1)
    ]));
    assert!(three_distinct_vertices(&vec![
        Point::new(0, 0),
        Point::new(0, 0),
        Point::new(1, 1),
        Point::new(0, 0),
        Point::new(1, 0)
    ]));
}

#[test]
fn degenerate_polygons_contain_nothing() {
    assert!(!polygon_contains(&vec![], 0, 0));
    assert!(!polygon_contains(&vec![Point::new(0, 0), Point::new(4, 0)], 2, 0));
    assert!(!polygon_contains(
        &vec![Point::new(0, 0), Point::new(4, 0), Point::new(0, 0), Point::new(4, 0)],
        2,
        0
    ));
}

#[test]
fn the_ray_ends_right_of_the_polygon_and_of_the_point() {
    let square = vec![Point::new(0, 0), Point::new(5, 0), Point::new(5, 5), Point::new(0, 5)];
    assert_eq!(ray_end_x(&square, 3), 6);
    assert_eq!(ray_end_x(&square, 20), 21);
    assert_eq!(ray_end_x(&square, -7), 6);
    assert_eq!(ray_end_x(&vec![], i32::MAX), 2147483648);
    assert_eq!(ray_end_x(&vec![Point::new(i32::MAX, 0)], 0), 2147483648);
}

#[test]
fn containment_basic() {
    let square = vec![Point::new(0, 0), Point::new(5, 0), Point::new(5, 5), Point::new(0, 5)];
    assert!(polygon_contains(&square, 4, 4));
    assert!(!polygon_contains(&square, 20, 20));
    assert!(polygon_contains(&square, 5, 1));
}

#[test]
fn containment_triangle_edge() {
    let triangle = vec![Point::new(0, 0), Point::new(5, 5), Point::new(5, 0)];
    assert!(polygon_contains(&triangle, 3, 3));
    assert!(!polygon_contains(&triangle, 7, 2));
}

#[test]
fn containment_every_boundary_point_is_inside() {
    let square = vec![Point::new(0, 0), Point::new(5, 0), Point::new(5, 5), Point::new(0, 5)];
    for t in 0..=5 {
        assert!(polygon_contains(&square, t, 0));
        assert!(polygon_contains(&square, t, 5));
        assert!(polygon_contains(&square, 0, t));
        assert!(polygon_contains(&square, 5, t));
    }
}

#[test]
fn containment_at_the_largest_coordinates() {
    let big = vec![
        Point::new(i32::MIN, i32::MIN),
        Point::new(i32::MAX, i32::MIN),
        Point::new(i32::MAX, i32::MAX),
        Point::new(i32::MIN, i32::MAX),
    ];
    assert!(polygon_contains(&big, 0, 0));
    assert!(polygon_contains(&big, i32::MAX, 17));
    assert!(polygon_contains(&big, i32::MIN, -17));
}

fn rotate(poly: &Vec<Point>, k: usize) -> Vec<Point> {
    let n = poly.len();
    let mut out = Vec::new();
    for i in 0..n {
        out.push(poly[(i + k) % n]);
    }
    out
}

#[test]
fn containment_is_stable_under_rotation_of_the_vertex_list() {
    let polygons = vec![
        vec![Point::new(0, 0), Point::new(5, 0), Point::new(5, 5), Point::new(0, 5)],
        vec![Point::new(0, 0), Point::new(5, 5), Point::new(5, 0)],
        vec![Point::new(-1, -1), Point::new(1, 1), Point::new(3, 0), Point::new(5, 0)],
        vec![Point::new(0, 0), Point::new(2, 2), Point::new(4, 0), Point::new(2, -2)],
    ];
    for poly in polygons.iter() {
        for k in 0..poly.len() {
            let turned = rotate(poly, k);
            for x in -3..8 {
                for y in -4..8 {
                    assert_eq!(
                        polygon_contains(&turned, x, y),
                        polygon_contains(poly, x, y)
                    );
                }
            }
        }
    }
}

fn contains_with_ray_to(poly: &Vec<Point>, x: i32, y: i32, end: i64) -> bool {
    let n = poly.len();
    let mut crossings = 0;
    for i in 0..n {
        let a = poly[i];
        let b = poly[(i + 1) % n];
        let (ax, ay, bx, by) = (a.x as i64, a.y as i64, b.x as i64, b.y as i64);
        if get_orientation(ax, ay, x as i64, y as i64, bx, by) == PointsOrientation::Collinear
            && is_on_segment(ax, ay, x as i64, y as i64, bx, by)
        {
            return true;
        }
        if is_intersects(ax, ay, bx, by, x as i64, y as i64, end, y as i64) {
            crossings += 1;
        }
    }
    crossings % 2 == 1
}

#[test]
fn containment_does_not_depend_on_the_end_of_the_ray() {
    let polygons = vec![
        vec![Point::new(0, 0), Point::new(5, 0), Point::new(5, 5), Point::new(0, 5)],
        vec![Point::new(0, 0), Point::new(5, 5), Point::new(5, 0)],
        vec![Point::new(-1, -1), Point::new(1, 1), Point::new(3, 0), Point::new(5, 0)],
        vec![Point::new(0, 0), Point::new(2, 2), Point::new(4, 0), Point::new(2, -2)],
        vec![Point::new(0, 0), Point::new(6, 1), Point::new(3, 3), Point::new(7, 6), Point::new(-2, 4)],
    ];
    for poly in polygons.iter() {
        for x in -4..10 {
            for y in -4..10 {
                let expected = polygon_contains(poly, x, y);
                for end in [10, 11, 99999, 4294967296] {
                    assert_eq!(contains_with_ray_to(poly, x, y, end), expected);
                }
            }
        }
    }
}
