use road_traffic::geometry::Point;
use road_traffic::zone::ConvexPolygon;

fn square() -> Vec<Point> {
    vec![Point::new(0, 0), Point::new(5, 0), Point::new(5, 5), Point::new(0, 5)]
}

fn triangle() -> Vec<Point> {
    vec![Point::new(0, 0), Point::new(5, 5), Point::new(5, 0)]
}

fn rectangle() -> Vec<Point> {
    vec![Point::new(23, 15), Point::new(67, 15), Point::new(67, 41), Point::new(23, 41)]
}

#[test]
fn test_contains_point() {
    let convex_polygons = vec![
        ConvexPolygon::default_from(square()),
        ConvexPolygon::default_from(square()),
        ConvexPolygon::default_from(triangle()),
        ConvexPolygon::default_from(triangle()),
        ConvexPolygon::default_from(triangle()),
        ConvexPolygon::default_from(square()),
    ];
    let points = vec![
        Point::new(20, 20),
        Point::new(4, 4),
        Point::new(3, 3),
        Point::new(5, 1),
        Point::new(7, 2),
        Point::new(-2, 12),
    ];
    let correct_answers = vec![false, true, true, true, false, false];
    for (i, convex_polygon) in convex_polygons.iter().enumerate() {
        let answer = convex_polygon.contains_point(points[i].x, points[i].y);
        assert_eq!(answer, correct_answers[i]);
    }
}

#[test]
fn convex_polygons_test_contains_point() {
    let convex_polygons = vec![
        ConvexPolygon::default_from(square()),
        ConvexPolygon::default_from(square()),
        ConvexPolygon::default_from(triangle()),
        ConvexPolygon::default_from(triangle()),
        ConvexPolygon::default_from(triangle()),
        ConvexPolygon::default_from(square()),
    ];
    let points = vec![
        Point::new(20, 20),
        Point::new(4, 4),
        Point::new(3, 3),
        Point::new(5, 1),
        Point::new(7, 2),
        Point::new(-2, 12),
    ];
    let correct_answers = vec![false, true, true, true, false, false];
    for (i, convex_polygon) in convex_polygons.iter().enumerate() {
        let answer = convex_polygon.contains_point(points[i].x, points[i].y);
        assert_eq!(answer, correct_answers[i]);
    }
}

#[test]
fn contains_cv_point_agrees_with_contains_point() {
    let polygon = ConvexPolygon::default_from(square());
    for x in -2..8 {
        for y in -2..8 {
            assert_eq!(polygon.contains_cv_point(&Point::new(x, y)), polygon.contains_point(x, y));
        }
    }
    assert_eq!(polygon.contains_cv_point(&Point::new(5, 1)), true);
    assert_eq!(polygon.contains_cv_point(&Point::new(20, 20)), false);
}

#[test]
fn test_object_entered() {
    let polygon = ConvexPolygon::default_from(rectangle());

    let a_track_must_enter = vec![Point::new(36, 7), Point::new(34, 13), Point::new(36, 21)];
    let entered = polygon.object_entered(a_track_must_enter);
    assert_eq!(entered, true);

    let b_track_must_not_enter = vec![Point::new(45, 35), Point::new(46, 38), Point::new(49, 46)];
    let entered = polygon.object_entered(b_track_must_not_enter);
    assert_eq!(entered, false);

    let c_track_must_not_enter = vec![Point::new(56, 19), Point::new(55, 23), Point::new(55, 29)];
    let entered = polygon.object_entered(c_track_must_not_enter);
    assert_eq!(entered, false);

    let d_track_must_not_enter = vec![Point::new(17, 13), Point::new(19, 20), Point::new(19, 25)];
    let entered = polygon.object_entered(d_track_must_not_enter);
    assert_eq!(entered, false);
}

#[test]
fn test_object_left() {
    let polygon = ConvexPolygon::default_from(rectangle());

    let a_track_must_enter = vec![Point::new(36, 7), Point::new(34, 13), Point::new(36, 21)];
    let left = polygon.object_left(a_track_must_enter);
    assert_eq!(left, false);

    let b_track_must_not_enter = vec![Point::new(45, 35), Point::new(46, 38), Point::new(49, 46)];
    let left = polygon.object_left(b_track_must_not_enter);
    assert_eq!(left, true);

    let c_track_must_not_enter = vec![Point::new(56, 19), Point::new(55, 23), Point::new(55, 29)];
    let left = polygon.object_left(c_track_must_not_enter);
    assert_eq!(left, false);

    let d_track_must_not_enter = vec![Point::new(17, 13), Point::new(19, 20), Point::new(19, 25)];
    let left = polygon.object_left(d_track_must_not_enter);
    assert_eq!(left, false);
}
