use road_traffic::geometry::Point;
use road_traffic::zone::{Color, ConvexPolygon, GeoPoint, ZoneError};

fn rectangle() -> Vec<Point> {
    vec![Point::new(23, 15), Point::new(67, 15), Point::new(67, 41), Point::new(23, 41)]
}

fn world(n: usize) -> Vec<GeoPoint> {
    (0..n).map(|i| GeoPoint { lon_bits: i as u64, lat_bits: 100 + i as u64 }).collect()
}

#[test]
fn default_from_starts_empty_and_white() {
    let zone = ConvexPolygon::default_from(rectangle());
    assert_eq!(zone.pixel_coordinates, rectangle());
    assert!(zone.spatial_coordinates.is_empty());
    assert_eq!(zone.color, Color { blue: 255, green: 255, red: 255 });
    assert_eq!(zone.road_lane_num, 0);
    assert_eq!(zone.road_lane_direction, 0);
    assert!(zone.registered_objects.is_empty());
    assert!(zone.period_counters.is_empty());
    assert!(zone.statistics.vehicles_data.is_empty());
    assert_eq!(zone.current_statistics.occupancy, 0);
    assert_eq!(zone.current_statistics.last_time, 0);
}

#[test]
fn default_from_gives_fresh_identifiers() {
    let a = ConvexPolygon::default_from(rectangle());
    let b = ConvexPolygon::default_from(rectangle());
    assert_ne!(a.get_id(), b.get_id());
}

#[test]
fn set_id_changes_the_identifier_only() {
    let mut zone = ConvexPolygon::default_from(rectangle());
    zone.set_id(42);
    assert_eq!(zone.get_id(), 42);
    assert_eq!(zone.pixel_coordinates, rectangle());
}

#[test]
fn validate_asks_for_three_vertices_and_matching_world_coordinates() {
    let mut zone = ConvexPolygon::default_from(rectangle());
    assert_eq!(zone.validate(), Err(ZoneError::ZoneInvalid));
    zone.spatial_coordinates = world(4);
    assert_eq!(zone.validate(), Ok(()));
    zone.spatial_coordinates = world(3);
    assert_eq!(zone.validate(), Err(ZoneError::ZoneInvalid));

    let mut flat = ConvexPolygon::default_from(vec![
        Point::new(0, 0),
        Point::new(1, 1),
        Point::new(0, 0),
    ]);
    flat.spatial_coordinates = world(3);
    assert_eq!(flat.validate(), Err(ZoneError::ZoneInvalid));
}

#[test]
fn a_single_point_track_enters_when_inside_and_never_leaves() {
    let zone = ConvexPolygon::default_from(rectangle());
    assert_eq!(zone.object_entered(vec![Point::new(36, 21)]), true);
    assert_eq!(zone.object_entered(vec![Point::new(36, 7)]), false);
    assert_eq!(zone.object_left(vec![Point::new(36, 21)]), false);
    assert_eq!(zone.object_left(vec![]), false);
}

#[test]
fn entered_and_left_exclude_each_other() {
    let zone = ConvexPolygon::default_from(rectangle());
    let points = vec![
        Point::new(36, 7),
        Point::new(36, 21),
        Point::new(23, 15),
        Point::new(49, 46),
        Point::new(55, 29),
    ];
    for a in points.iter() {
        for b in points.iter() {
            let entered = zone.object_entered(vec![*a, *b]);
            let left = zone.object_left(vec![*a, *b]);
            assert!(!(entered && left));
            let same = zone.contains_cv_point(a) == zone.contains_cv_point(b);
            assert_eq!(!entered && !left, same);
        }
    }
}

#[test]
fn blobs_are_registered_once() {
    let mut zone = ConvexPolygon::default_from(rectangle());
    assert!(!zone.blob_registered(&7));
    zone.register_blob(7, "car".to_string(), 100);
    zone.register_blob(8, "bus".to_string(), 101);
    zone.register_blob(7, "truck".to_string(), 102);
    assert!(zone.blob_registered(&7));
    assert!(zone.blob_registered(&8));
    assert_eq!(zone.registered_objects.len(), 2);
    assert_eq!(zone.registered_objects[&7].classname, "car");
    assert_eq!(zone.registered_objects[&7].first_seen, 100);
    assert_eq!(zone.registered_objects[&8].classname, "bus");
    assert_eq!(zone.registered_objects[&8].first_seen, 101);
}

#[test]
fn deregister_removes_the_blob_and_keeps_the_others() {
    let mut zone = ConvexPolygon::default_from(rectangle());
    zone.register_blob(1, "car".to_string(), 1);
    zone.register_blob(2, "bus".to_string(), 2);
    zone.register_blob(3, "car".to_string(), 3);
    zone.deregister_blob(&2);
    assert!(!zone.blob_registered(&2));
    assert_eq!(zone.registered_objects.len(), 2);
    assert!(zone.blob_registered(&1));
    assert!(zone.blob_registered(&3));
    zone.deregister_blob(&9);
    assert_eq!(zone.registered_objects.len(), 2);
}

#[test]
fn intensity_is_counted_by_class() {
    let mut zone = ConvexPolygon::default_from(rectangle());
    zone.increment_intensity(&"car".to_string());
    zone.increment_intensity(&"bus".to_string());
    zone.increment_intensity(&"car".to_string());
    assert_eq!(zone.period_counters.len(), 2);
    assert_eq!(zone.period_counters[0].classname, "car");
    assert_eq!(zone.period_counters[0].sum_intensity, 2);
    assert_eq!(zone.period_counters[1].classname, "bus");
    assert_eq!(zone.period_counters[1].sum_intensity, 1);
}

#[test]
fn an_object_is_counted_when_first_seen_in_the_period() {
    let mut zone = ConvexPolygon::default_from(rectangle());
    assert_eq!(zone.register_or_update_object(5, "car".to_string(), 1000), true);
    assert_eq!(zone.register_or_update_object(5, "car".to_string(), 1001), false);
    assert_eq!(zone.register_or_update_object(6, "car".to_string(), 1002), true);
    assert_eq!(zone.registered_objects.len(), 2);
    assert_eq!(zone.registered_objects[&5].first_seen, 1000);
    assert_eq!(zone.registered_objects[&6].first_seen, 1002);
    assert_eq!(zone.period_counters.len(), 1);
    assert_eq!(zone.period_counters[0].sum_intensity, 2);
}

#[test]
fn tick_resets_the_live_counters() {
    let mut zone = ConvexPolygon::default_from(rectangle());
    zone.current_statistics.occupancy = 9;
    zone.register_blob(1, "car".to_string(), 1);
    zone.tick_live_counters(1234);
    assert_eq!(zone.current_statistics.occupancy, 0);
    assert_eq!(zone.current_statistics.last_time, 1234);
    assert_eq!(zone.registered_objects.len(), 1);
}

#[test]
fn roll_over_publishes_the_counters_and_starts_anew() {
    let mut zone = ConvexPolygon::default_from(rectangle());
    zone.register_or_update_object(5, "car".to_string(), 1000);
    zone.register_or_update_object(6, "bus".to_string(), 1000);
    zone.register_or_update_object(7, "car".to_string(), 1001);
    zone.current_statistics.occupancy = 3;
    zone.roll_over(5000, 6000);
    assert_eq!(zone.statistics.period_start, 5000);
    assert_eq!(zone.statistics.period_end, 6000);
    assert_eq!(zone.statistics.vehicles_data.len(), 2);
    assert_eq!(zone.statistics.vehicles_data[0].classname, "car");
    assert_eq!(zone.statistics.vehicles_data[0].sum_intensity, 2);
    assert_eq!(zone.statistics.vehicles_data[1].classname, "bus");
    assert_eq!(zone.statistics.vehicles_data[1].sum_intensity, 1);
    assert!(zone.registered_objects.is_empty());
    assert!(zone.period_counters.is_empty());
    assert_eq!(zone.current_statistics.occupancy, 3);
    // a known object counts again in the new period
    assert_eq!(zone.register_or_update_object(5, "car".to_string(), 7000), true);
}
