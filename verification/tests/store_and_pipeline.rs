use road_traffic::api::{all_zones_occupancy, all_zones_stats};
use road_traffic::geometry::Point;
use road_traffic::period::PeriodTimer;
use road_traffic::pipeline::{TrackedObject, ZoneHit};
use road_traffic::store::ConvexPolygons;
use road_traffic::zone::{ConvexPolygon, GeoPoint, ZoneError};

fn zone(id: u128, points: Vec<Point>) -> ConvexPolygon {
    let mut z = ConvexPolygon::default_from(points);
    z.spatial_coordinates =
        z.pixel_coordinates.iter().map(|p| GeoPoint { lon_bits: p.x as u64, lat_bits: p.y as u64 }).collect();
    z.set_id(id);
    z
}

fn left_square() -> Vec<Point> {
    vec![Point::new(0, 0), Point::new(10, 0), Point::new(10, 10), Point::new(0, 10)]
}

fn right_square() -> Vec<Point> {
    vec![Point::new(5, 0), Point::new(20, 0), Point::new(20, 10), Point::new(5, 10)]
}

fn object(id: u128, class: &str, lost: usize, x: i32, y: i32) -> TrackedObject {
    TrackedObject {
        id,
        classname: class.to_string(),
        no_match_times: lost,
        last_point: Point::new(x, y),
    }
}

#[test]
fn a_new_store_is_empty_and_its_period_has_no_length() {
    let store = ConvexPolygons::new();
    assert!(store.zones.is_empty());
    assert_eq!(store.period_start, store.period_end);
    assert!(store.period_start > 0);
    let named = ConvexPolygons::starting_at("cam-1".to_string(), 77);
    assert_eq!(named.equipment_id, "cam-1");
    assert_eq!(named.period_start, 77);
    assert_eq!(named.period_end, 77);
}

#[test]
fn insert_rejects_a_zone_that_is_not_usable() {
    let mut store = ConvexPolygons::starting_at(String::new(), 0);
    let flat = zone(1, vec![Point::new(0, 0), Point::new(1, 1), Point::new(0, 0)]);
    assert_eq!(store.insert_polygon(flat), Err(ZoneError::ZoneInvalid));
    let unmatched = ConvexPolygon::default_from(left_square());
    assert_eq!(store.insert_polygon(unmatched), Err(ZoneError::ZoneInvalid));
    assert!(store.zones.is_empty());
}

#[test]
fn insert_adds_or_replaces_by_identifier() {
    let mut store = ConvexPolygons::starting_at(String::new(), 0);
    assert_eq!(store.insert_polygon(zone(1, left_square())), Ok(()));
    assert_eq!(store.insert_polygon(zone(2, right_square())), Ok(()));
    assert_eq!(store.insert_polygon(zone(1, right_square())), Ok(()));
    assert_eq!(store.zones.len(), 2);
    assert_eq!(store.zones[0].get_id(), 1);
    assert_eq!(store.zones[0].pixel_coordinates, right_square());
    assert_eq!(store.zones[1].get_id(), 2);
}

#[test]
fn update_replaces_an_existing_zone_only() {
    let mut store = ConvexPolygons::starting_at(String::new(), 0);
    store.insert_polygon(zone(1, left_square())).unwrap();
    assert_eq!(store.update_zone(1, zone(9, right_square())), Ok(true));
    assert_eq!(store.zones[0].get_id(), 1);
    assert_eq!(store.zones[0].pixel_coordinates, right_square());
    assert_eq!(store.update_zone(5, zone(5, left_square())), Ok(false));
    assert_eq!(store.zones.len(), 1);
    let flat = zone(1, vec![Point::new(0, 0), Point::new(1, 1)]);
    assert_eq!(store.update_zone(1, flat), Err(ZoneError::ZoneInvalid));
    assert_eq!(store.zones[0].pixel_coordinates, right_square());
}

#[test]
fn delete_takes_the_zone_out() {
    let mut store = ConvexPolygons::starting_at(String::new(), 0);
    store.insert_polygon(zone(1, left_square())).unwrap();
    store.insert_polygon(zone(2, right_square())).unwrap();
    store.insert_polygon(zone(3, left_square())).unwrap();
    assert_eq!(store.delete_zone(2), true);
    assert_eq!(store.delete_zone(2), false);
    assert_eq!(store.zones.len(), 2);
    assert_eq!(store.zones[0].get_id(), 1);
    assert_eq!(store.zones[1].get_id(), 3);
}

#[test]
fn replace_all_is_all_or_nothing() {
    let mut store = ConvexPolygons::starting_at("cam".to_string(), 5);
    store.insert_polygon(zone(1, left_square())).unwrap();
    let bad = vec![zone(7, right_square()), zone(8, vec![Point::new(0, 0)])];
    assert_eq!(store.replace_all(bad), Err(ZoneError::ZoneInvalid));
    assert_eq!(store.zones.len(), 1);
    assert_eq!(store.zones[0].get_id(), 1);

    let good = vec![zone(7, right_square()), zone(8, left_square()), zone(7, left_square())];
    assert_eq!(store.replace_all(good), Ok(()));
    assert_eq!(store.zones.len(), 2);
    assert_eq!(store.zones[0].get_id(), 7);
    assert_eq!(store.zones[0].pixel_coordinates, left_square());
    assert_eq!(store.zones[1].get_id(), 8);
    assert_eq!(store.equipment_id, "cam");
    assert_eq!(store.period_start, 5);
}

#[test]
fn a_frame_counts_live_objects_in_every_zone_that_holds_them() {
    let mut store = ConvexPolygons::starting_at(String::new(), 0);
    store.insert_polygon(zone(1, left_square())).unwrap();
    store.insert_polygon(zone(2, right_square())).unwrap();
    let objects = vec![
        object(100, "car", 0, 2, 2),   // left only
        object(101, "bus", 1, 7, 5),   // both
        object(102, "car", 2, 7, 5),   // lost
        object(103, "car", 0, 15, 5),  // right only
        object(104, "car", 0, 30, 30), // nowhere
    ];
    let hits = store.process_frame(&objects, 1700);
    assert_eq!(
        hits,
        vec![
            ZoneHit { zone_id: 1, object_id: 100, newly_registered: true },
            ZoneHit { zone_id: 1, object_id: 101, newly_registered: true },
            ZoneHit { zone_id: 2, object_id: 101, newly_registered: true },
            ZoneHit { zone_id: 2, object_id: 103, newly_registered: true },
        ]
    );
    assert_eq!(store.zones[0].current_statistics.occupancy, 2);
    assert_eq!(store.zones[1].current_statistics.occupancy, 2);
    assert_eq!(store.zones[0].current_statistics.last_time, 1700);
    assert_eq!(store.zones[0].period_counters.len(), 2);
    assert_eq!(store.zones[1].period_counters[0].classname, "bus");

    // the next frame: one object has left, the others are known
    let objects = vec![object(101, "bus", 0, 7, 5), object(103, "car", 0, 15, 5)];
    let hits = store.process_frame(&objects, 1701);
    assert_eq!(
        hits,
        vec![
            ZoneHit { zone_id: 1, object_id: 101, newly_registered: false },
            ZoneHit { zone_id: 2, object_id: 101, newly_registered: false },
            ZoneHit { zone_id: 2, object_id: 103, newly_registered: false },
        ]
    );
    assert_eq!(store.zones[0].current_statistics.occupancy, 1);
    assert_eq!(store.zones[1].current_statistics.occupancy, 2);
    assert_eq!(store.zones[0].registered_objects.len(), 2);
    assert_eq!(store.zones[0].registered_objects[&100].first_seen, 1700);
    assert_eq!(store.zones[0].registered_objects[&101].first_seen, 1700);
    let live = all_zones_occupancy(&store);
    assert_eq!(live.data.len(), 2);
    assert_eq!(live.data[0].occupancy, 1);
    assert_eq!(live.data[1].occupancy, 2);
    assert_eq!(live.data[1].last_time, 1701);
}

#[test]
fn rotate_period_publishes_and_clears() {
    let mut store = ConvexPolygons::starting_at("cam".to_string(), 0);
    store.insert_polygon(zone(1, left_square())).unwrap();
    let objects = vec![object(100, "car", 0, 2, 2), object(101, "car", 0, 3, 3)];
    store.process_frame(&objects, 10);
    store.rotate_period(1000, 2000);
    assert_eq!(store.period_start, 1000);
    assert_eq!(store.period_end, 2000);
    assert_eq!(store.zones[0].current_statistics.occupancy, 2);
    assert!(store.zones[0].registered_objects.is_empty());
    assert!(store.zones[0].period_counters.is_empty());
    let stats = all_zones_stats(&store);
    assert_eq!(stats.equipment_id, "cam");
    assert_eq!(stats.data.len(), 1);
    assert_eq!(stats.data[0].period_start, 1000);
    assert_eq!(stats.data[0].period_end, 2000);
    assert_eq!(stats.data[0].statistics.len(), 1);
    assert_eq!(stats.data[0].statistics[0].classname, "car");
    assert_eq!(stats.data[0].statistics[0].sum_intensity, 2);
}

#[test]
fn the_first_period_ends_now_and_later_ones_follow_it() {
    let mut store = ConvexPolygons::starting_at(String::new(), 500);
    assert_eq!(store.advance_period(10_000, 1000), (9000, 10_000));
    assert_eq!((store.period_start, store.period_end), (9000, 10_000));
    assert_eq!(store.advance_period(11_007, 1000), (10_000, 11_000));
    assert_eq!(store.advance_period(12_345, 1000), (11_000, 12_000));
    assert_eq!((store.period_start, store.period_end), (11_000, 12_000));
}

#[test]
fn the_timer_is_due_once_in_a_period() {
    let mut timer = PeriodTimer::new(1000);
    assert_eq!(timer.tick(0), false);
    assert_eq!(timer.tick(999), false);
    assert_eq!(timer.tick(1000), true);
    assert_eq!(timer.opened_at, 1000);
    assert_eq!(timer.tick(1999), false);
    assert_eq!(timer.tick(500), false);
    assert_eq!(timer.tick(2100), true);
    assert_eq!(timer.opened_at, 2000);
    assert_eq!(timer.tick(2999), false);
    assert_eq!(timer.tick(3000), true);
    assert_eq!(timer.opened_at, 3000);
}

#[test]
fn the_timer_does_not_drift() {
    let mut timer = PeriodTimer::new(1000);
    assert_eq!(timer.tick(1040), true);
    assert_eq!(timer.opened_at, 1000);
    assert_eq!(timer.tick(2000), true);
    assert_eq!(timer.opened_at, 2000);
    assert_eq!(timer.tick(2039), false);
    assert_eq!(timer.opened_at, 2000);
    // a gap of several periods is closed by one rotation
    assert_eq!(timer.tick(6500), true);
    assert_eq!(timer.opened_at, 6000);
    assert_eq!(timer.tick(6999), false);
    assert_eq!(timer.tick(7000), true);
}

#[test]
fn a_timer_without_length_is_always_due() {
    let mut timer = PeriodTimer::new(0);
    assert_eq!(timer.tick(0), true);
    assert_eq!(timer.tick(17), true);
    assert_eq!(timer.opened_at, 17);
    assert_eq!(timer.tick(3), false);
}

#[test]
fn period_rollover() {
    // reset = 1000 ms; frames at 0.0 s, 0.5 s and 1.1 s of the stream
    let mut store = ConvexPolygons::starting_at(String::new(), 0);
    store.insert_polygon(zone(1, left_square())).unwrap();
    let mut timer = PeriodTimer::new(1000);

    let first = vec![object(100, "car", 0, 2, 2)];
    let outcome = store.handle_frame(&mut timer, &first, 50, 0, 50_000);
    assert_eq!(outcome.closed_period, None);
    assert_eq!(outcome.hits.len(), 1);

    let second = vec![object(100, "car", 0, 3, 2), object(101, "truck", 0, 4, 4)];
    let outcome = store.handle_frame(&mut timer, &second, 50, 500, 50_500);
    assert_eq!(outcome.closed_period, None);
    assert!(store.zones[0].statistics.vehicles_data.is_empty());
    assert_eq!(store.zones[0].period_counters.len(), 2);

    let third: Vec<TrackedObject> = vec![];
    let outcome = store.handle_frame(&mut timer, &third, 51, 1100, 51_100);
    assert_eq!(outcome.closed_period, Some((50_100, 51_100)));
    let done = &store.zones[0].statistics;
    assert_eq!(done.period_start, 50_100);
    assert_eq!(done.period_end, 51_100);
    assert_eq!(done.vehicles_data.len(), 2);
    assert_eq!(done.vehicles_data[0].classname, "car");
    assert_eq!(done.vehicles_data[0].sum_intensity, 1);
    assert_eq!(done.vehicles_data[1].classname, "truck");
    assert_eq!(done.vehicles_data[1].sum_intensity, 1);
    assert!(store.zones[0].period_counters.is_empty());
    assert!(store.zones[0].registered_objects.is_empty());
    assert_eq!(store.zones[0].current_statistics.occupancy, 0);
    assert_eq!(timer.opened_at, 1000);
}

#[test]
fn the_frame_that_closes_a_period_counts_in_the_next_one() {
    let mut store = ConvexPolygons::starting_at(String::new(), 0);
    store.insert_polygon(zone(1, left_square())).unwrap();
    let mut timer = PeriodTimer::new(1000);

    let first = vec![object(100, "car", 0, 2, 2)];
    store.handle_frame(&mut timer, &first, 50, 0, 50_000);
    let second = vec![object(100, "car", 0, 3, 2), object(101, "truck", 0, 4, 4)];
    store.handle_frame(&mut timer, &second, 50, 500, 50_500);

    // the third frame crosses the end of the period: one object is known,
    // one is new, both are inside
    let third = vec![object(100, "car", 0, 4, 2), object(102, "bus", 0, 5, 5)];
    let outcome = store.handle_frame(&mut timer, &third, 51, 1100, 51_100);
    assert_eq!(outcome.closed_period, Some((50_100, 51_100)));
    assert_eq!(
        outcome.hits,
        vec![
            ZoneHit { zone_id: 1, object_id: 100, newly_registered: true },
            ZoneHit { zone_id: 1, object_id: 102, newly_registered: true },
        ]
    );

    // the completed period holds what the first two frames counted
    let done = &store.zones[0].statistics;
    assert_eq!(done.vehicles_data.len(), 2);
    assert_eq!(done.vehicles_data[0].classname, "car");
    assert_eq!(done.vehicles_data[0].sum_intensity, 1);
    assert_eq!(done.vehicles_data[1].classname, "truck");
    assert_eq!(done.vehicles_data[1].sum_intensity, 1);

    // the new period holds the objects of the third frame, each once
    let zone = &store.zones[0];
    assert_eq!(zone.registered_objects.len(), 2);
    assert!(zone.blob_registered(&100));
    assert!(zone.blob_registered(&102));
    assert!(!zone.blob_registered(&101));
    assert_eq!(zone.registered_objects[&100].first_seen, 51);
    assert_eq!(zone.period_counters.len(), 2);
    assert_eq!(zone.period_counters[0].classname, "car");
    assert_eq!(zone.period_counters[0].sum_intensity, 1);
    assert_eq!(zone.period_counters[1].classname, "bus");
    assert_eq!(zone.period_counters[1].sum_intensity, 1);
    assert_eq!(zone.current_statistics.occupancy, 2);

    // a fourth frame in the same period closes nothing
    let fourth = vec![object(102, "bus", 0, 5, 6)];
    let outcome = store.handle_frame(&mut timer, &fourth, 51, 1600, 51_600);
    assert_eq!(outcome.closed_period, None);
    assert_eq!(store.zones[0].statistics.vehicles_data.len(), 2);
    assert_eq!(store.zones[0].period_counters[1].sum_intensity, 1);

    // the next boundary is at 2000 ms, and the periods follow each other
    let fifth: Vec<TrackedObject> = vec![];
    let outcome = store.handle_frame(&mut timer, &fifth, 52, 2010, 52_010);
    assert_eq!(outcome.closed_period, Some((51_100, 52_100)));
    let done = &store.zones[0].statistics;
    assert_eq!(done.vehicles_data.len(), 2);
    assert_eq!(done.vehicles_data[0].classname, "car");
    assert_eq!(done.vehicles_data[1].classname, "bus");
}
