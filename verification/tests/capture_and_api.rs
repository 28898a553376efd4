use road_traffic::api::{ErrorResponse, PolygonsGeoJSON, SucccessResponse};
use road_traffic::capture::{CaptureAction, CaptureSettings, CaptureState, ReadOutcome};
use road_traffic::errors::{is_exit_key, mjpeg_enabled, AppVideoError, Disposition, ErrorKind};
use road_traffic::geometry::Point;
use road_traffic::settings::RoadLanesSettings;
use road_traffic::store::ConvexPolygons;
use road_traffic::zone::{Color, GeoPoint};

#[test]
fn every_second_frame_is_emitted_by_default() {
    let settings = CaptureSettings::with_defaults(4);
    assert_eq!(settings.skip_every_n, 2);
    assert_eq!(settings.empty_frame_limit, 60);
    let mut state = CaptureState::new();
    let mut actions = Vec::new();
    for _ in 0..6 {
        actions.push(state.step(&settings, ReadOutcome::Frame));
    }
    assert_eq!(
        actions,
        vec![
            CaptureAction::Skip,
            CaptureAction::Emit { seconds: 0, frame_in_second: 2 },
            CaptureAction::Skip,
            CaptureAction::Emit { seconds: 0, frame_in_second: 4 },
            CaptureAction::Skip,
            CaptureAction::Emit { seconds: 1, frame_in_second: 2 },
        ]
    );
    assert_eq!(state.total_seconds, 1);
    assert_eq!(state.frames_counter, 2);
}

#[test]
fn every_third_frame_with_an_odd_rate() {
    let settings = CaptureSettings { frames_per_second: 5, skip_every_n: 3, empty_frame_limit: 2 };
    let mut state = CaptureState::new();
    let mut emitted = Vec::new();
    for i in 1..=12 {
        if let CaptureAction::Emit { seconds, frame_in_second } =
            state.step(&settings, ReadOutcome::Frame)
        {
            emitted.push((i, seconds, frame_in_second));
        }
    }
    assert_eq!(emitted, vec![(3, 0, 3), (6, 1, 1), (9, 1, 4), (12, 2, 2)]);
}

#[test]
fn the_stream_is_given_up_after_empty_reads_in_a_row() {
    let settings = CaptureSettings { frames_per_second: 25, skip_every_n: 1, empty_frame_limit: 3 };
    let mut state = CaptureState::new();
    assert_eq!(state.step(&settings, ReadOutcome::Empty), CaptureAction::Skip);
    assert_eq!(state.step(&settings, ReadOutcome::Failed), CaptureAction::Skip);
    assert_eq!(
        state.step(&settings, ReadOutcome::Frame),
        CaptureAction::Emit { seconds: 0, frame_in_second: 1 }
    );
    assert_eq!(state.empty_frames, 0);
    assert_eq!(state.step(&settings, ReadOutcome::Empty), CaptureAction::Skip);
    assert_eq!(state.step(&settings, ReadOutcome::Empty), CaptureAction::Skip);
    assert_eq!(state.step(&settings, ReadOutcome::Failed), CaptureAction::Stop);
    assert_eq!(state.step(&settings, ReadOutcome::Empty), CaptureAction::Stop);
    assert_eq!(state.empty_frames, 3);
}

#[test]
fn failures_have_their_dispositions() {
    assert_eq!(ErrorKind::ConfigInvalid.disposition(), Disposition::Surface);
    assert_eq!(ErrorKind::VideoOpenFailed.disposition(), Disposition::Surface);
    assert_eq!(ErrorKind::ZoneInvalid.disposition(), Disposition::Surface);
    assert_eq!(ErrorKind::VideoReadFailed.disposition(), Disposition::CountAsEmptyRead);
    assert_eq!(ErrorKind::DetectorFailed.disposition(), Disposition::SkipFrame);
    assert_eq!(ErrorKind::TrackerFailed.disposition(), Disposition::SkipFrame);
    assert_eq!(ErrorKind::PublisherFailed.disposition(), Disposition::LogAndContinue);
    assert_eq!(ErrorKind::LockPoisoned.disposition(), Disposition::Fatal);
}

#[test]
fn video_errors_have_their_texts() {
    assert_eq!(AppVideoError { typ: 1 }.message(), "Can't open video");
    assert_eq!(AppVideoError { typ: 2 }.message(), "Can't make probe for video");
    assert_eq!(AppVideoError { typ: 3 }.message(), "Undefined application video error");
    assert_eq!(AppVideoError { typ: -1 }.message(), "Undefined application video error");
}

#[test]
fn mjpeg_needs_the_rest_service() {
    assert_eq!(mjpeg_enabled(true, Some(true)), true);
    assert_eq!(mjpeg_enabled(false, Some(true)), false);
    assert_eq!(mjpeg_enabled(true, Some(false)), false);
    assert_eq!(mjpeg_enabled(true, None), false);
}

#[test]
fn exit_keys() {
    assert!(is_exit_key(27));
    assert!(is_exit_key(115));
    assert!(is_exit_key(83));
    assert!(!is_exit_key(-1));
    assert!(!is_exit_key(13));
}

#[test]
fn replies() {
    assert_eq!(SucccessResponse::ok().message, "ok");
    assert_eq!(
        ErrorResponse::save_failed("disk full").error_text,
        "Can't save TOML due the error: disk full"
    );
}

fn lane() -> RoadLanesSettings {
    RoadLanesSettings {
        color_rgb: [10, 20, 30],
        geometry: vec![[0, 0], [5, 0], [5, 5], [0, 5]],
        geometry_wgs84: vec![
            GeoPoint { lon_bits: 1, lat_bits: 2 },
            GeoPoint { lon_bits: 3, lat_bits: 4 },
            GeoPoint { lon_bits: 5, lat_bits: 6 },
            GeoPoint { lon_bits: 7, lat_bits: 8 },
        ],
        lane_direction: 1,
        lane_number: 3,
    }
}

#[test]
fn a_lane_becomes_a_zone_and_back() {
    let zone = lane().convert_to_convex_polygon();
    assert_eq!(
        zone.pixel_coordinates,
        vec![Point::new(0, 0), Point::new(5, 0), Point::new(5, 5), Point::new(0, 5)]
    );
    assert_eq!(zone.color, Color { blue: 30, green: 20, red: 10 });
    assert_eq!(zone.spatial_coordinates, lane().geometry_wgs84);
    assert_eq!(zone.road_lane_direction, 1);
    assert_eq!(zone.road_lane_num, 3);
    assert_eq!(zone.validate(), Ok(()));
    assert!(zone.contains_point(5, 1));

    let back = zone.to_road_lane();
    assert_eq!(back.color_rgb, [10, 20, 30]);
    assert_eq!(back.geometry, lane().geometry);
    assert_eq!(back.geometry_wgs84, lane().geometry_wgs84);
    assert_eq!(back.lane_direction, 1);
    assert_eq!(back.lane_number, 3);
}

#[test]
fn zones_as_geojson() {
    assert_eq!(PolygonsGeoJSON::new().typ, "FeatureCollection");
    let mut store = ConvexPolygons::starting_at(String::new(), 0);
    let zone = lane().convert_to_convex_polygon();
    let id = zone.get_id();
    store.insert_polygon(zone).unwrap();
    let collection = store.to_geojson();
    assert_eq!(collection.typ, "FeatureCollection");
    assert_eq!(collection.features.len(), 1);
    let feature = &collection.features[0];
    assert_eq!(feature.typ, "Feature");
    assert_eq!(feature.id, id);
    assert_eq!(feature.properties.road_lane_num, 3);
    assert_eq!(feature.properties.road_lane_direction, 1);
    assert_eq!(feature.properties.coordinates, lane().geometry);
    assert_eq!(feature.geometry.geometry_type, "Polygon");
    assert_eq!(feature.geometry.coordinates, vec![lane().geometry_wgs84]);

    let lanes = store.road_lanes();
    assert_eq!(lanes.len(), 1);
    assert_eq!(lanes[0].color_rgb, [10, 20, 30]);
    assert_eq!(lanes[0].geometry, lane().geometry);
}
