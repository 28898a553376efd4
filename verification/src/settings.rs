//! A zone as the configuration describes it, and the conversion between the
//! two.

use vstd::prelude::*;
use crate::geometry::Point;
use crate::store::ConvexPolygons;
use crate::zone::{Color, ConvexPolygon, GeoPoint, ZoneView};

verus! {

/// One road lane of the configuration.
#[derive(Debug)]
pub struct RoadLanesSettings {
    /// The colour, in the order red, green, blue.
    pub color_rgb: [i16; 3],
    /// The polygon in pixels, each vertex as `[x, y]`.
    pub geometry: Vec<[i32; 2]>,
    /// The polygon in world coordinates.
    pub geometry_wgs84: Vec<GeoPoint>,
    pub lane_direction: u8,
    pub lane_number: u16,
}

/// The vertices that the pairs `[x, y]` stand for.
pub open spec fn points_of(pairs: Seq<[i32; 2]>) -> Seq<Point> {
    Seq::new(pairs.len(), |i: int| Point { x: pairs[i]@[0], y: pairs[i]@[1] })
}

/// Whether the lane describes the zone: the same polygon, the same lane
/// labels, and the same colour with its parts in the opposite order.
pub open spec fn lane_describes(lane: RoadLanesSettings, zone: ZoneView) -> bool {
    &&& points_of(lane.geometry@) == zone.pixel_coordinates
    &&& lane.geometry_wgs84@ == zone.spatial_coordinates
    &&& lane.color_rgb@[0] == zone.color.red
    &&& lane.color_rgb@[1] == zone.color.green
    &&& lane.color_rgb@[2] == zone.color.blue
    &&& lane.lane_direction == zone.road_lane_direction
    &&& lane.lane_number == zone.road_lane_num
}

impl RoadLanesSettings {
    /// The zone that the lane describes, with a fresh identifier and empty
    /// counters.
    pub fn convert_to_convex_polygon(&self) -> (zone: ConvexPolygon)
        ensures
            lane_describes(*self, zone@),
            zone@ == (ZoneView {
                pixel_coordinates: zone@.pixel_coordinates,
                spatial_coordinates: zone@.spatial_coordinates,
                color: zone@.color,
                road_lane_num: zone@.road_lane_num,
                road_lane_direction: zone@.road_lane_direction,
                ..ZoneView::blank(zone@.id, zone@.pixel_coordinates)
            }),
    {
        let n = self.geometry.len();
        let mut points: Vec<Point> = Vec::new();
        let mut i: usize = 0;
        while i < n
            invariant
                0 <= i <= n,
                n == self.geometry.len(),
                points@.len() == i,
                forall|j: int|
                    0 <= j < i ==> #[trigger] points@[j] == (Point {
                        x: self.geometry@[j]@[0],
                        y: self.geometry@[j]@[1],
                    }),
            decreases n - i,
        {
            let pair = &self.geometry[i];
            points.push(Point::new(pair[0], pair[1]));
            i += 1;
        }
        assert(points@ =~= points_of(self.geometry@));
        let mut zone = ConvexPolygon::default_from(points);
        let mut world: Vec<GeoPoint> = Vec::new();
        let m = self.geometry_wgs84.len();
        let mut k: usize = 0;
        while k < m
            invariant
                0 <= k <= m,
                m == self.geometry_wgs84.len(),
                world@ == self.geometry_wgs84@.take(k as int),
            decreases m - k,
        {
            world.push(self.geometry_wgs84[k]);
            assert(world@ =~= self.geometry_wgs84@.take(k + 1));
            k += 1;
        }
        assert(self.geometry_wgs84@.take(m as int) =~= self.geometry_wgs84@);
        zone.spatial_coordinates = world;
        zone.color = Color {
            blue: self.color_rgb[2],
            green: self.color_rgb[1],
            red: self.color_rgb[0],
        };
        zone.road_lane_direction = self.lane_direction;
        zone.road_lane_num = self.lane_number;
        zone
    }
}

impl ConvexPolygon {
    /// The lane that describes the zone.
    pub fn to_road_lane(&self) -> (lane: RoadLanesSettings)
        ensures
            lane_describes(lane, self@),
    {
        let n = self.pixel_coordinates.len();
        let mut geometry: Vec<[i32; 2]> = Vec::new();
        let mut i: usize = 0;
        while i < n
            invariant
                0 <= i <= n,
                n == self.pixel_coordinates.len(),
                geometry@.len() == i,
                forall|j: int|
                    0 <= j < i ==> (#[trigger] geometry@[j])@[0] == self.pixel_coordinates@[j].x
                        && geometry@[j]@[1] == self.pixel_coordinates@[j].y,
            decreases n - i,
        {
            let pt = self.pixel_coordinates[i];
            geometry.push([pt.x, pt.y]);
            i += 1;
        }
        assert(points_of(geometry@) =~= self.pixel_coordinates@);
        let m = self.spatial_coordinates.len();
        let mut world: Vec<GeoPoint> = Vec::new();
        let mut k: usize = 0;
        while k < m
            invariant
                0 <= k <= m,
                m == self.spatial_coordinates.len(),
                world@ == self.spatial_coordinates@.take(k as int),
            decreases m - k,
        {
            world.push(self.spatial_coordinates[k]);
            assert(world@ =~= self.spatial_coordinates@.take(k + 1));
            k += 1;
        }
        assert(self.spatial_coordinates@.take(m as int) =~= self.spatial_coordinates@);
        RoadLanesSettings {
            color_rgb: [self.color.red, self.color.green, self.color.blue],
            geometry: geometry,
            geometry_wgs84: world,
            lane_direction: self.road_lane_direction,
            lane_number: self.road_lane_num,
        }
    }
}

impl ConvexPolygons {
    /// The lanes that describe the zones of the store, in its order: what is
    /// written back into the configuration.
    pub fn road_lanes(&self) -> (lanes: Vec<RoadLanesSettings>)
        ensures
            lanes@.len() == self@.zones.len(),
            forall|i: int|
                0 <= i < lanes@.len() ==> lane_describes(#[trigger] lanes@[i], self@.zones[i]),
    {
        let n = self.zones.len();
        let mut lanes: Vec<RoadLanesSettings> = Vec::new();
        let mut i: usize = 0;
        while i < n
            invariant
                0 <= i <= n,
                n == self.zones.len(),
                lanes@.len() == i,
                forall|j: int|
                    0 <= j < i ==> lane_describes(#[trigger] lanes@[j], self.zones@[j]@),
            decreases n - i,
        {
            let lane = self.zones[i].to_road_lane();
            lanes.push(lane);
            i += 1;
        }
        lanes
    }
}

} // verus!
