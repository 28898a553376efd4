//! What the store hands to its readers: the statistics of the last completed
//! period, the live occupancy, the zones as GeoJSON, and the replies to a
//! request to save the configuration.

use vstd::prelude::*;
use vstd::string::StringExecFns;
use crate::settings::points_of;
use crate::store::{ConvexPolygons, StoreView};
use crate::zone::{counters_view, ClassCounter, ConvexPolygon, GeoPoint, PolygonID, ZoneView};

verus! {

#[derive(Debug)]
pub struct ErrorResponse {
    pub error_text: String,
}

#[derive(Debug)]
pub struct SucccessResponse<'a> {
    pub message: &'a str,
}

/// The live counters of one zone.
#[derive(Clone, Copy, Debug, PartialEq, Eq, Structural)]
pub struct ZoneRealtime {
    pub lane_number: u16,
    pub lane_direction: u8,
    pub last_time: u64,
    pub occupancy: u16,
}

#[derive(Debug)]
pub struct AllZonesRealtimeStatistics {
    pub equipment_id: String,
    pub data: Vec<ZoneRealtime>,
}

/// The counters of one zone in its last completed period.
#[derive(Debug)]
pub struct ZoneStats {
    pub lane_number: u16,
    pub lane_direction: u8,
    pub period_start: i64,
    pub period_end: i64,
    pub statistics: Vec<ClassCounter>,
}

#[derive(Debug)]
pub struct AllZonesStats {
    pub equipment_id: String,
    pub data: Vec<ZoneStats>,
}

/// The polygon of a zone in world coordinates: one ring.
#[derive(Debug)]
pub struct GeoPolygon {
    pub geometry_type: String,
    pub coordinates: Vec<Vec<GeoPoint>>,
}

#[derive(Debug)]
pub struct PolygonFeaturePropertiesGeoJSON {
    pub road_lane_num: u16,
    pub road_lane_direction: u8,
    /// The polygon in pixels, each vertex as `[x, y]`.
    pub coordinates: Vec<[i32; 2]>,
}

#[derive(Debug)]
pub struct PolygonFeatureGeoJSON {
    pub typ: String,
    pub id: PolygonID,
    pub properties: PolygonFeaturePropertiesGeoJSON,
    pub geometry: GeoPolygon,
}

#[derive(Debug)]
pub struct PolygonsGeoJSON {
    pub typ: String,
    pub features: Vec<PolygonFeatureGeoJSON>,
}

/// The row reports the live counters of the zone.
pub open spec fn reports_realtime(row: ZoneRealtime, zone: ZoneView) -> bool {
    &&& row.lane_number == zone.road_lane_num
    &&& row.lane_direction == zone.road_lane_direction
    &&& row.last_time == zone.last_time
    &&& row.occupancy == zone.occupancy
}

/// The row reports the last completed period of the zone.
pub open spec fn reports_period(row: ZoneStats, zone: ZoneView) -> bool {
    &&& row.lane_number == zone.road_lane_num
    &&& row.lane_direction == zone.road_lane_direction
    &&& row.period_start == zone.period_start
    &&& row.period_end == zone.period_end
    &&& counters_view(row.statistics@) == zone.vehicles_data
}

/// The feature is the zone: its identifier, its lane labels, its polygon in
/// pixels, and its polygon in world coordinates as the one ring of a GeoJSON
/// polygon.
pub open spec fn is_feature_of(feature: PolygonFeatureGeoJSON, zone: ZoneView) -> bool {
    &&& feature.typ@ == "Feature"@
    &&& feature.id == zone.id
    &&& feature.properties.road_lane_num == zone.road_lane_num
    &&& feature.properties.road_lane_direction == zone.road_lane_direction
    &&& points_of(feature.properties.coordinates@) == zone.pixel_coordinates
    &&& feature.geometry.geometry_type@ == "Polygon"@
    &&& feature.geometry.coordinates@.len() == 1
    &&& feature.geometry.coordinates@[0]@ == zone.spatial_coordinates
}

/// What is reported of a zone after its period was closed are the counters
/// that the zone had in the closed period, under the bounds of that period.
pub proof fn lemma_report_after_rotation(
    store: StoreView,
    new_start: i64,
    new_end: i64,
    i: int,
    row: ZoneStats,
)
    requires
        0 <= i < store.zones.len(),
        reports_period(row, store.rotated(new_start, new_end).zones[i]),
    ensures
        counters_view(row.statistics@) == store.zones[i].period_counters,
        row.period_start == new_start,
        row.period_end == new_end,
        row.lane_number == store.zones[i].road_lane_num,
        row.lane_direction == store.zones[i].road_lane_direction,
{
}

impl SucccessResponse<'static> {
    /// The reply to a request that was carried out.
    pub fn ok() -> (reply: SucccessResponse<'static>)
        ensures
            reply.message@ == "ok"@,
    {
        SucccessResponse { message: "ok" }
    }
}

impl ErrorResponse {
    /// The reply to a request to save the configuration that failed for the
    /// given reason.
    pub fn save_failed(reason: &str) -> (reply: ErrorResponse)
        ensures
            reply.error_text@ == "Can't save TOML due the error: "@ + reason@,
    {
        let text = String::from_str("Can't save TOML due the error: ").concat(reason);
        ErrorResponse { error_text: text }
    }
}

impl PolygonsGeoJSON {
    /// A collection without features.
    pub fn new() -> (collection: PolygonsGeoJSON)
        ensures
            collection.typ@ == "FeatureCollection"@,
            collection.features@.len() == 0,
    {
        PolygonsGeoJSON { typ: String::from_str("FeatureCollection"), features: Vec::new() }
    }
}

impl ConvexPolygon {
    /// The zone as a GeoJSON feature.
    pub fn to_geojson(&self) -> (feature: PolygonFeatureGeoJSON)
        ensures
            is_feature_of(feature, self@),
    {
        let lane = self.to_road_lane();
        let mut rings: Vec<Vec<GeoPoint>> = Vec::new();
        rings.push(lane.geometry_wgs84);
        PolygonFeatureGeoJSON {
            typ: String::from_str("Feature"),
            id: self.get_id(),
            properties: PolygonFeaturePropertiesGeoJSON {
                road_lane_num: self.road_lane_num,
                road_lane_direction: self.road_lane_direction,
                coordinates: lane.geometry,
            },
            geometry: GeoPolygon { geometry_type: String::from_str("Polygon"), coordinates: rings },
        }
    }

    /// The live counters of the zone.
    pub fn realtime(&self) -> (row: ZoneRealtime)
        ensures
            reports_realtime(row, self@),
    {
        ZoneRealtime {
            lane_number: self.road_lane_num,
            lane_direction: self.road_lane_direction,
            last_time: self.current_statistics.last_time,
            occupancy: self.current_statistics.occupancy,
        }
    }

    /// The counters of the zone's last completed period.
    pub fn period_stats(&self) -> (row: ZoneStats)
        ensures
            reports_period(row, self@),
    {
        let n = self.statistics.vehicles_data.len();
        let mut statistics: Vec<ClassCounter> = Vec::new();
        let mut i: usize = 0;
        while i < n
            invariant
                0 <= i <= n,
                n == self.statistics.vehicles_data.len(),
                statistics@.len() == i,
                forall|j: int|
                    0 <= j < i ==> (#[trigger] statistics@[j])@ == self.statistics.vehicles_data@[j]@,
            decreases n - i,
        {
            let copy = self.statistics.vehicles_data[i].duplicate();
            statistics.push(copy);
            i += 1;
        }
        assert(counters_view(statistics@) =~= self@.vehicles_data);
        ZoneStats {
            lane_number: self.road_lane_num,
            lane_direction: self.road_lane_direction,
            period_start: self.statistics.period_start,
            period_end: self.statistics.period_end,
            statistics: statistics,
        }
    }
}

impl ConvexPolygons {
    /// The zones of the store as a GeoJSON feature collection, in the order
    /// of the store.
    pub fn to_geojson(&self) -> (collection: PolygonsGeoJSON)
        ensures
            collection.typ@ == "FeatureCollection"@,
            collection.features@.len() == self@.zones.len(),
            forall|i: int|
                0 <= i < collection.features@.len() ==> is_feature_of(
                    #[trigger] collection.features@[i],
                    self@.zones[i],
                ),
    {
        let mut ans = PolygonsGeoJSON::new();
        let n = self.zones.len();
        let mut i: usize = 0;
        while i < n
            invariant
                0 <= i <= n,
                n == self.zones.len(),
                ans.typ@ == "FeatureCollection"@,
                ans.features@.len() == i,
                forall|j: int|
                    0 <= j < i ==> is_feature_of(#[trigger] ans.features@[j], self.zones@[j]@),
            decreases n - i,
        {
            let geo_feature = self.zones[i].to_geojson();
            ans.features.push(geo_feature);
            i += 1;
        }
        ans
    }
}

/// The statistics of the last completed period of every zone, in the order
/// of the store.
pub fn all_zones_stats(store: &ConvexPolygons) -> (ans: AllZonesStats)
    ensures
        ans.equipment_id@ == store@.equipment_id,
        ans.data@.len() == store@.zones.len(),
        forall|i: int|
            0 <= i < ans.data@.len() ==> reports_period(#[trigger] ans.data@[i], store@.zones[i]),
{
    let mut ans = AllZonesStats { equipment_id: store.equipment_id.clone(), data: Vec::new() };
    let n = store.zones.len();
    let mut i: usize = 0;
    while i < n
        invariant
            0 <= i <= n,
            n == store.zones.len(),
            ans.equipment_id@ == store@.equipment_id,
            ans.data@.len() == i,
            forall|j: int| 0 <= j < i ==> reports_period(#[trigger] ans.data@[j], store.zones@[j]@),
        decreases n - i,
    {
        let stats = store.zones[i].period_stats();
        ans.data.push(stats);
        i += 1;
    }
    ans
}

/// The live counters of every zone, in the order of the store.
pub fn all_zones_occupancy(store: &ConvexPolygons) -> (ans: AllZonesRealtimeStatistics)
    ensures
        ans.equipment_id@ == store@.equipment_id,
        ans.data@.len() == store@.zones.len(),
        forall|i: int|
            0 <= i < ans.data@.len() ==> reports_realtime(#[trigger] ans.data@[i], store@.zones[i]),
{
    let mut ans = AllZonesRealtimeStatistics {
        equipment_id: store.equipment_id.clone(),
        data: Vec::new(),
    };
    let n = store.zones.len();
    let mut i: usize = 0;
    while i < n
        invariant
            0 <= i <= n,
            n == store.zones.len(),
            ans.equipment_id@ == store@.equipment_id,
            ans.data@.len() == i,
            forall|j: int|
                0 <= j < i ==> reports_realtime(#[trigger] ans.data@[j], store.zones@[j]@),
        decreases n - i,
    {
        let stats = store.zones[i].realtime();
        ans.data.push(stats);
        i += 1;
    }
    ans
}

} // verus!
