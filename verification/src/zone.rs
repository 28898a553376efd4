//! A detection zone: a polygon in pixel space with its lane labels, the
//! objects registered in it during the running period, and its counters.
//!
//! Contracts are stated over [`ZoneView`], the mathematical value of a zone.

use std::collections::HashMap;
use vstd::prelude::*;
use crate::geometry::{
    contains, has_three_distinct, polygon_contains, three_distinct_vertices, Point,
};
use crate::outside::fresh_id;

verus! {

/// Identifier of a zone.
pub type PolygonID = u128;

/// Identifier of a tracked object.
pub type BlobID = u128;

/// A colour, in the order blue, green, red.
#[derive(Clone, Copy, Debug, PartialEq, Eq, Structural)]
pub struct Color {
    pub blue: i16,
    pub green: i16,
    pub red: i16,
}

/// A world coordinate. Each field is the IEEE 754 binary64 bit pattern of the
/// angle in degrees: the zone stores and returns it and never computes with
/// it.
#[derive(Clone, Copy, Debug, PartialEq, Eq, Structural)]
pub struct GeoPoint {
    pub lon_bits: u64,
    pub lat_bits: u64,
}

/// Why a zone was rejected.
#[derive(Clone, Copy, Debug, PartialEq, Eq, Structural)]
pub enum ZoneError {
    /// The polygon has fewer than three different vertices, or the pixel and
    /// the world coordinates differ in number.
    ZoneInvalid,
}

/// What a zone keeps of an object that was seen in it during the running
/// period.
#[derive(Debug)]
pub struct RegisteredObject {
    pub classname: String,
    pub first_seen: u64,
}

pub ghost struct RegisteredObjectView {
    pub classname: Seq<char>,
    pub first_seen: u64,
}

impl View for RegisteredObject {
    type V = RegisteredObjectView;

    open spec fn view(&self) -> RegisteredObjectView {
        RegisteredObjectView { classname: self.classname@, first_seen: self.first_seen }
    }
}

/// How many objects of one class a zone has counted.
#[derive(Debug)]
pub struct ClassCounter {
    pub classname: String,
    pub sum_intensity: u32,
}

pub ghost struct ClassCounterView {
    pub classname: Seq<char>,
    pub sum_intensity: nat,
}

impl View for ClassCounter {
    type V = ClassCounterView;

    open spec fn view(&self) -> ClassCounterView {
        ClassCounterView { classname: self.classname@, sum_intensity: self.sum_intensity as nat }
    }
}

impl ClassCounter {
    pub fn duplicate(&self) -> (copy: ClassCounter)
        ensures
            copy@ == self@,
    {
        ClassCounter { classname: self.classname.clone(), sum_intensity: self.sum_intensity }
    }
}

/// What a zone holds right now.
#[derive(Clone, Copy, Debug, PartialEq, Eq, Structural)]
pub struct RealTimeStatistics {
    /// When the zone's live counters were last reset, in seconds since the
    /// Unix epoch.
    pub last_time: u64,
    /// How many live objects are inside.
    pub occupancy: u16,
}

/// The counters of the last completed period, as they are published.
#[derive(Debug)]
pub struct PeriodStatistics {
    /// Start of the period, in milliseconds since the Unix epoch.
    pub period_start: i64,
    /// End of the period, in milliseconds since the Unix epoch.
    pub period_end: i64,
    pub vehicles_data: Vec<ClassCounter>,
}

#[derive(Debug)]
pub struct ConvexPolygon {
    pub id: PolygonID,
    pub pixel_coordinates: Vec<Point>,
    pub spatial_coordinates: Vec<GeoPoint>,
    pub color: Color,
    pub road_lane_num: u16,
    pub road_lane_direction: u8,
    pub target_classes: Vec<String>,
    /// The objects seen in the running period, by identifier.
    pub registered_objects: HashMap<BlobID, RegisteredObject>,
    pub current_statistics: RealTimeStatistics,
    /// The counters of the running period.
    pub period_counters: Vec<ClassCounter>,
    pub statistics: PeriodStatistics,
}

/// The mathematical value of a zone.
pub ghost struct ZoneView {
    pub id: PolygonID,
    pub pixel_coordinates: Seq<Point>,
    pub spatial_coordinates: Seq<GeoPoint>,
    pub color: Color,
    pub road_lane_num: u16,
    pub road_lane_direction: u8,
    pub target_classes: Seq<Seq<char>>,
    pub registered_objects: Map<BlobID, RegisteredObjectView>,
    pub last_time: u64,
    pub occupancy: nat,
    pub period_counters: Seq<ClassCounterView>,
    pub period_start: i64,
    pub period_end: i64,
    pub vehicles_data: Seq<ClassCounterView>,
}

pub open spec fn labels_view(labels: Seq<String>) -> Seq<Seq<char>> {
    Seq::new(labels.len(), |i: int| labels[i]@)
}

pub open spec fn objects_view(objects: Map<BlobID, RegisteredObject>) -> Map<
    BlobID,
    RegisteredObjectView,
> {
    objects.map_values(|o: RegisteredObject| o@)
}

pub open spec fn counters_view(counters: Seq<ClassCounter>) -> Seq<ClassCounterView> {
    Seq::new(counters.len(), |i: int| counters[i]@)
}

impl View for ConvexPolygon {
    type V = ZoneView;

    open spec fn view(&self) -> ZoneView {
        ZoneView {
            id: self.id,
            pixel_coordinates: self.pixel_coordinates@,
            spatial_coordinates: self.spatial_coordinates@,
            color: self.color,
            road_lane_num: self.road_lane_num,
            road_lane_direction: self.road_lane_direction,
            target_classes: labels_view(self.target_classes@),
            registered_objects: objects_view(self.registered_objects@),
            last_time: self.current_statistics.last_time,
            occupancy: self.current_statistics.occupancy as nat,
            period_counters: counters_view(self.period_counters@),
            period_start: self.statistics.period_start,
            period_end: self.statistics.period_end,
            vehicles_data: counters_view(self.statistics.vehicles_data@),
        }
    }
}

/// Whether an object with this identifier is among the registered ones.
pub open spec fn is_registered(objects: Map<BlobID, RegisteredObjectView>, id: BlobID) -> bool {
    objects.contains_key(id)
}

/// The place of the first counter of this class, and the number of counters
/// when there is none.
pub open spec fn class_position(counters: Seq<ClassCounterView>, classname: Seq<char>) -> int
    decreases counters.len(),
{
    if counters.len() == 0 {
        0
    } else {
        let before = class_position(counters.drop_last(), classname);
        if before < counters.len() - 1 {
            before
        } else if counters.last().classname == classname {
            counters.len() - 1
        } else {
            counters.len() as int
        }
    }
}

/// What the counters say of this class: the count of its first counter, and
/// zero when it has none.
pub open spec fn intensity_of(counters: Seq<ClassCounterView>, classname: Seq<char>) -> nat {
    let at = class_position(counters, classname);
    if at < counters.len() {
        counters[at].sum_intensity
    } else {
        0
    }
}

/// The counters after one more object of this class: its first counter is
/// one higher, or a counter that stands at one is added for it at the end.
pub open spec fn counted(counters: Seq<ClassCounterView>, classname: Seq<char>) -> Seq<
    ClassCounterView,
> {
    let at = class_position(counters, classname);
    if at < counters.len() {
        counters.update(
            at,
            ClassCounterView { classname: classname, sum_intensity: counters[at].sum_intensity + 1 },
        )
    } else {
        counters.push(ClassCounterView { classname: classname, sum_intensity: 1 })
    }
}

/// The first counter of a class stands before every other counter of it.
pub proof fn lemma_class_position(counters: Seq<ClassCounterView>, classname: Seq<char>)
    ensures
        0 <= class_position(counters, classname) <= counters.len(),
        forall|j: int|
            0 <= j < class_position(counters, classname) ==> (#[trigger] counters[j]).classname
                != classname,
        class_position(counters, classname) < counters.len() ==> counters[class_position(
            counters,
            classname,
        )].classname == classname,
    decreases counters.len(),
{
    if counters.len() > 0 {
        let shorter = counters.drop_last();
        lemma_class_position(shorter, classname);
        assert forall|j: int| 0 <= j < class_position(counters, classname) implies (
        #[trigger] counters[j]).classname != classname by {
            if j < shorter.len() {
                assert(shorter[j] == counters[j]);
            }
        }
        let before = class_position(shorter, classname);
        if before < shorter.len() {
            assert(shorter[before] == counters[before]);
        }
    }
}

impl ZoneView {
    /// A zone that has only an identifier and a polygon: its colour is white,
    /// and everything else is empty or zero.
    pub open spec fn blank(id: PolygonID, points: Seq<Point>) -> ZoneView {
        ZoneView {
            id: id,
            pixel_coordinates: points,
            spatial_coordinates: Seq::empty(),
            color: Color { blue: 255, green: 255, red: 255 },
            road_lane_num: 0,
            road_lane_direction: 0,
            target_classes: Seq::empty(),
            registered_objects: Map::empty(),
            last_time: 0,
            occupancy: 0,
            period_counters: Seq::empty(),
            period_start: 0,
            period_end: 0,
            vehicles_data: Seq::empty(),
        }
    }

    /// The zone is usable: its polygon has three different vertices, and as
    /// many world coordinates as pixel coordinates.
    pub open spec fn valid(self) -> bool {
        &&& has_three_distinct(self.pixel_coordinates)
        &&& self.pixel_coordinates.len() == self.spatial_coordinates.len()
    }

    /// Whether the zone contains the point.
    pub open spec fn holds(self, p: Point) -> bool {
        contains(self.pixel_coordinates, p.x as int, p.y as int)
    }

    /// The zone at the start of a frame: nothing counted inside yet.
    pub open spec fn ticked(self, now: u64) -> ZoneView {
        ZoneView { last_time: now, occupancy: 0, ..self }
    }

    /// The zone after an object was seen in it. An object that is registered
    /// changes nothing. Another one is registered as first seen `now`, and
    /// counted under its class.
    pub open spec fn with_object(self, id: BlobID, classname: Seq<char>, now: u64) -> ZoneView {
        if is_registered(self.registered_objects, id) {
            self
        } else {
            ZoneView {
                registered_objects: self.registered_objects.insert(
                    id,
                    RegisteredObjectView { classname: classname, first_seen: now },
                ),
                period_counters: counted(self.period_counters, classname),
                ..self
            }
        }
    }

    /// The zone after the running period was closed: its counters are
    /// published under the given bounds, and counting starts anew.
    pub open spec fn rolled_over(self, new_start: i64, new_end: i64) -> ZoneView {
        ZoneView {
            registered_objects: Map::empty(),
            period_counters: Seq::empty(),
            period_start: new_start,
            period_end: new_end,
            vehicles_data: self.period_counters,
            ..self
        }
    }
}

/// The place of the first counter of this class, and the number of counters
/// when there is none.
pub fn find_class(counters: &Vec<ClassCounter>, classname: &String) -> (at: usize)
    ensures
        at == class_position(counters_view(counters@), classname@),
        at <= counters.len(),
{
    let n = counters.len();
    let ghost views = counters_view(counters@);
    proof {
        lemma_class_position(views, classname@);
    }
    let mut i: usize = 0;
    while i < n
        invariant
            0 <= i <= n,
            n == counters.len(),
            views == counters_view(counters@),
            forall|j: int| 0 <= j < i ==> (#[trigger] views[j]).classname != classname@,
            i <= class_position(views, classname@) <= n,
            forall|j: int|
                0 <= j < class_position(views, classname@) ==> (#[trigger] views[j]).classname
                    != classname@,
            class_position(views, classname@) < n ==> views[class_position(
                views,
                classname@,
            )].classname == classname@,
        decreases n - i,
    {
        if counters[i].classname == *classname {
            assert(views[i as int].classname == classname@);
            return i;
        }
        assert(views[i as int].classname != classname@);
        i += 1;
    }
    n
}

impl ConvexPolygon {
    /// A zone around the given vertices, with a fresh identifier, the colour
    /// white, no lane labels, no world coordinates and empty counters.
    pub fn default_from(points: Vec<Point>) -> (zone: ConvexPolygon)
        ensures
            zone@ == ZoneView::blank(zone@.id, points@),
    {
        ConvexPolygon::with_id(fresh_id(), points)
    }

    /// A zone around the given vertices under the given identifier, with the
    /// colour white, no lane labels, no world coordinates and empty counters.
    pub fn with_id(id: PolygonID, points: Vec<Point>) -> (zone: ConvexPolygon)
        ensures
            zone@ == ZoneView::blank(id, points@),
    {
        let zone = ConvexPolygon {
            id: id,
            pixel_coordinates: points,
            spatial_coordinates: Vec::new(),
            color: Color { blue: 255, green: 255, red: 255 },
            road_lane_num: 0,
            road_lane_direction: 0,
            target_classes: Vec::new(),
            registered_objects: HashMap::new(),
            current_statistics: RealTimeStatistics { last_time: 0, occupancy: 0 },
            period_counters: Vec::new(),
            statistics: PeriodStatistics { period_start: 0, period_end: 0, vehicles_data: Vec::new() },
        };
        assert(zone@.spatial_coordinates =~= Seq::empty());
        assert(zone@.target_classes =~= Seq::empty());
        assert(zone@.registered_objects =~= Map::empty());
        assert(zone@.period_counters =~= Seq::empty());
        assert(zone@.vehicles_data =~= Seq::empty());
        zone
    }

    /// Sets the classes of objects that the zone is meant for.
    pub fn set_target_classes(&mut self, classes: Vec<String>)
        ensures
            final(self)@ == (ZoneView { target_classes: labels_view(classes@), ..old(self)@ }),
    {
        self.target_classes = classes;
    }

    /// Whether the class is one of those that the zone is meant for.
    pub fn targets_class(&self, classname: &String) -> (found: bool)
        ensures
            found == self@.target_classes.contains(classname@),
    {
        let n = self.target_classes.len();
        let ghost labels = self@.target_classes;
        let mut i: usize = 0;
        while i < n
            invariant
                0 <= i <= n,
                n == self.target_classes.len(),
                labels == labels_view(self.target_classes@),
                forall|j: int| 0 <= j < i ==> #[trigger] labels[j] != classname@,
            decreases n - i,
        {
            if self.target_classes[i] == *classname {
                assert(labels[i as int] == classname@);
                return true;
            }
            i += 1;
        }
        false
    }

    pub fn get_id(&self) -> (id: PolygonID)
        ensures
            id == self@.id,
    {
        self.id
    }

    pub fn set_id(&mut self, id: PolygonID)
        ensures
            final(self)@ == (ZoneView { id: id, ..old(self)@ }),
    {
        self.id = id;
    }

    /// Accepts the zone when its polygon has three different vertices and it
    /// has as many world coordinates as pixel coordinates.
    pub fn validate(&self) -> (checked: Result<(), ZoneError>)
        ensures
            checked is Ok <==> self@.valid(),
            checked is Err ==> checked == Err::<(), ZoneError>(ZoneError::ZoneInvalid),
    {
        if self.pixel_coordinates.len() == self.spatial_coordinates.len()
            && three_distinct_vertices(&self.pixel_coordinates) {
            Ok(())
        } else {
            Err(ZoneError::ZoneInvalid)
        }
    }

    /// Whether the zone contains the point `(x, y)`. A point on the boundary
    /// is inside; a zone with fewer than three different vertices contains
    /// nothing.
    pub fn contains_point(&self, x: i32, y: i32) -> (inside: bool)
        ensures
            inside == contains(self@.pixel_coordinates, x as int, y as int),
    {
        polygon_contains(&self.pixel_coordinates, x, y)
    }

    pub fn contains_cv_point(&self, pt: &Point) -> (inside: bool)
        ensures
            inside == self@.holds(*pt),
    {
        self.contains_point(pt.x, pt.y)
    }

    /// Whether the object whose centre followed `track` has entered the zone
    /// with its last step. An object seen for the first time has entered the
    /// zone when it is inside.
    pub fn object_entered(&self, track: Vec<Point>) -> (entered: bool)
        requires
            track@.len() >= 1,
        ensures
            entered == has_entered(self@.pixel_coordinates, track@),
    {
        let n = track.len();
        if n < 2 {
            return self.contains_cv_point(&track[0]);
        }
        let last_position = track[n - 1];
        let second_last_position = track[n - 2];
        !self.contains_cv_point(&second_last_position) && self.contains_cv_point(&last_position)
    }

    /// Whether the object whose centre followed `track` has left the zone
    /// with its last step. An object seen for the first time has not.
    pub fn object_left(&self, track: Vec<Point>) -> (left: bool)
        ensures
            left == has_left(self@.pixel_coordinates, track@),
    {
        let n = track.len();
        if n < 2 {
            return false;
        }
        let last_position = track[n - 1];
        let second_last_position = track[n - 2];
        self.contains_cv_point(&second_last_position) && !self.contains_cv_point(&last_position)
    }

    /// Whether the object is registered in the zone.
    pub fn blob_registered(&self, blob_id: &BlobID) -> (found: bool)
        ensures
            found == is_registered(self@.registered_objects, *blob_id),
    {
        self.registered_objects.contains_key(blob_id)
    }

    /// Registers the object, unless it is registered already.
    pub fn register_blob(&mut self, blob_id: BlobID, classname: String, first_seen: u64)
        ensures
            final(self)@ == if is_registered(old(self)@.registered_objects, blob_id) {
                old(self)@
            } else {
                ZoneView {
                    registered_objects: old(self)@.registered_objects.insert(
                        blob_id,
                        RegisteredObjectView { classname: classname@, first_seen: first_seen },
                    ),
                    ..old(self)@
                }
            },
    {
        if !self.blob_registered(&blob_id) {
            let ghost before = self@.registered_objects;
            let entry = RegisteredObject { classname: classname, first_seen: first_seen };
            self.registered_objects.insert(blob_id, entry);
            assert(self@.registered_objects =~= before.insert(blob_id, entry@));
        }
    }

    /// Removes the object from the registered ones.
    pub fn deregister_blob(&mut self, blob_id: &BlobID)
        ensures
            final(self)@ == (ZoneView {
                registered_objects: old(self)@.registered_objects.remove(*blob_id),
                ..old(self)@
            }),
    {
        let ghost before = self@.registered_objects;
        self.registered_objects.remove(blob_id);
        assert(self@.registered_objects =~= before.remove(*blob_id));
    }

    /// Counts one more object of the class in the running period.
    pub fn increment_intensity(&mut self, classname: &String)
        requires
            intensity_of(old(self)@.period_counters, classname@) < u32::MAX,
        ensures
            final(self)@ == (ZoneView {
                period_counters: counted(old(self)@.period_counters, classname@),
                ..old(self)@
            }),
    {
        let ghost before = self@.period_counters;
        proof {
            lemma_class_position(before, classname@);
        }
        let at = find_class(&self.period_counters, classname);
        if at < self.period_counters.len() {
            let bumped = ClassCounter {
                classname: classname.clone(),
                sum_intensity: self.period_counters[at].sum_intensity + 1,
            };
            self.period_counters[at] = bumped;
            assert(self@.period_counters =~= counted(before, classname@));
        } else {
            let first = ClassCounter { classname: classname.clone(), sum_intensity: 1 };
            self.period_counters.push(first);
            assert(self@.period_counters =~= counted(before, classname@));
        }
    }

    /// Notes that the object was seen in the zone at `now`. An object seen
    /// for the first time in the running period is registered and counted
    /// under its class, and the result is `true`. For any other object nothing
    /// changes, and the result is `false`.
    pub fn register_or_update_object(&mut self, object_id: BlobID, classname: String, now: u64) -> (newly: bool)
        requires
            !is_registered(old(self)@.registered_objects, object_id) ==> intensity_of(
                old(self)@.period_counters,
                classname@,
            ) < u32::MAX,
        ensures
            newly == !is_registered(old(self)@.registered_objects, object_id),
            final(self)@ == old(self)@.with_object(object_id, classname@, now),
    {
        if self.blob_registered(&object_id) {
            false
        } else {
            self.increment_intensity(&classname);
            self.register_blob(object_id, classname, now);
            true
        }
    }

    /// Starts a frame: the zone's clock is set to `now`, and no object is
    /// counted inside yet.
    pub fn tick_live_counters(&mut self, now: u64)
        ensures
            final(self)@ == old(self)@.ticked(now),
    {
        self.current_statistics.last_time = now;
        self.current_statistics.occupancy = 0;
    }

    /// Closes the running period: its counters are published under the
    /// bounds given, the registered objects are forgotten, and the counters
    /// of the new period are empty.
    pub fn roll_over(&mut self, new_start: i64, new_end: i64)
        requires
            new_start <= new_end,
        ensures
            final(self)@ == old(self)@.rolled_over(new_start, new_end),
    {
        let mut closed: Vec<ClassCounter> = Vec::new();
        std::mem::swap(&mut closed, &mut self.period_counters);
        self.statistics = PeriodStatistics {
            period_start: new_start,
            period_end: new_end,
            vehicles_data: closed,
        };
        self.registered_objects = HashMap::new();
        assert(self@.registered_objects =~= Map::empty());
        assert(self@.period_counters =~= Seq::empty());
    }
}

/// The last step of the track leads from outside the polygon into it; a
/// track of one point has entered when that point is inside.
pub open spec fn has_entered(poly: Seq<Point>, track: Seq<Point>) -> bool {
    if track.len() >= 2 {
        !contains(poly, track[track.len() - 2].x as int, track[track.len() - 2].y as int)
            && contains(poly, track[track.len() - 1].x as int, track[track.len() - 1].y as int)
    } else {
        track.len() == 1 && contains(poly, track[0].x as int, track[0].y as int)
    }
}

/// The last step of the track leads from inside the polygon out of it.
pub open spec fn has_left(poly: Seq<Point>, track: Seq<Point>) -> bool {
    track.len() >= 2 && contains(
        poly,
        track[track.len() - 2].x as int,
        track[track.len() - 2].y as int,
    ) && !contains(poly, track[track.len() - 1].x as int, track[track.len() - 1].y as int)
}

/// Of a track of two points or more, exactly one holds: it has entered the
/// polygon, it has left it, or its last two points are both inside or both
/// outside.
pub proof fn lemma_entered_left_or_neither(poly: Seq<Point>, track: Seq<Point>)
    requires
        track.len() >= 2,
    ensures
        !(has_entered(poly, track) && has_left(poly, track)),
        (!has_entered(poly, track) && !has_left(poly, track)) <==> (contains(
            poly,
            track[track.len() - 2].x as int,
            track[track.len() - 2].y as int,
        ) == contains(poly, track[track.len() - 1].x as int, track[track.len() - 1].y as int)),
{
}

} // verus!
