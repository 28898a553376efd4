//! What the counters of a zone mean: the occupancy counts each live object
//! inside once, and the counters of the running period count each object that
//! was registered in it once.

use vstd::prelude::*;
use crate::geometry::{contains, Point};
use crate::pipeline::{
    is_live, lemma_observed_keeps_published, lemma_observed_upto,
    lemma_occupancy_counts_live_objects, live_inside, TrackedObjectView,
};
use crate::zone::{
    class_position, counted, is_registered, lemma_class_position, BlobID, ClassCounterView,
    PolygonID, RegisteredObjectView, ZoneView,
};

verus! {

/// The sum of the counters.
pub open spec fn total_intensity(counters: Seq<ClassCounterView>) -> nat
    decreases counters.len(),
{
    if counters.len() == 0 {
        0
    } else {
        total_intensity(counters.drop_last()) + counters.last().sum_intensity
    }
}

/// No two of the tracked objects have the same identifier.
pub open spec fn distinct_tracks(objects: Seq<TrackedObjectView>) -> bool {
    forall|i: int, j: int|
        0 <= i < j < objects.len() ==> (#[trigger] objects[i]).id != (#[trigger] objects[j]).id
}

/// No two of the counters are for the same class.
pub open spec fn distinct_classes(counters: Seq<ClassCounterView>) -> bool {
    forall|i: int, j: int|
        0 <= i < j < counters.len() ==> (#[trigger] counters[i]).classname != (
        #[trigger] counters[j]).classname
}

impl ZoneView {
    /// The counters of the running period add up to the number of objects
    /// registered in it, and a class has one counter only, in the running
    /// period and in what is published.
    pub open spec fn tallied(self) -> bool {
        &&& self.registered_objects.dom().finite()
        &&& total_intensity(self.period_counters) == self.registered_objects.len()
        &&& distinct_classes(self.period_counters)
        &&& distinct_classes(self.vehicles_data)
    }
}

/// The identifiers of the live objects among the first `k` whose last
/// position is inside the polygon.
pub open spec fn ids_inside(poly: Seq<Point>, objects: Seq<TrackedObjectView>, k: int) -> Set<
    BlobID,
> {
    Set::new(
        |id: BlobID|
            exists|j: int|
                0 <= j < k && j < objects.len() && (#[trigger] objects[j]).id == id && is_live(
                    objects[j],
                ) && contains(
                    poly,
                    objects[j].last_point.x as int,
                    objects[j].last_point.y as int,
                ),
    )
}

proof fn lemma_total_after_update(counters: Seq<ClassCounterView>, at: int, entry: ClassCounterView)
    requires
        0 <= at < counters.len(),
    ensures
        total_intensity(counters.update(at, entry)) + counters[at].sum_intensity
            == total_intensity(counters) + entry.sum_intensity,
    decreases counters.len(),
{
    let after = counters.update(at, entry);
    if at == counters.len() - 1 {
        assert(after.drop_last() =~= counters.drop_last());
    } else {
        lemma_total_after_update(counters.drop_last(), at, entry);
        assert(after.drop_last() =~= counters.drop_last().update(at, entry));
    }
}

/// One more object raises the sum of the counters by one.
pub proof fn lemma_counted_total(counters: Seq<ClassCounterView>, classname: Seq<char>)
    ensures
        total_intensity(counted(counters, classname)) == total_intensity(counters) + 1,
{
    lemma_class_position(counters, classname);
    let at = class_position(counters, classname);
    if at < counters.len() {
        lemma_total_after_update(
            counters,
            at,
            ClassCounterView { classname: classname, sum_intensity: counters[at].sum_intensity + 1 },
        );
    } else {
        let entry = ClassCounterView { classname: classname, sum_intensity: 1 };
        assert(counters.push(entry).drop_last() =~= counters);
    }
}

/// One more object leaves each class with one counter.
pub proof fn lemma_counted_keeps_classes_apart(
    counters: Seq<ClassCounterView>,
    classname: Seq<char>,
)
    requires
        distinct_classes(counters),
    ensures
        distinct_classes(counted(counters, classname)),
{
    lemma_class_position(counters, classname);
    let at = class_position(counters, classname);
    let after = counted(counters, classname);
    assert forall|i: int, j: int| 0 <= i < j < after.len() implies (#[trigger] after[i]).classname
        != (#[trigger] after[j]).classname by {
        if at < counters.len() {
            assert(counters[at].classname == classname);
            assert(after[i].classname == counters[i].classname);
            assert(after[j].classname == counters[j].classname);
        } else {
            if j < counters.len() {
                assert(after[i] == counters[i] && after[j] == counters[j]);
            } else {
                assert(after[i] == counters[i]);
                assert(counters[i].classname != classname);
            }
        }
    }
}

/// A zone that was just made counts nothing and has nothing registered.
pub proof fn lemma_blank_is_tallied(id: PolygonID, points: Seq<Point>)
    ensures
        ZoneView::blank(id, points).tallied(),
{
}

/// Closing the period leaves the counters and the registered objects in
/// step: both are empty. What is published are the counters of the closed
/// period, one for a class.
pub proof fn lemma_rolled_over_is_tallied(zone: ZoneView, new_start: i64, new_end: i64)
    requires
        distinct_classes(zone.period_counters),
    ensures
        zone.rolled_over(new_start, new_end).tallied(),
        zone.rolled_over(new_start, new_end).vehicles_data == zone.period_counters,
{
}

/// Seeing an object keeps the counters and the registered objects in step.
pub proof fn lemma_with_object_keeps_tally(
    zone: ZoneView,
    id: BlobID,
    classname: Seq<char>,
    now: u64,
)
    requires
        zone.tallied(),
    ensures
        zone.with_object(id, classname, now).tallied(),
{
    if !is_registered(zone.registered_objects, id) {
        lemma_counted_total(zone.period_counters, classname);
        lemma_counted_keeps_classes_apart(zone.period_counters, classname);
        let entry = RegisteredObjectView { classname: classname, first_seen: now };
        assert(zone.registered_objects.insert(id, entry).dom()
            =~= zone.registered_objects.dom().insert(id));
    }
}

/// The intensity of a period counts objects, not sightings: through a frame
/// the counters of the running period keep adding up to the number of
/// different objects registered in it.
pub proof fn lemma_frame_keeps_tally(zone: ZoneView, objects: Seq<TrackedObjectView>, now: u64)
    requires
        zone.tallied(),
    ensures
        zone.after_frame(objects, now).tallied(),
{
    lemma_observed_keeps_tally(zone.ticked(now), objects, objects.len() as int, now);
}

proof fn lemma_observed_keeps_tally(
    zone: ZoneView,
    objects: Seq<TrackedObjectView>,
    k: int,
    now: u64,
)
    requires
        zone.tallied(),
    ensures
        zone.observed_upto(objects, k, now).tallied(),
    decreases k,
{
    if k > 0 {
        lemma_observed_keeps_tally(zone, objects, k - 1, now);
        let before = zone.observed_upto(objects, k - 1, now);
        lemma_with_object_keeps_tally(before, objects[k - 1].id, objects[k - 1].classname, now);
    }
}

proof fn lemma_ids_inside(poly: Seq<Point>, objects: Seq<TrackedObjectView>, k: int)
    requires
        0 <= k <= objects.len(),
        distinct_tracks(objects),
    ensures
        ids_inside(poly, objects, k).finite(),
        ids_inside(poly, objects, k).len() == live_inside(poly, objects, k),
    decreases k,
{
    let now = ids_inside(poly, objects, k);
    if k == 0 {
        assert(now =~= Set::empty());
    } else {
        lemma_ids_inside(poly, objects, k - 1);
        let before = ids_inside(poly, objects, k - 1);
        let last = objects[k - 1];
        if is_live(last) && contains(poly, last.last_point.x as int, last.last_point.y as int) {
            assert(!before.contains(last.id)) by {
                if before.contains(last.id) {
                    let j = choose|j: int|
                        0 <= j < k - 1 && j < objects.len() && (#[trigger] objects[j]).id
                            == last.id && is_live(objects[j]) && contains(
                            poly,
                            objects[j].last_point.x as int,
                            objects[j].last_point.y as int,
                        );
                    assert(objects[j].id != objects[k - 1].id);
                }
            }
            assert(now =~= before.insert(last.id)) by {
                assert forall|id: BlobID| now.contains(id) implies before.insert(last.id).contains(
                    id,
                ) by {
                    let j = choose|j: int|
                        0 <= j < k && j < objects.len() && (#[trigger] objects[j]).id == id
                            && is_live(objects[j]) && contains(
                            poly,
                            objects[j].last_point.x as int,
                            objects[j].last_point.y as int,
                        );
                    if j < k - 1 {
                        assert(before.contains(id));
                    }
                }
                assert forall|id: BlobID| before.insert(last.id).contains(id) implies now.contains(
                    id,
                ) by {
                    if id == last.id {
                        assert(objects[k - 1].id == id);
                    } else {
                        let j = choose|j: int|
                            0 <= j < k - 1 && j < objects.len() && (#[trigger] objects[j]).id == id
                                && is_live(objects[j]) && contains(
                                poly,
                                objects[j].last_point.x as int,
                                objects[j].last_point.y as int,
                            );
                        assert(objects[j].id == id);
                    }
                }
            }
        } else {
            assert(now =~= before) by {
                assert forall|id: BlobID| now.contains(id) implies before.contains(id) by {
                    let j = choose|j: int|
                        0 <= j < k && j < objects.len() && (#[trigger] objects[j]).id == id
                            && is_live(objects[j]) && contains(
                            poly,
                            objects[j].last_point.x as int,
                            objects[j].last_point.y as int,
                        );
                    assert(j < k - 1);
                }
                assert forall|id: BlobID| before.contains(id) implies now.contains(id) by {
                    let j = choose|j: int|
                        0 <= j < k - 1 && j < objects.len() && (#[trigger] objects[j]).id == id
                            && is_live(objects[j]) && contains(
                            poly,
                            objects[j].last_point.x as int,
                            objects[j].last_point.y as int,
                        );
                    assert(objects[j].id == id);
                }
            }
        }
    }
}

/// After a frame whose objects all differ, the occupancy of a zone is the
/// number of different live objects whose last position is inside it.
pub proof fn lemma_occupancy_counts_distinct_objects(
    zone: ZoneView,
    objects: Seq<TrackedObjectView>,
    now: u64,
)
    requires
        distinct_tracks(objects),
    ensures
        ids_inside(zone.pixel_coordinates, objects, objects.len() as int).finite(),
        zone.after_frame(objects, now).occupancy == ids_inside(
            zone.pixel_coordinates,
            objects,
            objects.len() as int,
        ).len(),
{
    lemma_ids_inside(zone.pixel_coordinates, objects, objects.len() as int);
    lemma_occupancy_counts_live_objects(zone, objects, now);
}

/// The objects registered in a zone after a frame are those that were
/// registered before it and the live objects of the frame whose last position
/// is inside.
pub proof fn lemma_frame_registers_objects_inside(
    zone: ZoneView,
    objects: Seq<TrackedObjectView>,
    k: int,
    now: u64,
)
    requires
        0 <= k <= objects.len(),
    ensures
        zone.observed_upto(objects, k, now).registered_objects.dom()
            == zone.registered_objects.dom().union(
            ids_inside(zone.pixel_coordinates, objects, k),
        ),
    decreases k,
{
    let poly = zone.pixel_coordinates;
    let after = zone.observed_upto(objects, k, now).registered_objects.dom();
    let wanted = zone.registered_objects.dom().union(ids_inside(poly, objects, k));
    if k == 0 {
        assert(ids_inside(poly, objects, 0) =~= Set::empty());
        assert(after =~= wanted);
    } else {
        lemma_frame_registers_objects_inside(zone, objects, k - 1, now);
        lemma_observed_upto(zone, objects, k - 1, now);
        let before = zone.observed_upto(objects, k - 1, now);
        let last = objects[k - 1];
        let earlier = ids_inside(poly, objects, k - 1);
        let all = ids_inside(poly, objects, k);
        assert forall|id: BlobID| earlier.contains(id) implies all.contains(id) by {
            let j = choose|j: int|
                0 <= j < k - 1 && j < objects.len() && (#[trigger] objects[j]).id == id
                    && is_live(objects[j]) && contains(
                    poly,
                    objects[j].last_point.x as int,
                    objects[j].last_point.y as int,
                );
            assert(objects[j].id == id);
        }
        assert forall|id: BlobID| all.contains(id) implies earlier.contains(id) || (before.sees(
            last,
        ) && id == last.id) by {
            let j = choose|j: int|
                0 <= j < k && j < objects.len() && (#[trigger] objects[j]).id == id && is_live(
                    objects[j],
                ) && contains(
                    poly,
                    objects[j].last_point.x as int,
                    objects[j].last_point.y as int,
                );
            if j < k - 1 {
                assert(earlier.contains(id));
            }
        }
        if before.sees(last) {
            assert(objects[k - 1].id == last.id);
            assert(all.contains(last.id));
        }
        assert(after =~= wanted);
    }
}

/// After the period was closed, an object that is still inside a zone is
/// counted again, and once: after the first frame of the new period the
/// registered objects are the live objects inside, the counters add up to
/// their number, and what was published at the closing stays as it was. Where
/// the objects of the frame all differ, that number is the occupancy.
pub proof fn lemma_rotation_then_frame(
    zone: ZoneView,
    objects: Seq<TrackedObjectView>,
    now: u64,
    new_start: i64,
    new_end: i64,
)
    requires
        distinct_classes(zone.period_counters),
    ensures
        ({
            let after = zone.rolled_over(new_start, new_end).after_frame(objects, now);
            let inside = ids_inside(zone.pixel_coordinates, objects, objects.len() as int);
            &&& after.registered_objects.dom() == inside
            &&& total_intensity(after.period_counters) == inside.len()
            &&& after.tallied()
            &&& after.occupancy == live_inside(
                zone.pixel_coordinates,
                objects,
                objects.len() as int,
            )
            &&& distinct_tracks(objects) ==> after.occupancy == inside.len()
            &&& after.vehicles_data == zone.period_counters
            &&& after.period_start == new_start
            &&& after.period_end == new_end
        }),
{
    let closed = zone.rolled_over(new_start, new_end);
    let n = objects.len() as int;
    lemma_rolled_over_is_tallied(zone, new_start, new_end);
    lemma_frame_keeps_tally(closed, objects, now);
    lemma_frame_registers_objects_inside(closed.ticked(now), objects, n, now);
    lemma_observed_upto(closed.ticked(now), objects, n, now);
    lemma_observed_keeps_published(closed.ticked(now), objects, n, now);
    assert(Set::<BlobID>::empty().union(ids_inside(zone.pixel_coordinates, objects, n))
        =~= ids_inside(zone.pixel_coordinates, objects, n));
    if distinct_tracks(objects) {
        lemma_ids_inside(zone.pixel_coordinates, objects, n);
    }
}

} // verus!
