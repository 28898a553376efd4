//! What one frame does to the zones: each live object is counted in every
//! zone that contains its last position, and registered there.

use vstd::prelude::*;
use crate::geometry::{contains, Point};
use crate::period::{next_bounds, next_bounds_fit, PeriodTimer};
use crate::store::{ConvexPolygons, StoreView};
use crate::zone::{
    class_position, counted, counters_view, intensity_of, is_registered, lemma_class_position,
    BlobID, ClassCounter, ClassCounterView, ConvexPolygon, PolygonID, ZoneView,
};

verus! {

/// What the tracker says of one object after a frame.
#[derive(Debug)]
pub struct TrackedObject {
    pub id: BlobID,
    pub classname: String,
    /// For how many frames in a row the object was not detected.
    pub no_match_times: usize,
    /// The last position of the object's centre.
    pub last_point: Point,
}

pub ghost struct TrackedObjectView {
    pub id: BlobID,
    pub classname: Seq<char>,
    pub no_match_times: usize,
    pub last_point: Point,
}

impl View for TrackedObject {
    type V = TrackedObjectView;

    open spec fn view(&self) -> TrackedObjectView {
        TrackedObjectView {
            id: self.id,
            classname: self.classname@,
            no_match_times: self.no_match_times,
            last_point: self.last_point,
        }
    }
}

impl TrackedObject {
    /// Whether the object is live: it has missed at most one frame.
    pub fn is_live(&self) -> (live: bool)
        ensures
            live == is_live(self@),
    {
        self.no_match_times <= 1
    }
}

pub open spec fn tracked_view(objects: Seq<TrackedObject>) -> Seq<TrackedObjectView> {
    Seq::new(objects.len(), |i: int| objects[i]@)
}

/// An object is live while it has missed at most one frame.
pub open spec fn is_live(object: TrackedObjectView) -> bool {
    object.no_match_times <= 1
}

/// A live object that was found inside a zone.
#[derive(Clone, Copy, Debug, PartialEq, Eq, Structural)]
pub struct ZoneHit {
    pub zone_id: PolygonID,
    pub object_id: BlobID,
    /// Whether the zone saw the object for the first time in its running
    /// period.
    pub newly_registered: bool,
}

/// How many of the first `k` objects are live and inside the polygon.
pub open spec fn live_inside(poly: Seq<Point>, objects: Seq<TrackedObjectView>, k: int) -> nat
    decreases k,
{
    if k <= 0 {
        0
    } else {
        live_inside(poly, objects, k - 1) + if is_live(objects[k - 1]) && contains(
            poly,
            objects[k - 1].last_point.x as int,
            objects[k - 1].last_point.y as int,
        ) {
            1nat
        } else {
            0nat
        }
    }
}

/// No counter stands above `limit`.
pub open spec fn counters_below(counters: Seq<ClassCounterView>, limit: int) -> bool {
    forall|i: int| 0 <= i < counters.len() ==> (#[trigger] counters[i]).sum_intensity <= limit
}

impl ZoneView {
    /// Whether the zone counts the object: it is live, and its last position
    /// is inside.
    pub open spec fn sees(self, object: TrackedObjectView) -> bool {
        is_live(object) && self.holds(object.last_point)
    }

    /// The zone after it was shown one object at `now`.
    pub open spec fn observed(self, object: TrackedObjectView, now: u64) -> ZoneView {
        if self.sees(object) {
            ZoneView {
                occupancy: self.occupancy + 1,
                ..self.with_object(object.id, object.classname, now)
            }
        } else {
            self
        }
    }

    /// The zone after it was shown the first `k` objects, in their order.
    pub open spec fn observed_upto(self, objects: Seq<TrackedObjectView>, k: int, now: u64)
        -> ZoneView
        decreases k,
    {
        if k <= 0 {
            self
        } else {
            self.observed_upto(objects, k - 1, now).observed(objects[k - 1], now)
        }
    }

    /// The objects among the first `k` that the zone counts, each with the
    /// word whether the zone had it registered when it was shown.
    pub open spec fn hits_upto(self, objects: Seq<TrackedObjectView>, k: int, now: u64) -> Seq<
        ZoneHit,
    >
        decreases k,
    {
        if k <= 0 {
            Seq::empty()
        } else if self.sees(objects[k - 1]) {
            self.hits_upto(objects, k - 1, now).push(
                ZoneHit {
                    zone_id: self.id,
                    object_id: objects[k - 1].id,
                    newly_registered: !is_registered(
                        self.observed_upto(objects, k - 1, now).registered_objects,
                        objects[k - 1].id,
                    ),
                },
            )
        } else {
            self.hits_upto(objects, k - 1, now)
        }
    }

    /// The zone after a frame at `now` with these objects.
    pub open spec fn after_frame(self, objects: Seq<TrackedObjectView>, now: u64) -> ZoneView {
        self.ticked(now).observed_upto(objects, objects.len() as int, now)
    }

    /// The zone's hits in a frame at `now` with these objects.
    pub open spec fn frame_hits(self, objects: Seq<TrackedObjectView>, now: u64) -> Seq<ZoneHit> {
        self.ticked(now).hits_upto(objects, objects.len() as int, now)
    }
}

/// Showing objects to a zone changes neither its identifier nor its polygon,
/// and raises its occupancy by the number of live objects inside.
pub proof fn lemma_observed_upto(zone: ZoneView, objects: Seq<TrackedObjectView>, k: int, now: u64)
    requires
        0 <= k,
    ensures
        zone.observed_upto(objects, k, now).id == zone.id,
        zone.observed_upto(objects, k, now).pixel_coordinates == zone.pixel_coordinates,
        zone.observed_upto(objects, k, now).spatial_coordinates == zone.spatial_coordinates,
        zone.observed_upto(objects, k, now).last_time == zone.last_time,
        zone.observed_upto(objects, k, now).occupancy == zone.occupancy + live_inside(
            zone.pixel_coordinates,
            objects,
            k,
        ),
        live_inside(zone.pixel_coordinates, objects, k) <= k,
    decreases k,
{
    if k > 0 {
        lemma_observed_upto(zone, objects, k - 1, now);
    }
}

/// After a frame, the occupancy of a zone is the number of live objects
/// whose last position is inside it.
pub proof fn lemma_occupancy_counts_live_objects(
    zone: ZoneView,
    objects: Seq<TrackedObjectView>,
    now: u64,
)
    ensures
        zone.after_frame(objects, now).occupancy == live_inside(
            zone.pixel_coordinates,
            objects,
            objects.len() as int,
        ),
{
    lemma_observed_upto(zone.ticked(now), objects, objects.len() as int, now);
}

/// One more object raises no counter by more than one.
pub proof fn lemma_counted_below(counters: Seq<ClassCounterView>, classname: Seq<char>, limit: int)
    requires
        counters_below(counters, limit),
        limit >= 0,
    ensures
        counters_below(counted(counters, classname), limit + 1),
        intensity_of(counters, classname) <= limit,
{
    lemma_class_position(counters, classname);
    let after = counted(counters, classname);
    let at = class_position(counters, classname);
    assert forall|i: int| 0 <= i < after.len() implies (#[trigger] after[i]).sum_intensity <= limit
        + 1 by {
        if i < counters.len() {
            assert(counters[i].sum_intensity <= limit);
        }
    }
    if at < counters.len() {
        assert(counters[at].sum_intensity <= limit);
    }
}

impl ConvexPolygon {
    /// Shows the zone the objects of a frame taken at `now`. The zone's live
    /// counters are reset; then each live object whose last position is
    /// inside is counted as an occupant and noted as seen. The hits are
    /// appended to `hits` in the order of the objects.
    pub fn observe_frame(&mut self, objects: &Vec<TrackedObject>, now: u64, hits: &mut Vec<ZoneHit>)
        requires
            objects.len() <= u16::MAX,
            counters_below(old(self)@.period_counters, u32::MAX - objects.len()),
        ensures
            final(self)@ == old(self)@.after_frame(tracked_view(objects@), now),
            final(hits)@ == old(hits)@ + old(self)@.frame_hits(tracked_view(objects@), now),
    {
        let n = objects.len();
        let ghost views = tracked_view(objects@);
        let ghost start = self@.ticked(now);
        let ghost hits_before = hits@;
        self.tick_live_counters(now);
        assert(hits@ =~= hits_before + start.hits_upto(views, 0, now));
        let mut j: usize = 0;
        while j < n
            invariant
                0 <= j <= n,
                n == objects.len(),
                n <= u16::MAX,
                views == tracked_view(objects@),
                self@ == start.observed_upto(views, j as int, now),
                start.occupancy == 0,
                hits@ == hits_before + start.hits_upto(views, j as int, now),
                counters_below(self@.period_counters, u32::MAX - n + j),
            decreases n - j,
        {
            proof {
                lemma_observed_upto(start, views, j as int, now);
            }
            let ghost state = self@;
            let ghost hits_so_far = hits@;
            assert(views[j as int] == objects@[j as int]@);
            let object = &objects[j];
            if object.no_match_times <= 1 && self.contains_cv_point(&object.last_point) {
                proof {
                    lemma_counted_below(
                        state.period_counters,
                        object@.classname,
                        u32::MAX - n + j,
                    );
                }
                self.current_statistics.occupancy = self.current_statistics.occupancy + 1;
                let newly = self.register_or_update_object(object.id, object.classname.clone(), now);
                hits.push(ZoneHit { zone_id: self.id, object_id: object.id, newly_registered: newly });
                assert(self@ == state.observed(views[j as int], now));
                assert(hits@ =~= hits_before + start.hits_upto(views, j + 1, now));
            } else {
                assert(self@ == state.observed(views[j as int], now));
            }
            j += 1;
        }
    }
}

/// The hits of the first `k` zones in a frame, zone after zone.
pub open spec fn store_hits(
    zones: Seq<ZoneView>,
    objects: Seq<TrackedObjectView>,
    now: u64,
    k: int,
) -> Seq<ZoneHit>
    decreases k,
{
    if k <= 0 {
        Seq::empty()
    } else {
        store_hits(zones, objects, now, k - 1) + zones[k - 1].frame_hits(objects, now)
    }
}

impl StoreView {
    /// The store after a frame at `now` with these objects.
    pub open spec fn after_frame(self, objects: Seq<TrackedObjectView>, now: u64) -> StoreView {
        StoreView {
            zones: Seq::new(self.zones.len(), |i: int| self.zones[i].after_frame(objects, now)),
            ..self
        }
    }

    /// No counter of a running period is so high that `n` more objects could
    /// not be counted.
    pub open spec fn has_room_for(self, n: int) -> bool {
        forall|i: int|
            0 <= i < self.zones.len() ==> counters_below(
                (#[trigger] self.zones[i]).period_counters,
                u32::MAX - n,
            )
    }
}

/// Whether no counter stands above `limit`.
pub fn counters_stay_below(counters: &Vec<ClassCounter>, limit: u32) -> (below: bool)
    ensures
        below == counters_below(counters_view(counters@), limit as int),
{
    let n = counters.len();
    let ghost views = counters_view(counters@);
    let mut i: usize = 0;
    while i < n
        invariant
            0 <= i <= n,
            n == counters.len(),
            views == counters_view(counters@),
            forall|j: int| 0 <= j < i ==> (#[trigger] views[j]).sum_intensity <= limit,
        decreases n - i,
    {
        if counters[i].sum_intensity > limit {
            assert(views[i as int].sum_intensity > limit);
            return false;
        }
        i += 1;
    }
    true
}

impl ConvexPolygons {
    /// Whether the counters of every zone can take `n` more objects.
    pub fn can_take(&self, n: usize) -> (room: bool)
        ensures
            room == (n <= u32::MAX && self@.has_room_for(n as int)),
    {
        if n > u32::MAX as usize {
            return false;
        }
        let limit: u32 = u32::MAX - n as u32;
        let m = self.zones.len();
        let mut i: usize = 0;
        while i < m
            invariant
                0 <= i <= m,
                m == self.zones.len(),
                limit == u32::MAX - n,
                forall|j: int|
                    0 <= j < i ==> counters_below(
                        (#[trigger] self@.zones[j]).period_counters,
                        u32::MAX - n,
                    ),
            decreases m - i,
        {
            if !counters_stay_below(&self.zones[i].period_counters, limit) {
                assert(!counters_below(self@.zones[i as int].period_counters, u32::MAX - n));
                return false;
            }
            assert(self@.zones[i as int].period_counters == counters_view(
                self.zones@[i as int].period_counters@,
            ));
            i += 1;
        }
        true
    }

    /// Takes the objects of a frame taken at `now` through every zone, and
    /// returns the hits, zone after zone in the order of the store.
    pub fn process_frame(&mut self, objects: &Vec<TrackedObject>, now: u64) -> (hits: Vec<ZoneHit>)
        requires
            objects.len() <= u16::MAX,
            old(self)@.has_room_for(objects.len() as int),
        ensures
            final(self)@ == old(self)@.after_frame(tracked_view(objects@), now),
            hits@ == store_hits(
                old(self)@.zones,
                tracked_view(objects@),
                now,
                old(self)@.zones.len() as int,
            ),
            old(self)@.wf() ==> final(self)@.wf(),
    {
        let n = self.zones.len();
        let ghost before = self@;
        let ghost views = tracked_view(objects@);
        let mut hits: Vec<ZoneHit> = Vec::new();
        let mut i: usize = 0;
        while i < n
            invariant
                0 <= i <= n,
                n == self.zones.len(),
                n == before.zones.len(),
                objects.len() <= u16::MAX,
                views == tracked_view(objects@),
                before.has_room_for(objects.len() as int),
                self@.equipment_id == before.equipment_id,
                self@.period_start == before.period_start,
                self@.period_end == before.period_end,
                self@.frame_version == before.frame_version,
                hits@ == store_hits(before.zones, views, now, i as int),
                forall|j: int|
                    0 <= j < i ==> (#[trigger] self.zones@[j])@ == before.zones[j].after_frame(
                        views,
                        now,
                    ),
                forall|j: int| i <= j < n ==> (#[trigger] self.zones@[j])@ == before.zones[j],
            decreases n - i,
        {
            assert(counters_below(before.zones[i as int].period_counters, u32::MAX - objects.len()));
            self.zones[i].observe_frame(objects, now, &mut hits);
            i += 1;
        }
        assert(self@.zones =~= before.after_frame(views, now).zones);
        proof {
            if before.wf() {
                assert forall|j: int| 0 <= j < n implies (#[trigger] self@.zones[j]).valid() && self@.zones[j].id == before.zones[j].id by {
                    lemma_observed_upto(before.zones[j].ticked(now), views, views.len() as int, now);
                    assert(before.zones[j].valid());
                }
            }
        }
        hits
    }
}

/// The number of the next frame: one more, and zero after the largest number.
pub open spec fn next_version(version: u64) -> u64 {
    if version == u64::MAX {
        0
    } else {
        (version + 1) as u64
    }
}

/// What a frame did to the store.
#[derive(Debug)]
pub struct FrameOutcome {
    /// The live objects found inside zones, zone after zone.
    pub hits: Vec<ZoneHit>,
    /// The bounds of the period that the frame closed, if it closed one.
    pub closed_period: Option<(i64, i64)>,
}

impl StoreView {
    /// The store as a frame taken at `stream_millis` finds it: with its
    /// running period closed, if the frame crosses the end of that period.
    pub open spec fn opened_for(self, timer: PeriodTimer, stream_millis: u64, now_millis: i64)
        -> StoreView {
        if timer.due(stream_millis) {
            self.advanced(now_millis, timer.reset_milliseconds as i64)
        } else {
            self
        }
    }

    /// The store after a whole frame. A frame that crosses the end of the
    /// running period closes it first; then the objects of the frame are
    /// taken through the zones, so that they count in the period that the
    /// frame belongs to.
    pub open spec fn after_whole_frame(
        self,
        timer: PeriodTimer,
        objects: Seq<TrackedObjectView>,
        now_seconds: u64,
        stream_millis: u64,
        now_millis: i64,
    ) -> StoreView {
        let opened = self.opened_for(timer, stream_millis, now_millis);
        StoreView {
            frame_version: next_version(self.frame_version),
            ..opened.after_frame(objects, now_seconds)
        }
    }
}

impl StoreView {
    /// Whether a frame with `n` objects can be handled: the occupancy and the
    /// counters have room for them, and the bounds of the period that the
    /// frame closes, if it closes one, are moments that an `i64` can hold.
    pub open spec fn can_handle(
        self,
        timer: PeriodTimer,
        n: int,
        stream_millis: u64,
        now_millis: i64,
    ) -> bool {
        &&& n <= u16::MAX
        &&& timer.reset_milliseconds <= i64::MAX
        &&& !timer.due(stream_millis) ==> self.has_room_for(n)
        &&& timer.due(stream_millis) ==> {
            &&& i64::MIN <= next_bounds(
                self.period_start,
                self.period_end,
                now_millis,
                timer.reset_milliseconds as i64,
            ).0
            &&& next_bounds(
                self.period_start,
                self.period_end,
                now_millis,
                timer.reset_milliseconds as i64,
            ).1 <= i64::MAX
        }
    }
}

impl ConvexPolygons {
    /// Whether `handle_frame` can take a frame with `n` objects.
    pub fn can_handle(&self, timer: &PeriodTimer, n: usize, stream_millis: u64, now_millis: i64)
        -> (room: bool)
        ensures
            room == self@.can_handle(*timer, n as int, stream_millis, now_millis),
    {
        if n > u16::MAX as usize || timer.reset_milliseconds > i64::MAX as u64 {
            return false;
        }
        if timer.is_due(stream_millis) {
            next_bounds_fit(
                self.period_start,
                self.period_end,
                now_millis,
                timer.reset_milliseconds as i64,
            )
        } else {
            self.can_take(n)
        }
    }

    /// Handles one frame. The frame was taken at `stream_millis` milliseconds
    /// of stream time; the clock shows `now_seconds` seconds and `now_millis`
    /// milliseconds since the Unix epoch. If the frame crosses the end of the
    /// running period, that period is closed and published first, with what
    /// the frames before this one have counted. Then the objects of the frame
    /// are taken through the zones. At the end the frame is counted.
    pub fn handle_frame(
        &mut self,
        timer: &mut PeriodTimer,
        objects: &Vec<TrackedObject>,
        now_seconds: u64,
        stream_millis: u64,
        now_millis: i64,
    ) -> (outcome: FrameOutcome)
        requires
            old(self)@.can_handle(*old(timer), objects.len() as int, stream_millis, now_millis),
        ensures
            *final(timer) == old(timer).ticked(stream_millis),
            final(self)@ == old(self)@.after_whole_frame(
                *old(timer),
                tracked_view(objects@),
                now_seconds,
                stream_millis,
                now_millis,
            ),
            outcome.hits@ == store_hits(
                old(self)@.opened_for(*old(timer), stream_millis, now_millis).zones,
                tracked_view(objects@),
                now_seconds,
                old(self)@.zones.len() as int,
            ),
            outcome.closed_period is Some <==> old(timer).due(stream_millis),
            outcome.closed_period matches Some(bounds) ==> (bounds.0 as int, bounds.1 as int)
                == next_bounds(
                old(self)@.period_start,
                old(self)@.period_end,
                now_millis,
                old(timer).reset_milliseconds as i64,
            ),
            old(self)@.wf() ==> final(self)@.wf(),
    {
        let reset: i64 = timer.reset_milliseconds as i64;
        let closed_period = if timer.tick(stream_millis) {
            let bounds = self.advance_period(now_millis, reset);
            assert(self@.has_room_for(objects.len() as int)) by {
                assert forall|i: int| 0 <= i < self@.zones.len() implies counters_below(
                    (#[trigger] self@.zones[i]).period_counters,
                    u32::MAX - objects.len(),
                ) by {
                    assert(self@.zones[i].period_counters.len() == 0);
                }
            }
            Some(bounds)
        } else {
            None
        };
        let hits = self.process_frame(objects, now_seconds);
        self.frame_version = if self.frame_version == u64::MAX {
            0
        } else {
            self.frame_version + 1
        };
        FrameOutcome { hits, closed_period }
    }
}

/// Closing the period changes the occupancy of no zone: where it was the
/// number of live objects inside, it still is. It leaves no object registered
/// and no running counter, and what is published of a zone afterwards are the
/// counters that the zone had when the period was closed, under the bounds of
/// the closed period.
pub proof fn lemma_rotation_publishes_counters(
    store: StoreView,
    objects: Seq<TrackedObjectView>,
    new_start: i64,
    new_end: i64,
    i: int,
)
    requires
        0 <= i < store.zones.len(),
    ensures
        store.rotated(new_start, new_end).zones.len() == store.zones.len(),
        store.rotated(new_start, new_end).zones[i].occupancy == store.zones[i].occupancy,
        store.zones[i].occupancy == live_inside(
            store.zones[i].pixel_coordinates,
            objects,
            objects.len() as int,
        ) ==> store.rotated(new_start, new_end).zones[i].occupancy == live_inside(
            store.rotated(new_start, new_end).zones[i].pixel_coordinates,
            objects,
            objects.len() as int,
        ),
        store.rotated(new_start, new_end).zones[i].registered_objects.len() == 0,
        store.rotated(new_start, new_end).zones[i].period_counters.len() == 0,
        store.rotated(new_start, new_end).zones[i].vehicles_data == store.zones[i].period_counters,
        store.rotated(new_start, new_end).zones[i].period_start == new_start,
        store.rotated(new_start, new_end).zones[i].period_end == new_end,
{
}

/// A frame that crosses the end of the running period: the period is
/// published with the counters that the frames before this one have left, and
/// the zone goes through the frame with nothing registered and nothing
/// counted. A frame that does not cross it leaves what is published alone.
pub proof fn lemma_frame_at_the_end_of_a_period(
    store: StoreView,
    timer: PeriodTimer,
    objects: Seq<TrackedObjectView>,
    now_seconds: u64,
    stream_millis: u64,
    now_millis: i64,
    i: int,
)
    requires
        0 <= i < store.zones.len(),
    ensures
        ({
            let after = store.after_whole_frame(
                timer,
                objects,
                now_seconds,
                stream_millis,
                now_millis,
            );
            let bounds = next_bounds(
                store.period_start,
                store.period_end,
                now_millis,
                timer.reset_milliseconds as i64,
            );
            &&& after.zones.len() == store.zones.len()
            &&& timer.due(stream_millis) ==> after.zones[i] == store.zones[i].rolled_over(
                bounds.0 as i64,
                bounds.1 as i64,
            ).after_frame(objects, now_seconds)
            &&& timer.due(stream_millis) ==> after.zones[i].vehicles_data
                == store.zones[i].period_counters
            &&& !timer.due(stream_millis) ==> after.zones[i] == store.zones[i].after_frame(
                objects,
                now_seconds,
            )
            &&& !timer.due(stream_millis) ==> after.zones[i].vehicles_data
                == store.zones[i].vehicles_data
            &&& after.zones[i].occupancy == live_inside(
                store.zones[i].pixel_coordinates,
                objects,
                objects.len() as int,
            )
        }),
{
    let bounds = next_bounds(
        store.period_start,
        store.period_end,
        now_millis,
        timer.reset_milliseconds as i64,
    );
    let closed = store.zones[i].rolled_over(bounds.0 as i64, bounds.1 as i64);
    lemma_observed_upto(closed.ticked(now_seconds), objects, objects.len() as int, now_seconds);
    lemma_observed_upto(
        store.zones[i].ticked(now_seconds),
        objects,
        objects.len() as int,
        now_seconds,
    );
    lemma_observed_keeps_published(
        closed.ticked(now_seconds),
        objects,
        objects.len() as int,
        now_seconds,
    );
    lemma_observed_keeps_published(
        store.zones[i].ticked(now_seconds),
        objects,
        objects.len() as int,
        now_seconds,
    );
}

/// Showing objects to a zone leaves what is published of it alone.
pub proof fn lemma_observed_keeps_published(
    zone: ZoneView,
    objects: Seq<TrackedObjectView>,
    k: int,
    now: u64,
)
    requires
        0 <= k,
    ensures
        zone.observed_upto(objects, k, now).vehicles_data == zone.vehicles_data,
        zone.observed_upto(objects, k, now).period_start == zone.period_start,
        zone.observed_upto(objects, k, now).period_end == zone.period_end,
    decreases k,
{
    if k > 0 {
        lemma_observed_keeps_published(zone, objects, k - 1, now);
    }
}

} // verus!
