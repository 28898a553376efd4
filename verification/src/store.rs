//! The data store: the zones of one installation, by identifier, and the
//! bounds of the aggregation period.

use vstd::prelude::*;
use crate::outside::utc_now_millis;
use crate::zone::{ConvexPolygon, PolygonID, ZoneError, ZoneView};

verus! {

pub struct ConvexPolygons {
    pub equipment_id: String,
    /// The zones, in the order in which they were first inserted.
    pub zones: Vec<ConvexPolygon>,
    /// Start of the period, in milliseconds since the Unix epoch.
    pub period_start: i64,
    /// End of the period, in milliseconds since the Unix epoch.
    pub period_end: i64,
    /// How many frames were handled in full. A reader that finds the same
    /// number before and after it read has read the state between two frames.
    pub frame_version: u64,
}

/// The mathematical value of a data store.
pub ghost struct StoreView {
    pub equipment_id: Seq<char>,
    pub zones: Seq<ZoneView>,
    pub period_start: i64,
    pub period_end: i64,
    pub frame_version: u64,
}

pub open spec fn zones_view(zones: Seq<ConvexPolygon>) -> Seq<ZoneView> {
    Seq::new(zones.len(), |i: int| zones[i]@)
}

impl View for ConvexPolygons {
    type V = StoreView;

    open spec fn view(&self) -> StoreView {
        StoreView {
            equipment_id: self.equipment_id@,
            zones: zones_view(self.zones@),
            period_start: self.period_start,
            period_end: self.period_end,
            frame_version: self.frame_version,
        }
    }
}

/// The place of the zone with this identifier, and the number of zones when
/// there is none.
pub open spec fn zone_position(zones: Seq<ZoneView>, id: PolygonID) -> int
    decreases zones.len(),
{
    if zones.len() == 0 {
        0
    } else {
        let before = zone_position(zones.drop_last(), id);
        if before < zones.len() - 1 {
            before
        } else if zones.last().id == id {
            zones.len() - 1
        } else {
            zones.len() as int
        }
    }
}

/// The first zone with an identifier stands before every other zone with it.
pub proof fn lemma_zone_position(zones: Seq<ZoneView>, id: PolygonID)
    ensures
        0 <= zone_position(zones, id) <= zones.len(),
        forall|j: int| 0 <= j < zone_position(zones, id) ==> (#[trigger] zones[j]).id != id,
        zone_position(zones, id) < zones.len() ==> zones[zone_position(zones, id)].id == id,
    decreases zones.len(),
{
    if zones.len() > 0 {
        let shorter = zones.drop_last();
        lemma_zone_position(shorter, id);
        assert forall|j: int| 0 <= j < zone_position(zones, id) implies (#[trigger] zones[j]).id
            != id by {
            if j < shorter.len() {
                assert(shorter[j] == zones[j]);
            }
        }
        let before = zone_position(shorter, id);
        if before < shorter.len() {
            assert(shorter[before] == zones[before]);
        }
    }
}

/// No two zones have the same identifier.
pub open spec fn distinct_ids(zones: Seq<ZoneView>) -> bool {
    forall|i: int, j: int|
        0 <= i < j < zones.len() ==> (#[trigger] zones[i]).id != (#[trigger] zones[j]).id
}

/// The zones with `zone` among them: in the place of the zone that had its
/// identifier, or at the end when there was none.
pub open spec fn with_zone(zones: Seq<ZoneView>, zone: ZoneView) -> Seq<ZoneView> {
    let at = zone_position(zones, zone.id);
    if at < zones.len() {
        zones.update(at, zone)
    } else {
        zones.push(zone)
    }
}

/// The zones without the one that has this identifier.
pub open spec fn without_zone(zones: Seq<ZoneView>, id: PolygonID) -> Seq<ZoneView> {
    let at = zone_position(zones, id);
    if at < zones.len() {
        zones.remove(at)
    } else {
        zones
    }
}

/// The zones after each of the first `k` zones of `list` was put among them,
/// one after the other.
pub open spec fn with_zones(zones: Seq<ZoneView>, list: Seq<ZoneView>, k: int) -> Seq<ZoneView>
    decreases k,
{
    if k <= 0 {
        zones
    } else {
        with_zone(with_zones(zones, list, k - 1), list[k - 1])
    }
}

/// Every one of the zones is usable.
pub open spec fn all_valid(zones: Seq<ZoneView>) -> bool {
    forall|i: int| 0 <= i < zones.len() ==> (#[trigger] zones[i]).valid()
}

impl StoreView {
    /// What the store keeps true of itself: every zone is usable, no two
    /// zones share an identifier, and the period does not end before it
    /// starts.
    pub open spec fn wf(self) -> bool {
        &&& all_valid(self.zones)
        &&& distinct_ids(self.zones)
        &&& self.period_start <= self.period_end
    }

    /// The store after its running period was closed under the given bounds.
    pub open spec fn rotated(self, new_start: i64, new_end: i64) -> StoreView {
        StoreView {
            zones: Seq::new(
                self.zones.len(),
                |i: int| self.zones[i].rolled_over(new_start, new_end),
            ),
            period_start: new_start,
            period_end: new_end,
            ..self
        }
    }
}

/// Putting a usable zone among zones with different identifiers keeps them
/// so.
pub proof fn lemma_with_zone_wf(zones: Seq<ZoneView>, zone: ZoneView)
    requires
        all_valid(zones),
        distinct_ids(zones),
        zone.valid(),
    ensures
        all_valid(with_zone(zones, zone)),
        distinct_ids(with_zone(zones, zone)),
{
    lemma_zone_position(zones, zone.id);
    let at = zone_position(zones, zone.id);
    let after = with_zone(zones, zone);
    assert forall|i: int, j: int| 0 <= i < j < after.len() implies (#[trigger] after[i]).id != (
    #[trigger] after[j]).id by {
        if at < zones.len() {
            assert(zones[i].id != zones[j].id);
        } else {
            if j < zones.len() {
                assert(zones[i].id != zones[j].id);
            } else {
                assert(zones[i].id != zone.id);
            }
        }
    }
}

pub proof fn lemma_without_zone_wf(zones: Seq<ZoneView>, id: PolygonID)
    requires
        all_valid(zones),
        distinct_ids(zones),
    ensures
        all_valid(without_zone(zones, id)),
        distinct_ids(without_zone(zones, id)),
        forall|i: int|
            0 <= i < without_zone(zones, id).len() ==> (#[trigger] without_zone(zones, id)[i]).id
                != id,
{
    lemma_zone_position(zones, id);
    let at = zone_position(zones, id);
    let after = without_zone(zones, id);
    if at < zones.len() {
        assert forall|i: int| 0 <= i < after.len() implies (#[trigger] after[i]).valid() && after[i].id != id by {
            if i < at {
                assert(after[i] == zones[i]);
            } else {
                assert(after[i] == zones[i + 1]);
                assert(zones[at].id != zones[i + 1].id);
            }
        }
        assert forall|i: int, j: int| 0 <= i < j < after.len() implies (#[trigger] after[i]).id
            != (#[trigger] after[j]).id by {
            let oi = if i < at { i } else { i + 1 };
            let oj = if j < at { j } else { j + 1 };
            assert(after[i] == zones[oi]);
            assert(after[j] == zones[oj]);
            assert(zones[oi].id != zones[oj].id);
        }
    }
}

/// The place of the zone with this identifier, and the number of zones when
/// there is none.
pub fn find_zone(zones: &Vec<ConvexPolygon>, id: PolygonID) -> (at: usize)
    ensures
        at == zone_position(zones_view(zones@), id),
        at <= zones.len(),
{
    let n = zones.len();
    let ghost views = zones_view(zones@);
    proof {
        lemma_zone_position(views, id);
    }
    let mut i: usize = 0;
    while i < n
        invariant
            0 <= i <= n,
            n == zones.len(),
            views == zones_view(zones@),
            forall|j: int| 0 <= j < i ==> (#[trigger] views[j]).id != id,
            i <= zone_position(views, id) <= n,
            forall|j: int| 0 <= j < zone_position(views, id) ==> (#[trigger] views[j]).id != id,
            zone_position(views, id) < n ==> views[zone_position(views, id)].id == id,
        decreases n - i,
    {
        if zones[i].id == id {
            assert(views[i as int].id == id);
            return i;
        }
        assert(views[i as int].id != id);
        i += 1;
    }
    n
}

impl ConvexPolygons {
    /// An empty store whose period starts and ends at the present moment.
    pub fn new() -> (store: ConvexPolygons)
        ensures
            store@.equipment_id.len() == 0,
            store@.zones.len() == 0,
            store@.period_start == store@.period_end,
            store@.frame_version == 0,
            store@.wf(),
    {
        let now = utc_now_millis();
        ConvexPolygons::starting_at(String::new(), now)
    }

    /// An empty store for the named equipment, whose period starts and ends
    /// at `now`.
    pub fn starting_at(equipment_id: String, now: i64) -> (store: ConvexPolygons)
        ensures
            store@ == (StoreView {
                equipment_id: equipment_id@,
                zones: Seq::empty(),
                period_start: now,
                period_end: now,
                frame_version: 0,
            }),
            store@.wf(),
    {
        let store = ConvexPolygons {
            equipment_id: equipment_id,
            zones: Vec::new(),
            period_start: now,
            period_end: now,
            frame_version: 0,
        };
        assert(store@.zones =~= Seq::empty());
        store
    }

    /// Puts the zone into the store. A zone that is not usable is rejected,
    /// and the store stays as it was. Otherwise the zone takes the place of
    /// the zone that had its identifier, or the last place when there was
    /// none.
    pub fn insert_polygon(&mut self, polygon: ConvexPolygon) -> (done: Result<(), ZoneError>)
        ensures
            done is Ok <==> polygon@.valid(),
            done is Err ==> done == Err::<(), ZoneError>(ZoneError::ZoneInvalid) && final(self)@
                == old(self)@,
            done is Ok ==> final(self)@ == (StoreView {
                zones: with_zone(old(self)@.zones, polygon@),
                ..old(self)@
            }),
            old(self)@.wf() ==> final(self)@.wf(),
    {
        match polygon.validate() {
            Err(e) => Err(e),
            Ok(_) => {
                let ghost before = self@.zones;
                proof {
                    if self@.wf() {
                        lemma_with_zone_wf(before, polygon@);
                    }
                }
                let at = find_zone(&self.zones, polygon.id);
                if at < self.zones.len() {
                    self.zones[at] = polygon;
                } else {
                    self.zones.push(polygon);
                }
                assert(self@.zones =~= with_zone(before, polygon@));
                Ok(())
            },
        }
    }

    /// Replaces the zone that has the identifier `id` by `polygon`, which
    /// takes that identifier. The result says whether there was such a zone;
    /// when there was none, or when `polygon` is not usable, the store stays
    /// as it was.
    pub fn update_zone(&mut self, id: PolygonID, polygon: ConvexPolygon) -> (done: Result<
        bool,
        ZoneError,
    >)
        ensures
            done is Ok <==> polygon@.valid(),
            done is Err ==> done == Err::<bool, ZoneError>(ZoneError::ZoneInvalid) && final(self)@
                == old(self)@,
            done matches Ok(found) ==> {
                &&& found == (zone_position(old(self)@.zones, id) < old(self)@.zones.len())
                &&& found ==> final(self)@ == (StoreView {
                    zones: old(self)@.zones.update(
                        zone_position(old(self)@.zones, id),
                        ZoneView { id: id, ..polygon@ },
                    ),
                    ..old(self)@
                })
                &&& !found ==> final(self)@ == old(self)@
            },
            old(self)@.wf() ==> final(self)@.wf(),
    {
        match polygon.validate() {
            Err(e) => Err(e),
            Ok(_) => {
                let ghost before = self@.zones;
                proof {
                    lemma_zone_position(before, id);
                }
                let at = find_zone(&self.zones, id);
                if at < self.zones.len() {
                    let mut renamed = polygon;
                    renamed.set_id(id);
                    self.zones[at] = renamed;
                    assert(self@.zones =~= before.update(at as int, ZoneView { id: id, ..polygon@ }));
                    Ok(true)
                } else {
                    Ok(false)
                }
            },
        }
    }

    /// Takes the zone that has the identifier `id` out of the store, and says
    /// whether there was one.
    pub fn delete_zone(&mut self, id: PolygonID) -> (found: bool)
        ensures
            found == (zone_position(old(self)@.zones, id) < old(self)@.zones.len()),
            final(self)@ == (StoreView { zones: without_zone(old(self)@.zones, id), ..old(self)@ }),
            old(self)@.wf() ==> final(self)@.wf(),
    {
        let ghost before = self@.zones;
        proof {
            if self@.wf() {
                lemma_without_zone_wf(before, id);
            }
        }
        let at = find_zone(&self.zones, id);
        if at < self.zones.len() {
            let _ = self.zones.remove(at);
            assert(self@.zones =~= before.remove(at as int));
            true
        } else {
            false
        }
    }

    /// Replaces all zones by those of `list`, put into an empty store one
    /// after the other. When one of them is not usable, the store stays as it
    /// was.
    pub fn replace_all(&mut self, list: Vec<ConvexPolygon>) -> (done: Result<(), ZoneError>)
        ensures
            done is Ok <==> all_valid(zones_view(list@)),
            done is Err ==> done == Err::<(), ZoneError>(ZoneError::ZoneInvalid) && final(self)@
                == old(self)@,
            done is Ok ==> final(self)@ == (StoreView {
                zones: with_zones(Seq::empty(), zones_view(list@), list@.len() as int),
                ..old(self)@
            }),
            old(self)@.wf() ==> final(self)@.wf(),
    {
        let n = list.len();
        let ghost views = zones_view(list@);
        let mut i: usize = 0;
        while i < n
            invariant
                0 <= i <= n,
                n == list.len(),
                views == zones_view(list@),
                forall|j: int| 0 <= j < i ==> (#[trigger] views[j]).valid(),
            decreases n - i,
        {
            match list[i].validate() {
                Err(e) => {
                    assert(!views[i as int].valid());
                    return Err(e);
                },
                Ok(_) => {},
            }
            i += 1;
        }
        let mut fresh = ConvexPolygons::starting_at(String::new(), 0);
        let mut rest = list;
        let mut k: usize = 0;
        while k < n
            invariant
                0 <= k <= n,
                n == views.len(),
                rest@.len() == n - k,
                forall|j: int| 0 <= j < n - k ==> (#[trigger] rest@[j])@ == views[k + j],
                all_valid(views),
                fresh@.wf(),
                fresh@.zones == with_zones(Seq::empty(), views, k as int),
            decreases n - k,
        {
            let zone = rest.remove(0);
            assert(zone@ == views[k as int]);
            let _ = fresh.insert_polygon(zone);
            k += 1;
        }
        self.zones = fresh.zones;
        Ok(())
    }

    /// Closes the running period of every zone under the given bounds, which
    /// become the bounds of the store.
    pub fn rotate_period(&mut self, new_start: i64, new_end: i64)
        requires
            new_start <= new_end,
        ensures
            final(self)@ == old(self)@.rotated(new_start, new_end),
            old(self)@.wf() ==> final(self)@.wf(),
    {
        let n = self.zones.len();
        let ghost before = self@;
        let mut i: usize = 0;
        while i < n
            invariant
                0 <= i <= n,
                n == self.zones.len(),
                new_start <= new_end,
                n == before.zones.len(),
                self@.equipment_id == before.equipment_id,
                self@.frame_version == before.frame_version,
                forall|j: int|
                    0 <= j < i ==> (#[trigger] self.zones@[j])@ == before.zones[j].rolled_over(
                        new_start,
                        new_end,
                    ),
                forall|j: int| i <= j < n ==> (#[trigger] self.zones@[j])@ == before.zones[j],
            decreases n - i,
        {
            self.zones[i].roll_over(new_start, new_end);
            i += 1;
        }
        self.period_start = new_start;
        self.period_end = new_end;
        assert(self@.zones =~= before.rotated(new_start, new_end).zones);
    }
}

} // verus!
