//! The period controller: when the running period is closed, and which
//! bounds the closed period is published under.

use vstd::prelude::*;
use vstd::arithmetic::div_mod::{
    lemma_fundamental_div_mod, lemma_mod_bound, lemma_mod_multiples_basic,
};
use crate::store::{ConvexPolygons, StoreView};

verus! {

/// Decides from the time in the stream when a period is over.
#[derive(Clone, Copy, Debug, PartialEq, Eq, Structural)]
pub struct PeriodTimer {
    /// Length of a period, in milliseconds.
    pub reset_milliseconds: u64,
    /// When the running period was opened, in milliseconds of stream time.
    pub opened_at: u64,
}

impl PeriodTimer {
    /// Whether a frame taken at `current` crosses the end of the running
    /// period.
    pub open spec fn due(self, current: u64) -> bool {
        current >= self.opened_at && current - self.opened_at >= self.reset_milliseconds
    }

    /// The last end of a period that is not after `current`, for a frame that
    /// crosses the end of the running period. Periods follow each other from
    /// the opening of the running one, each as long as the reset interval; with
    /// an interval of no length every moment ends a period.
    pub open spec fn last_boundary(self, current: u64) -> int {
        if self.reset_milliseconds == 0 {
            current as int
        } else {
            self.opened_at + ((current - self.opened_at) / (self.reset_milliseconds as int))
                * self.reset_milliseconds
        }
    }

    /// The timer after a frame taken at `current`: a frame that crosses the
    /// end of the running period opens the period that the frame lies in, at
    /// the boundary where that period starts, not at the frame's own time.
    pub open spec fn ticked(self, current: u64) -> PeriodTimer {
        if self.due(current) {
            PeriodTimer { opened_at: self.last_boundary(current) as u64, ..self }
        } else {
            self
        }
    }

    /// A timer whose first period opens at the start of the stream.
    pub fn new(reset_milliseconds: u64) -> (timer: PeriodTimer)
        ensures
            timer == (PeriodTimer { reset_milliseconds: reset_milliseconds, opened_at: 0 }),
    {
        PeriodTimer { reset_milliseconds, opened_at: 0 }
    }

    /// Whether a frame taken at `current` milliseconds of stream time crosses
    /// the end of the running period.
    pub fn is_due(&self, current: u64) -> (due: bool)
        ensures
            due == self.due(current),
    {
        current >= self.opened_at && current - self.opened_at >= self.reset_milliseconds
    }

    /// Notes a frame taken at `current` milliseconds of stream time, and
    /// says whether the running period is to be closed with it.
    pub fn tick(&mut self, current: u64) -> (rotate: bool)
        ensures
            rotate == old(self).due(current),
            *final(self) == old(self).ticked(current),
    {
        if self.is_due(current) {
            if self.reset_milliseconds > 0 {
                let passed: u64 = current - self.opened_at;
                let periods: u64 = passed / self.reset_milliseconds;
                proof {
                    lemma_whole_periods(passed as int, self.reset_milliseconds as int);
                }
                self.opened_at = self.opened_at + periods * self.reset_milliseconds;
            } else {
                self.opened_at = current;
            }
            true
        } else {
            false
        }
    }
}

/// The whole periods that fit into a stretch of time are not longer than the
/// stretch, and what is left over is shorter than one period.
pub proof fn lemma_whole_periods(passed: int, reset: int)
    requires
        0 <= passed,
        0 < reset,
    ensures
        0 <= (passed / reset) * reset <= passed,
        passed - (passed / reset) * reset < reset,
        passed - (passed / reset) * reset == passed % reset,
        passed >= reset ==> passed / reset >= 1,
{
    lemma_fundamental_div_mod(passed, reset);
    lemma_mod_bound(passed, reset);
    assert((passed / reset) * reset == reset * (passed / reset)) by (nonlinear_arith);
    if passed >= reset && passed / reset < 1 {
        assert(passed / reset >= 0) by (nonlinear_arith)
            requires
                0 <= passed,
                0 < reset,
        ;
        assert(reset * (passed / reset) == 0) by (nonlinear_arith)
            requires
                passed / reset == 0,
        ;
    }
}

/// There is exactly one rotation for each reset interval that a frame
/// crosses, and rotations do not drift: the frame that closes a period opens
/// the next one at a whole number of intervals after the old opening, the
/// frame lies in the period it opens, no later frame in that period closes it,
/// and the first frame at or after its end does.
pub proof fn lemma_one_rotation_per_period(timer: PeriodTimer, closed: u64, later: u64)
    requires
        timer.reset_milliseconds > 0,
        timer.due(closed),
        closed <= later,
    ensures
        timer.opened_at < timer.ticked(closed).opened_at <= closed,
        closed - timer.ticked(closed).opened_at < timer.reset_milliseconds,
        (timer.ticked(closed).opened_at - timer.opened_at) % (timer.reset_milliseconds as int)
            == 0,
        timer.ticked(closed).due(later) <==> later - timer.ticked(closed).opened_at
            >= timer.reset_milliseconds,
        later - timer.ticked(closed).opened_at < timer.reset_milliseconds ==> timer.ticked(
            closed,
        ).ticked(later) == timer.ticked(closed),
{
    let passed = closed - timer.opened_at;
    let reset = timer.reset_milliseconds as int;
    lemma_whole_periods(passed, reset);
    lemma_mod_multiples_basic(passed / reset, reset);
    assert((passed / reset) * reset >= reset) by (nonlinear_arith)
        requires
            passed / reset >= 1,
            reset > 0,
    ;
}

/// The bounds under which a period that is closed at `now` is published. The
/// first period of a store, whose bounds still coincide, ends at `now` and has
/// the length `reset`; every later one starts where the one before it ended.
pub open spec fn next_bounds(period_start: i64, period_end: i64, now: i64, reset: i64) -> (
    int,
    int,
) {
    if period_start == period_end {
        (now - reset, now as int)
    } else {
        (period_end as int, period_end + reset)
    }
}

/// Whether the bounds under which a period closed at `now` is published are
/// moments that an `i64` can hold.
pub fn next_bounds_fit(period_start: i64, period_end: i64, now: i64, reset: i64) -> (fit: bool)
    ensures
        fit == (i64::MIN <= next_bounds(period_start, period_end, now, reset).0 && next_bounds(
            period_start,
            period_end,
            now,
            reset,
        ).1 <= i64::MAX),
{
    if period_start == period_end {
        let start: i128 = now as i128 - reset as i128;
        start >= i64::MIN as i128
    } else {
        let end: i128 = period_end as i128 + reset as i128;
        end <= i64::MAX as i128
    }
}

impl StoreView {
    /// The store after the period that is closed at `now` was published.
    pub open spec fn advanced(self, now: i64, reset: i64) -> StoreView {
        let (start, end) = next_bounds(self.period_start, self.period_end, now, reset);
        self.rotated(start as i64, end as i64)
    }
}

impl ConvexPolygons {
    /// Closes the running period at `now`, a moment in milliseconds since the
    /// Unix epoch: computes the bounds of the closed period, of length
    /// `reset_milliseconds`, and rotates every zone under them.
    pub fn advance_period(&mut self, now: i64, reset_milliseconds: i64) -> (bounds: (i64, i64))
        requires
            0 <= reset_milliseconds,
            i64::MIN <= next_bounds(
                old(self)@.period_start,
                old(self)@.period_end,
                now,
                reset_milliseconds,
            ).0,
            next_bounds(old(self)@.period_start, old(self)@.period_end, now, reset_milliseconds).1
                <= i64::MAX,
        ensures
            (bounds.0 as int, bounds.1 as int) == next_bounds(
                old(self)@.period_start,
                old(self)@.period_end,
                now,
                reset_milliseconds,
            ),
            final(self)@ == old(self)@.advanced(now, reset_milliseconds),
            old(self)@.wf() ==> final(self)@.wf(),
    {
        let bounds: (i64, i64) = if self.period_end == self.period_start {
            (now - reset_milliseconds, now)
        } else {
            (self.period_end, self.period_end + reset_milliseconds)
        };
        self.rotate_period(bounds.0, bounds.1);
        bounds
    }
}

/// Periods follow each other without a gap: a period that is not the first
/// of its store starts where the period before it ended, and has the length
/// of the reset interval.
pub proof fn lemma_periods_are_contiguous(store: StoreView, now: i64, reset: i64)
    requires
        store.period_start != store.period_end,
        0 <= reset,
        store.period_end + reset <= i64::MAX,
    ensures
        store.advanced(now, reset).period_start == store.period_end,
        store.advanced(now, reset).period_end == store.period_end + reset,
        store.advanced(now, reset).period_start <= store.advanced(now, reset).period_end,
{
}

} // verus!
