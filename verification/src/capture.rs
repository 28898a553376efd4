//! The decisions of the capture loop: which frames are passed on, when the
//! stream is given up, and which time in the stream a frame carries.

use vstd::prelude::*;
use vstd::arithmetic::div_mod::{
    lemma_fundamental_div_mod, lemma_fundamental_div_mod_converse, lemma_mod_bound,
};

verus! {

/// How the capture loop is set up.
#[derive(Clone, Copy, Debug, PartialEq, Eq, Structural)]
pub struct CaptureSettings {
    /// The frame rate of the source, rounded up to a whole number.
    pub frames_per_second: u32,
    /// Every how many frames one is passed on.
    pub skip_every_n: u32,
    /// After how many empty reads in a row the stream is given up.
    pub empty_frame_limit: u16,
}

/// What the capture loop remembers from one read to the next.
#[derive(Clone, Copy, Debug, PartialEq, Eq, Structural)]
pub struct CaptureState {
    /// Frames read in the running second of the stream.
    pub frames_counter: u32,
    /// Whole seconds of the stream that have passed.
    pub total_seconds: u64,
    /// Empty reads in a row.
    pub empty_frames: u16,
    /// Frames read since the last one that was passed on.
    pub since_emitted: u32,
}

/// How a read of the source ended.
#[derive(Clone, Copy, Debug, PartialEq, Eq, Structural)]
pub enum ReadOutcome {
    /// A frame with a picture in it.
    Frame,
    /// A frame without a picture.
    Empty,
    /// The read failed.
    Failed,
}

/// What the capture loop does after a read.
#[derive(Clone, Copy, Debug, PartialEq, Eq, Structural)]
pub enum CaptureAction {
    /// Give the stream up.
    Stop,
    /// Drop what was read and read on.
    Skip,
    /// Pass the frame on. Its time in the stream is `seconds` whole seconds
    /// and `frame_in_second` frames.
    Emit { seconds: u64, frame_in_second: u32 },
}

impl CaptureSettings {
    /// One frame in two is passed on, and the stream is given up after sixty
    /// empty reads in a row.
    pub fn with_defaults(frames_per_second: u32) -> (settings: CaptureSettings)
        ensures
            settings == (CaptureSettings {
                frames_per_second: frames_per_second,
                skip_every_n: 2,
                empty_frame_limit: 60,
            }),
    {
        CaptureSettings { frames_per_second, skip_every_n: 2, empty_frame_limit: 60 }
    }
}

impl CaptureState {
    /// The state of a loop that has read nothing yet.
    pub fn new() -> (state: CaptureState)
        ensures
            state == (CaptureState {
                frames_counter: 0,
                total_seconds: 0,
                empty_frames: 0,
                since_emitted: 0,
            }),
    {
        CaptureState { frames_counter: 0, total_seconds: 0, empty_frames: 0, since_emitted: 0 }
    }

    /// The state is one that the loop can reach under these settings.
    pub open spec fn wf(self, settings: CaptureSettings) -> bool {
        &&& settings.skip_every_n >= 1
        &&& self.since_emitted < settings.skip_every_n
        &&& self.frames_counter == 0 || self.frames_counter < settings.frames_per_second
        &&& self.empty_frames <= settings.empty_frame_limit
    }

    /// The state after a read. An empty or failed read is one more in a row,
    /// as long as the row is below the limit. A frame ends the row, counts in
    /// the running second, and completes the second when it is the last of
    /// it.
    pub open spec fn after(self, settings: CaptureSettings, outcome: ReadOutcome) -> CaptureState {
        if outcome == ReadOutcome::Frame {
            let full = self.frames_counter + 1 >= settings.frames_per_second;
            CaptureState {
                frames_counter: if full {
                    0
                } else {
                    (self.frames_counter + 1) as u32
                },
                total_seconds: if full {
                    (self.total_seconds + 1) as u64
                } else {
                    self.total_seconds
                },
                empty_frames: 0,
                since_emitted: if self.since_emitted + 1 >= settings.skip_every_n {
                    0
                } else {
                    (self.since_emitted + 1) as u32
                },
            }
        } else if self.empty_frames < settings.empty_frame_limit {
            CaptureState { empty_frames: (self.empty_frames + 1) as u16, ..self }
        } else {
            self
        }
    }

    /// What the loop does after a read. It stops when the empty reads in a row
    /// reach the limit, passes on every `skip_every_n`-th frame with the time
    /// in the stream at which it was read, and drops everything else.
    pub open spec fn action(self, settings: CaptureSettings, outcome: ReadOutcome)
        -> CaptureAction {
        if outcome == ReadOutcome::Frame {
            if self.since_emitted + 1 >= settings.skip_every_n {
                CaptureAction::Emit {
                    seconds: self.total_seconds,
                    frame_in_second: (self.frames_counter + 1) as u32,
                }
            } else {
                CaptureAction::Skip
            }
        } else if self.empty_frames + 1 >= settings.empty_frame_limit {
            CaptureAction::Stop
        } else {
            CaptureAction::Skip
        }
    }

    /// Takes the outcome of a read, and says what the loop does next.
    pub fn step(&mut self, settings: &CaptureSettings, outcome: ReadOutcome) -> (action:
        CaptureAction)
        requires
            old(self).wf(*settings),
            outcome == ReadOutcome::Frame ==> old(self).total_seconds < u64::MAX,
        ensures
            *final(self) == old(self).after(*settings, outcome),
            action == old(self).action(*settings, outcome),
            final(self).wf(*settings),
    {
        match outcome {
            ReadOutcome::Frame => {
                self.empty_frames = 0;
                let frame_in_second: u32 = self.frames_counter + 1;
                let seconds: u64 = self.total_seconds;
                if frame_in_second >= settings.frames_per_second {
                    self.total_seconds = self.total_seconds + 1;
                    self.frames_counter = 0;
                } else {
                    self.frames_counter = frame_in_second;
                }
                if self.since_emitted + 1 >= settings.skip_every_n {
                    self.since_emitted = 0;
                    CaptureAction::Emit { seconds, frame_in_second }
                } else {
                    self.since_emitted = self.since_emitted + 1;
                    CaptureAction::Skip
                }
            },
            _ => {
                if self.empty_frames < settings.empty_frame_limit {
                    self.empty_frames = self.empty_frames + 1;
                }
                if self.empty_frames >= settings.empty_frame_limit {
                    CaptureAction::Stop
                } else {
                    CaptureAction::Skip
                }
            },
        }
    }
}

/// The state after `k` frames were read one after the other.
pub open spec fn after_frames(state: CaptureState, settings: CaptureSettings, k: int)
    -> CaptureState
    decreases k,
{
    if k <= 0 {
        state
    } else {
        after_frames(state, settings, k - 1).after(settings, ReadOutcome::Frame)
    }
}

/// How many of `k` frames read one after the other were passed on.
pub open spec fn emitted_of(state: CaptureState, settings: CaptureSettings, k: int) -> nat
    decreases k,
{
    if k <= 0 {
        0
    } else {
        emitted_of(state, settings, k - 1) + if after_frames(state, settings, k - 1).action(
            settings,
            ReadOutcome::Frame,
        ) is Emit {
            1nat
        } else {
            0nat
        }
    }
}

/// Every `skip_every_n`-th frame is passed on: of `k` frames read one after
/// the other, starting right after a frame that was passed on, `k /
/// skip_every_n` are passed on, and the last of them is one of these exactly
/// when `k` is a multiple of `skip_every_n`.
pub proof fn lemma_every_nth_frame_is_emitted(
    state: CaptureState,
    settings: CaptureSettings,
    k: int,
)
    requires
        settings.skip_every_n >= 1,
        state.since_emitted == 0,
        0 <= k,
    ensures
        after_frames(state, settings, k).since_emitted == k % (settings.skip_every_n as int),
        emitted_of(state, settings, k) == k / (settings.skip_every_n as int),
        k >= 1 ==> (after_frames(state, settings, k - 1).action(settings, ReadOutcome::Frame)
            is Emit <==> k % (settings.skip_every_n as int) == 0),
    decreases k,
{
    let n = settings.skip_every_n as int;
    if k == 0 {
        assert(0int % n == 0 && 0int / n == 0) by (nonlinear_arith)
            requires
                n >= 1,
        ;
    } else {
        lemma_every_nth_frame_is_emitted(state, settings, k - 1);
        let q = (k - 1) / n;
        let r = (k - 1) % n;
        lemma_fundamental_div_mod(k - 1, n);
        lemma_mod_bound(k - 1, n);
        if r + 1 == n {
            assert(k == (q + 1) * n + 0) by (nonlinear_arith)
                requires
                    k - 1 == n * q + r,
                    r + 1 == n,
            ;
            lemma_fundamental_div_mod_converse(k, n, q + 1, 0);
        } else {
            assert(k == q * n + (r + 1)) by (nonlinear_arith)
                requires
                    k - 1 == n * q + r,
            ;
            lemma_fundamental_div_mod_converse(k, n, q, r + 1);
        }
    }
}

/// The state after `k` reads in a row brought no picture.
pub open spec fn after_empty_reads(state: CaptureState, settings: CaptureSettings, k: int)
    -> CaptureState
    decreases k,
{
    if k <= 0 {
        state
    } else {
        after_empty_reads(state, settings, k - 1).after(settings, ReadOutcome::Empty)
    }
}

/// The stream is given up with the read that makes the row of empty reads as
/// long as the limit, and not before: after a frame, the `k`-th empty read in
/// a row stops the loop exactly when `k` has reached the limit.
pub proof fn lemma_stop_at_the_limit(state: CaptureState, settings: CaptureSettings, k: int)
    requires
        state.empty_frames == 0,
        1 <= k,
    ensures
        after_empty_reads(state, settings, k - 1).empty_frames == if k - 1
            <= settings.empty_frame_limit {
            k - 1
        } else {
            settings.empty_frame_limit as int
        },
        after_empty_reads(state, settings, k - 1).action(settings, ReadOutcome::Empty)
            == CaptureAction::Stop <==> k >= settings.empty_frame_limit,
    decreases k,
{
    if k > 1 {
        lemma_stop_at_the_limit(state, settings, k - 1);
    }
}

} // verus!
