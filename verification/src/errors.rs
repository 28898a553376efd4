//! The kinds of failure, and what the pipeline does about each of them.

use vstd::prelude::*;
use vstd::string::StringExecFns;

verus! {

/// What can go wrong.
#[derive(Clone, Copy, Debug, PartialEq, Eq, Structural)]
pub enum ErrorKind {
    ConfigInvalid,
    VideoOpenFailed,
    VideoReadFailed,
    DetectorFailed,
    TrackerFailed,
    ZoneInvalid,
    PublisherFailed,
    LockPoisoned,
}

/// What is done about a failure.
#[derive(Clone, Copy, Debug, PartialEq, Eq, Structural)]
pub enum Disposition {
    /// The failure is told to whoever asked, and the work is not started.
    Surface,
    /// The read counts as an empty one.
    CountAsEmptyRead,
    /// The failure is logged and the frame is dropped.
    SkipFrame,
    /// The failure is logged and the work goes on.
    LogAndContinue,
    /// The process ends.
    Fatal,
}

impl ErrorKind {
    /// What is done about a failure of this kind. A bad configuration, a
    /// source that cannot be opened and a bad zone are told to whoever asked.
    /// A failed read counts as an empty read. A failure of the detector or of
    /// the tracker costs the frame. A failure of the publisher does not hold
    /// up the rotation of the periods. A poisoned lock ends the process.
    pub open spec fn disposition_spec(self) -> Disposition {
        match self {
            ErrorKind::ConfigInvalid => Disposition::Surface,
            ErrorKind::VideoOpenFailed => Disposition::Surface,
            ErrorKind::ZoneInvalid => Disposition::Surface,
            ErrorKind::VideoReadFailed => Disposition::CountAsEmptyRead,
            ErrorKind::DetectorFailed => Disposition::SkipFrame,
            ErrorKind::TrackerFailed => Disposition::SkipFrame,
            ErrorKind::PublisherFailed => Disposition::LogAndContinue,
            ErrorKind::LockPoisoned => Disposition::Fatal,
        }
    }

    pub fn disposition(&self) -> (d: Disposition)
        ensures
            d == self.disposition_spec(),
    {
        match self {
            ErrorKind::ConfigInvalid | ErrorKind::VideoOpenFailed | ErrorKind::ZoneInvalid => {
                Disposition::Surface
            },
            ErrorKind::VideoReadFailed => Disposition::CountAsEmptyRead,
            ErrorKind::DetectorFailed | ErrorKind::TrackerFailed => Disposition::SkipFrame,
            ErrorKind::PublisherFailed => Disposition::LogAndContinue,
            ErrorKind::LockPoisoned => Disposition::Fatal,
        }
    }
}

/// A failure of the video source, by number: 1 when it cannot be opened, 2
/// when it cannot be probed.
#[derive(Clone, Copy, Debug, PartialEq, Eq, Structural)]
pub struct AppVideoError {
    pub typ: i16,
}

impl AppVideoError {
    /// The text of the failure.
    pub open spec fn message_spec(self) -> Seq<char> {
        if self.typ == 1 {
            "Can't open video"@
        } else if self.typ == 2 {
            "Can't make probe for video"@
        } else {
            "Undefined application video error"@
        }
    }

    pub fn message(&self) -> (text: String)
        ensures
            text@ == self.message_spec(),
    {
        match self.typ {
            1 => String::from_str("Can't open video"),
            2 => String::from_str("Can't make probe for video"),
            _ => String::from_str("Undefined application video error"),
        }
    }
}

/// Whether frames are streamed as MJPEG: only when the REST service runs
/// and the streaming is configured and switched on.
pub fn mjpeg_enabled(rest_api_enabled: bool, mjpeg_streaming: Option<bool>) -> (enabled: bool)
    ensures
        enabled == (rest_api_enabled && mjpeg_streaming == Some(true)),
{
    match mjpeg_streaming {
        Some(v) => v && rest_api_enabled,
        None => false,
    }
}

/// Whether the key pressed in the output window ends the processing loop:
/// escape, `s` or `S`.
pub fn is_exit_key(key: i32) -> (exit: bool)
    ensures
        exit == (key == 27 || key == 115 || key == 83),
{
    key == 27 || key == 115 || key == 83
}

} // verus!
