//! SMPTE timecode values.
use vstd::prelude::*;

verus! {

/// A SMPTE frame rate.
#[derive(Debug, Clone, Copy, PartialEq, Eq, Structural, Hash)]
pub enum FrameRate {
    /// 24 fps (film).
    Fps24,
    /// 25 fps (PAL).
    Fps25,
    /// 29.97 fps drop-frame (NTSC).
    Fps2997Df,
    /// 30 fps non-drop.
    Fps30Ndf,
}

/// The nominal frames per second of a rate.
pub open spec fn spec_fps(rate: FrameRate) -> u8 {
    match rate {
        FrameRate::Fps24 => 24,
        FrameRate::Fps25 => 25,
        FrameRate::Fps2997Df => 30,
        FrameRate::Fps30Ndf => 30,
    }
}

impl FrameRate {
    /// Every frame rate.
    pub const ALL: [FrameRate; 4] = [FrameRate::Fps24, FrameRate::Fps25, FrameRate::Fps2997Df, FrameRate::Fps30Ndf];

    /// The nominal frames per second (30 for 29.97 drop-frame).
    pub fn fps(self) -> (n: u8)
        ensures
            n == spec_fps(self),
    {
        match self {
            FrameRate::Fps24 => 24,
            FrameRate::Fps25 => 25,
            FrameRate::Fps2997Df => 30,
            FrameRate::Fps30Ndf => 30,
        }
    }
}

/// A timecode position `hours:minutes:seconds:frames` at a frame rate.
#[derive(Debug, Clone, Copy, PartialEq, Eq, Structural, Hash)]
pub struct Timecode {
    /// Hours (0-23).
    pub hours: u8,
    /// Minutes (0-59).
    pub minutes: u8,
    /// Seconds (0-59).
    pub seconds: u8,
    /// Frames (below the rate's frames per second).
    pub frames: u8,
    /// The frame rate.
    pub rate: FrameRate,
}

/// Whether the fields make a valid timecode: hours below 24, minutes and
/// seconds below 60, frames below the rate's fps, and in drop-frame, not
/// frames 0 or 1 of the first second of a minute that is not a multiple
/// of ten (those frame numbers are skipped).
pub open spec fn spec_timecode_valid(hours: u8, minutes: u8, seconds: u8, frames: u8, rate: FrameRate) -> bool {
    &&& hours < 24
    &&& minutes < 60
    &&& seconds < 60
    &&& frames < spec_fps(rate)
    &&& !(rate == FrameRate::Fps2997Df && seconds == 0 && frames < 2 && minutes % 10 != 0)
}

impl Timecode {
    /// Builds a timecode, `None` when the fields are out of range for the
    /// rate.
    pub fn new(hours: u8, minutes: u8, seconds: u8, frames: u8, rate: FrameRate) -> (r: Option<Timecode>)
        ensures
            spec_timecode_valid(hours, minutes, seconds, frames, rate) ==> r == Some(
                Timecode { hours, minutes, seconds, frames, rate },
            ),
            !spec_timecode_valid(hours, minutes, seconds, frames, rate) ==> r is None,
    {
        if hours >= 24 || minutes >= 60 || seconds >= 60 || frames >= rate.fps() {
            return None;
        }
        if rate == FrameRate::Fps2997Df && seconds == 0 && frames < 2 && minutes % 10 != 0 {
            return None;
        }
        Some(Timecode { hours, minutes, seconds, frames, rate })
    }
}

} // verus!
