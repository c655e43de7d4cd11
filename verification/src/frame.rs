//! The stereo frame, the atomic unit of audio.

use vstd::prelude::*;

verus! {

/// One (left, right) sample pair. Each channel holds the bit pattern of an
/// IEEE-754 binary32 value, nominally within [-1, 1]; nothing clamps it at
/// rest.
#[derive(Clone, Copy, Debug, PartialEq, Eq, Structural)]
pub struct StereoFrame {
    pub left: u32,
    pub right: u32,
}

impl StereoFrame {
    /// The silent frame: positive zero on both channels.
    pub open spec fn silence() -> StereoFrame {
        StereoFrame { left: 0, right: 0 }
    }

    /// Returns the silent frame.
    pub fn zero() -> (frame: StereoFrame)
        ensures
            frame == StereoFrame::silence(),
    {
        StereoFrame { left: 0, right: 0 }
    }
}

impl Default for StereoFrame {
    fn default() -> (frame: StereoFrame)
        ensures
            frame == StereoFrame::silence(),
    {
        StereoFrame { left: 0, right: 0 }
    }
}

} // verus!
