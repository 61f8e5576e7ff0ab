use vstd::prelude::*;

verus! {

/// A single stereo frame.
///
/// The pipeline moves frames without ever interpreting the audio they carry,
/// so each channel's sample travels as the raw bit pattern of its value. The
/// shell that talks to the audio driver converts to and from machine floats
/// at the boundary.
#[derive(Clone, Copy, Debug, PartialEq, Eq, Structural)]
pub struct Frame {
    /// Bit pattern of the left channel's sample.
    pub left: u32,
    /// Bit pattern of the right channel's sample.
    pub right: u32,
}

impl Frame {
    /// The all-zero frame: digital silence on both channels.
    pub open spec fn silence() -> Frame {
        Frame { left: 0, right: 0 }
    }

    /// Returns a silent frame.
    pub fn silent() -> (r: Frame)
        ensures
            r == Frame::silence(),
    {
        Frame { left: 0, right: 0 }
    }
}

} // verus!
