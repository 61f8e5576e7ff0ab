use vstd::prelude::*;

verus! {

/// A raw MIDI message, born inside a driver's delivery callback and consumed
/// by the audio thread.
///
/// The payload follows MIDI 1.0 wire framing and is forwarded verbatim; the
/// pipeline never interprets it. The timestamp is the device's monotonic
/// clock value, an opaque unit.
#[derive(Debug)]
pub struct MidiEvent {
    /// Monotonic device clock value at delivery.
    pub timestamp: u64,
    /// Raw message bytes, exactly as the driver handed them over.
    pub payload: Vec<u8>,
}

} // verus!
