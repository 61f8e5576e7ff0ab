use crate::event::MidiEvent;
use vstd::prelude::*;

verus! {

/// Declares `std::sync::mpsc::Receiver` so the audio callback can own the
/// consumer half of the event queue. The type is opaque; what the queue
/// holds at any moment depends on the producer threads.
#[verifier::external_type_specification]
#[verifier::external_body]
#[verifier::reject_recursive_types(T)]
pub struct ExReceiver<T>(std::sync::mpsc::Receiver<T>);

/// Relies on `std::sync::mpsc::Receiver::try_iter`: a non-blocking pass that
/// yields every message pending on the queue at poll time, in queue order,
/// and stops as soon as the queue reports empty or disconnected — so one
/// call is a full drain. Which events it yields depends on the producer
/// threads, so nothing is promised of the result.
#[verifier::external_body]
pub(crate) fn poll_pending(rx: &std::sync::mpsc::Receiver<MidiEvent>) -> (r: Vec<MidiEvent>) {
    rx.try_iter().collect()
}

} // verus!
