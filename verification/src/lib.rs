//! Real-time bridge from asynchronous MIDI input callbacks to a synchronous,
//! driver-clocked audio output callback.
//!
//! The heart of the crate is [`OutputCallback`]: once per driver request it
//! drains the MIDI event queue into the generator, then fills the requested
//! output buffer from a bounded FIFO of generated frames, refilling that FIFO
//! one fixed-size chunk at a time. Its contracts pin down the invocation
//! protocol: every queued MIDI message is handed to the generator before any
//! audio of the same invocation is produced, and every generated frame is
//! delivered exactly once, in production order.

mod callback;
mod event;
mod frame;
mod generator;
mod queue;

pub use callback::{lemma_frame_conservation, refills_needed, OutputCallback};
pub use event::MidiEvent;
pub use frame::Frame;
pub use generator::{
    all_midi, chunk_count, chunks_sized, midi_before_chunks, produced_frames, AudioGenerator,
    GeneratorCall, SilenceGenerator,
};
