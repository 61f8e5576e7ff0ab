use audio_midi_shell::{AudioGenerator, Frame, MidiEvent, OutputCallback};
use std::sync::mpsc;

/// A deterministic generator numbering every produced frame.
struct Numbering {
    chunk: usize,
    next: u32,
    process_calls: u32,
}

impl Numbering {
    fn new() -> Numbering {
        Numbering { chunk: 0, next: 0, process_calls: 0 }
    }
}

impl AudioGenerator for Numbering {
    fn init(&mut self, process_chunk_size: usize) {
        self.chunk = process_chunk_size;
    }

    fn process(&mut self, frames: &mut Vec<Frame>) {
        assert_eq!(frames.len(), self.chunk);
        self.process_calls += 1;
        for f in frames.iter_mut() {
            *f = Frame { left: self.next, right: self.next };
            self.next += 1;
        }
    }

    fn process_midi(&mut self, _message: &[u8], _timestamp: u64) {}
}

fn fresh(chunk: usize) -> OutputCallback<Numbering> {
    let (_tx, rx) = mpsc::channel::<MidiEvent>();
    OutputCallback::new(Numbering::new(), rx, chunk)
}

fn request(cb: &mut OutputCallback<Numbering>, len: usize) -> Vec<u32> {
    let mut out = vec![Frame { left: 0, right: 0 }; len];
    cb.on_output_data(&mut out);
    out.iter().map(|f| f.left).collect()
}

#[test]
fn chunk_equal_to_buffer_needs_one_call() {
    let mut cb = fresh(16);
    request(&mut cb, 16);
    assert_eq!(cb.generator.process_calls, 1);
}

#[test]
fn chunk_larger_than_buffer_spans_invocations() {
    // One 32-frame chunk serves four 8-frame requests; the fifth request
    // forces the second chunk.
    let mut cb = fresh(32);
    for _ in 0..4 {
        request(&mut cb, 8);
    }
    assert_eq!(cb.generator.process_calls, 1);
    request(&mut cb, 8);
    assert_eq!(cb.generator.process_calls, 2);
}

#[test]
fn carry_over_keeps_frame_order() {
    // Chunk size 5 never divides the requests evenly; the carried-over
    // frames keep the stream contiguous across invocations.
    let mut cb = fresh(5);
    let mut got: Vec<u32> = Vec::new();
    for len in [3usize, 4, 2, 6] {
        got.extend(request(&mut cb, len));
    }
    assert_eq!(got, (0u32..15).collect::<Vec<u32>>());
}

#[test]
fn chunk_size_one_calls_process_per_frame() {
    let mut cb = fresh(1);
    request(&mut cb, 5);
    assert_eq!(cb.generator.process_calls, 5);
}

#[test]
fn empty_request_generates_nothing() {
    let mut cb = fresh(4);
    let got = request(&mut cb, 0);
    assert!(got.is_empty());
    assert_eq!(cb.generator.process_calls, 0);
}

#[test]
fn silent_frame_is_all_zero_bits() {
    let f = Frame::silent();
    assert_eq!(f, Frame { left: 0, right: 0 });
    assert_eq!(f32::from_bits(f.left), 0.0);
    assert_eq!(f32::from_bits(f.right), 0.0);
}

#[test]
fn midi_event_carries_timestamp_and_payload() {
    let ev = MidiEvent { timestamp: 42, payload: vec![0x90, 60, 100] };
    assert_eq!(ev.timestamp, 42);
    assert_eq!(ev.payload, vec![0x90, 60, 100]);
}
