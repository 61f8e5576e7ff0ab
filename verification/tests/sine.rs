use audio_midi_shell::{AudioGenerator, Frame, MidiEvent, OutputCallback};
use std::sync::mpsc;

const SAMPLE_RATE: u32 = 44100;

/// A monophonic sine synthesizer keyed to the MIDI note number, the kind of
/// generator the shell is meant to drive. Samples travel as f32 bit
/// patterns inside [`Frame`].
struct SineSynth {
    level: f32,
    phase: f32,
    phase_inc: f32,
}

impl SineSynth {
    fn new() -> SineSynth {
        SineSynth { level: 0.0, phase: 0.0, phase_inc: 0.0 }
    }
}

impl AudioGenerator for SineSynth {
    fn init(&mut self, _process_chunk_size: usize) {}

    fn process(&mut self, frames: &mut Vec<Frame>) {
        for frame in frames.iter_mut() {
            let sample = f32::sin(self.phase) * self.level * 0.5;
            *frame = Frame { left: sample.to_bits(), right: sample.to_bits() };
            self.phase += self.phase_inc;
            if self.phase > core::f32::consts::TAU {
                self.phase -= core::f32::consts::TAU;
            }
        }
    }

    fn process_midi(&mut self, message: &[u8], _timestamp: u64) {
        match message[0] & 0xF0 {
            0x80 => {
                self.level = 0.0;
            }
            0x90 => {
                self.level = message[2] as f32 / 127.0;
                let frequency = 440.0 * f32::powf(2.0, (message[1] as i32 - 69) as f32 / 12.0);
                self.phase_inc = frequency / SAMPLE_RATE as f32 * core::f32::consts::TAU;
            }
            _ => {}
        }
    }
}

fn event(timestamp: u64, payload: &[u8]) -> MidiEvent {
    MidiEvent { timestamp, payload: payload.to_vec() }
}

fn left_samples(out: &[Frame]) -> Vec<f32> {
    out.iter().map(|f| f32::from_bits(f.left)).collect()
}

#[test]
fn note_on_a4_produces_440hz_at_half_amplitude() {
    let (tx, rx) = mpsc::channel::<MidiEvent>();
    let mut cb = OutputCallback::new(SineSynth::new(), rx, 64);
    // Note on, key 69 (A4), velocity 127.
    tx.send(event(0, &[0x90, 69, 127])).unwrap();
    // One second of audio at 44100 Hz.
    let mut out = vec![Frame { left: 0, right: 0 }; SAMPLE_RATE as usize];
    cb.on_output_data(&mut out);
    let samples = left_samples(&out);

    // Fundamental frequency: the waveform rises through zero once per
    // period, so one second holds one rising crossing per Hertz.
    let mut rising = 0u32;
    for k in 1..samples.len() {
        if samples[k - 1] <= 0.0 && samples[k] > 0.0 {
            rising += 1;
        }
    }
    assert!((439..=441).contains(&rising), "rising zero crossings: {}", rising);

    // Peak amplitude 0.5 * (velocity / 127) = 0.5.
    let peak = samples.iter().fold(0.0f32, |m, s| f32::max(m, f32::abs(*s)));
    assert!((peak - 0.5).abs() < 1e-3, "peak: {}", peak);
}

#[test]
fn velocity_scales_peak_amplitude() {
    let (tx, rx) = mpsc::channel::<MidiEvent>();
    let mut cb = OutputCallback::new(SineSynth::new(), rx, 64);
    // Note on, key 69, velocity 64.
    tx.send(event(0, &[0x90, 69, 64])).unwrap();
    let mut out = vec![Frame { left: 0, right: 0 }; 8192];
    cb.on_output_data(&mut out);
    let samples = left_samples(&out);
    let peak = samples.iter().fold(0.0f32, |m, s| f32::max(m, f32::abs(*s)));
    let expected = 0.5 * 64.0 / 127.0;
    assert!((peak - expected).abs() < 1e-3, "peak: {} expected: {}", peak, expected);
}

#[test]
fn note_off_silences_output() {
    let (tx, rx) = mpsc::channel::<MidiEvent>();
    // Buffer lengths are a multiple of the chunk size, so each invocation
    // consumes whole chunks and nothing generated under the old state
    // lingers in the FIFO.
    let mut cb = OutputCallback::new(SineSynth::new(), rx, 64);
    tx.send(event(0, &[0x90, 69, 127])).unwrap();
    let mut out = vec![Frame { left: 0, right: 0 }; 256];
    cb.on_output_data(&mut out);
    let loud = left_samples(&out);
    assert!(loud.iter().any(|s| f32::abs(*s) > 0.1));

    // Note off, status nibble 0x8: all subsequent output is silent.
    tx.send(event(1, &[0x80, 69, 0])).unwrap();
    let mut out2 = vec![Frame { left: 0, right: 0 }; 256];
    cb.on_output_data(&mut out2);
    for s in left_samples(&out2) {
        assert_eq!(s, 0.0);
    }
}
