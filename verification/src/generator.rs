use crate::frame::Frame;
use vstd::prelude::*;

verus! {

/// One observable interaction between the audio callback and a generator.
///
/// A generator's history is a sequence of these entries; the callback's
/// contracts are stated over how each call extends that history.
pub enum GeneratorCall {
    /// A MIDI message handed to `process_midi`.
    Midi {
        /// Device timestamp the message arrived with.
        timestamp: u64,
        /// The raw message bytes.
        payload: Seq<u8>,
    },
    /// The frames one `process` call produced.
    Chunk {
        /// The produced frames, in order.
        frames: Seq<Frame>,
    },
}

/// The frames produced by the `Chunk` entries of a history, in order.
pub open spec fn produced_frames(log: Seq<GeneratorCall>) -> Seq<Frame>
    decreases log.len(),
{
    if log.len() == 0 {
        Seq::empty()
    } else {
        produced_frames(log.drop_last()) + (match log.last() {
            GeneratorCall::Chunk { frames } => frames,
            GeneratorCall::Midi { .. } => Seq::empty(),
        })
    }
}

/// The history entries one drained batch of events contributes, in order.
pub open spec fn midi_entries(events: Seq<crate::event::MidiEvent>) -> Seq<GeneratorCall> {
    Seq::new(
        events.len(),
        |i: int|
            GeneratorCall::Midi { timestamp: events[i].timestamp, payload: events[i].payload@ },
    )
}

/// Holds when every entry of `calls` records a MIDI hand-off.
pub open spec fn all_midi(calls: Seq<GeneratorCall>) -> bool {
    forall|i: int| 0 <= i < calls.len() ==> calls[i] is Midi
}

/// Number of `process` calls recorded in `calls`.
pub open spec fn chunk_count(calls: Seq<GeneratorCall>) -> nat
    decreases calls.len(),
{
    if calls.len() == 0 {
        0
    } else {
        chunk_count(calls.drop_last()) + (if calls.last() is Chunk {
            1nat
        } else {
            0nat
        })
    }
}

/// Holds when every `Chunk` entry of `calls` carries exactly `chunk` frames.
pub open spec fn chunks_sized(calls: Seq<GeneratorCall>, chunk: nat) -> bool {
    forall|i: int|
        0 <= i < calls.len() && (#[trigger] calls[i]) is Chunk ==> calls[i]->Chunk_frames.len()
            == chunk
}

/// Holds when no MIDI hand-off follows a produced chunk: all MIDI effects of
/// `calls` were applied before any of its audio was generated.
pub open spec fn midi_before_chunks(calls: Seq<GeneratorCall>) -> bool {
    forall|i: int, j: int|
        0 <= i < j < calls.len() && (#[trigger] calls[i]) is Chunk ==> (#[trigger] calls[j])
            is Chunk
}

/// The contract every caller-supplied audio/MIDI processor answers to.
///
/// `init` is called exactly once, before any other call, to let the generator
/// size itself for `process_chunk_size`-frame chunks. `process` must fill a
/// zero-initialized buffer of exactly that many frames and is called only
/// when the chunk FIFO runs empty. `process_midi` receives each drained
/// event, in arrival order, strictly before the audio it affects is
/// generated. The spec functions expose the state the contracts speak of;
/// nothing else is claimed about a generator's internals.
pub trait AudioGenerator: Sized {
    /// Whether `init` has already sized this generator. The default stands
    /// for generators carrying no ghost state; a verified generator
    /// overrides it.
    open spec fn ready(&self) -> bool {
        true
    }

    /// The chunk size the generator was initialized with. The default
    /// stands for generators carrying no ghost state; a verified generator
    /// overrides it.
    open spec fn chunk(&self) -> nat {
        0
    }

    /// The history of calls this generator has served since `init`. The
    /// default stands for generators carrying no ghost state; a verified
    /// generator overrides it.
    open spec fn log(&self) -> Seq<GeneratorCall> {
        Seq::empty()
    }

    /// Initializes the generator. Called once, before any other call.
    /// - `process_chunk_size` is the number of frames passed to `process`.
    fn init(&mut self, process_chunk_size: usize)
        ensures
            final(self).ready(),
            final(self).chunk() == process_chunk_size as nat,
            final(self).log() == Seq::<GeneratorCall>::empty(),
    ;

    /// Generates one chunk of samples.
    /// - `frames` holds exactly the configured chunk size of silent frames
    ///   on entry and must be left at that length, filled with sample data.
    fn process(&mut self, frames: &mut Vec<Frame>)
        requires
            old(self).ready(),
            old(frames)@.len() == old(self).chunk(),
            forall|i: int| 0 <= i < old(frames)@.len() ==> old(frames)@[i] == Frame::silence(),
        ensures
            final(self).ready(),
            final(self).chunk() == old(self).chunk(),
            final(frames)@.len() == old(frames)@.len(),
            final(self).log() == old(self).log().push(
                GeneratorCall::Chunk { frames: final(frames)@ },
            ),
    ;

    /// Processes one MIDI message, delivered in arrival order.
    fn process_midi(&mut self, message: &[u8], timestamp: u64)
        requires
            old(self).ready(),
        ensures
            final(self).ready(),
            final(self).chunk() == old(self).chunk(),
            final(self).log() == old(self).log().push(
                GeneratorCall::Midi { timestamp, payload: message@ },
            ),
    ;
}

/// A generator that produces silence and ignores MIDI state.
///
/// `process` receives its buffer already zeroed, so leaving it untouched
/// yields digital silence; only the ghost history needs recording. This is
/// the generator-default output a pipeline without any MIDI source falls
/// back to.
pub struct SilenceGenerator {
    /// Whether `init` has run.
    pub inited: Ghost<bool>,
    /// Chunk size received at `init`.
    pub size: Ghost<nat>,
    /// Interaction history since `init`.
    pub calls: Ghost<Seq<GeneratorCall>>,
}

impl SilenceGenerator {
    /// A fresh, not yet initialized silence generator.
    pub fn new() -> (r: SilenceGenerator)
        ensures
            !r.ready(),
    {
        SilenceGenerator { inited: Ghost(false), size: Ghost(0nat), calls: Ghost(Seq::empty()) }
    }
}

impl AudioGenerator for SilenceGenerator {
    open spec fn ready(&self) -> bool {
        self.inited@
    }

    open spec fn chunk(&self) -> nat {
        self.size@
    }

    open spec fn log(&self) -> Seq<GeneratorCall> {
        self.calls@
    }

    fn init(&mut self, process_chunk_size: usize) {
        self.inited = Ghost(true);
        self.size = Ghost(process_chunk_size as nat);
        self.calls = Ghost(Seq::empty());
    }

    fn process(&mut self, frames: &mut Vec<Frame>) {
        self.calls = Ghost(self.calls@.push(GeneratorCall::Chunk { frames: frames@ }));
    }

    fn process_midi(&mut self, message: &[u8], timestamp: u64) {
        self.calls = Ghost(self.calls@.push(GeneratorCall::Midi { timestamp, payload: message@ }));
    }
}

} // verus!
