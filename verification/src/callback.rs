use crate::event::MidiEvent;
use crate::frame::Frame;
use crate::generator::{
    all_midi, chunk_count, chunks_sized, midi_before_chunks, midi_entries, produced_frames,
    AudioGenerator, GeneratorCall,
};
use crate::queue::poll_pending;
use std::collections::VecDeque;
use std::sync::mpsc::Receiver;
use vstd::arithmetic::div_mod::lemma_fundamental_div_mod_converse;
use vstd::prelude::*;

verus! {

/// The frames a single call contributes to the produced stream.
pub open spec fn call_frames(call: GeneratorCall) -> Seq<Frame> {
    match call {
        GeneratorCall::Chunk { frames } => frames,
        GeneratorCall::Midi { .. } => Seq::empty(),
    }
}

/// How many chunk refills serving `requested` frames takes when `buffered`
/// frames are already waiting and each refill adds `chunk` frames: none if
/// the stock suffices, otherwise enough whole chunks to cover the shortfall.
pub open spec fn refills_needed(buffered: nat, requested: nat, chunk: nat) -> nat
    recommends
        chunk >= 1,
{
    if requested <= buffered {
        0
    } else {
        ((requested - buffered + chunk - 1) / (chunk as int)) as nat
    }
}

proof fn lemma_log_extend(log: Seq<GeneratorCall>, call: GeneratorCall)
    ensures
        produced_frames(log.push(call)) == produced_frames(log) + call_frames(call),
        chunk_count(log.push(call)) == chunk_count(log) + (if call is Chunk {
            1nat
        } else {
            0nat
        }),
{
    assert(log.push(call).drop_last() =~= log);
    assert(log.push(call).last() == call);
}

proof fn lemma_produced_concat(a: Seq<GeneratorCall>, b: Seq<GeneratorCall>)
    ensures
        produced_frames(a + b) == produced_frames(a) + produced_frames(b),
    decreases b.len(),
{
    if b.len() == 0 {
        assert(a + b =~= a);
        assert(produced_frames(a) + produced_frames(b) =~= produced_frames(a));
    } else {
        lemma_produced_concat(a, b.drop_last());
        assert(a + b =~= (a + b.drop_last()).push(b.last()));
        lemma_log_extend(a + b.drop_last(), b.last());
        assert(produced_frames(b) == produced_frames(b.drop_last()) + call_frames(b.last()));
        assert(produced_frames(a) + produced_frames(b) =~= (produced_frames(a) + produced_frames(
            b.drop_last(),
        )) + call_frames(b.last()));
    }
}

proof fn lemma_all_midi_produces_nothing(calls: Seq<GeneratorCall>)
    requires
        all_midi(calls),
    ensures
        produced_frames(calls) == Seq::<Frame>::empty(),
        chunk_count(calls) == 0,
    decreases calls.len(),
{
    if calls.len() > 0 {
        assert(all_midi(calls.drop_last())) by {
            assert(forall|i: int|
                0 <= i < calls.drop_last().len() ==> calls.drop_last()[i] == calls[i]);
        }
        lemma_all_midi_produces_nothing(calls.drop_last());
        assert(calls.last() is Midi);
        assert(produced_frames(calls) =~= Seq::<Frame>::empty());
    }
}

/// The real-time audio entry point: owns the generator, the consumer half of
/// the event queue, and the chunk FIFO that reconciles the generation chunk
/// size with whatever buffer size the driver requests.
pub struct OutputCallback<G: AudioGenerator> {
    /// The caller-supplied generator; touched only by the audio thread.
    pub generator: G,
    /// Consumer half of the multi-producer event queue.
    pub midi_receiver: Receiver<MidiEvent>,
    /// Number of frames handed to `process` per call.
    pub process_chunk_size: usize,
    /// Frames generated but not yet written to an output buffer,
    /// first-produced-first-consumed.
    pub out_samples: VecDeque<Frame>,
    /// Scratch buffer handed to `process`; allocated once and re-zeroed in
    /// place, so steady-state refills never allocate.
    pub scratch: Vec<Frame>,
    /// Every frame ever written to an output buffer, oldest first.
    pub delivered: Ghost<Seq<Frame>>,
}

impl<G: AudioGenerator> OutputCallback<G> {
    /// The callback's invariant. Beyond sizing, it carries the conservation
    /// law: the frames the generator has produced are exactly the frames
    /// already delivered followed by the frames still buffered — none lost,
    /// none duplicated, none reordered.
    pub open spec fn wf(&self) -> bool {
        &&& self.generator.ready()
        &&& self.generator.chunk() == self.process_chunk_size as nat
        &&& self.process_chunk_size >= 1
        &&& self.out_samples@.len() <= self.process_chunk_size
        &&& self.scratch@.len() == self.process_chunk_size
        &&& produced_frames(self.generator.log()) == self.delivered@ + self.out_samples@
    }

    /// Builds the callback and initializes the generator for
    /// `chunk_size`-frame chunks. The chunk FIFO starts empty and is sized
    /// once, here; it is never grown in steady state.
    pub fn new(generator: G, midi_receiver: Receiver<MidiEvent>, chunk_size: usize) -> (r: Self)
        requires
            chunk_size >= 1,
        ensures
            r.wf(),
            r.process_chunk_size == chunk_size,
            r.out_samples@ == Seq::<Frame>::empty(),
            r.delivered@ == Seq::<Frame>::empty(),
            r.generator.log() == Seq::<GeneratorCall>::empty(),
    {
        let mut generator = generator;
        generator.init(chunk_size);
        let mut scratch: Vec<Frame> = Vec::new();
        let mut i: usize = 0;
        while i < chunk_size
            invariant
                i <= chunk_size,
                scratch@.len() == i as int,
            decreases chunk_size - i,
        {
            scratch.push(Frame::silent());
            i = i + 1;
        }
        let r = OutputCallback {
            generator,
            midi_receiver,
            process_chunk_size: chunk_size,
            out_samples: VecDeque::with_capacity(chunk_size),
            scratch,
            delivered: Ghost(Seq::empty()),
        };
        proof {
            assert(r.delivered@ + r.out_samples@ =~= Seq::<Frame>::empty());
        }
        r
    }

    /// Hands every event of `events` to the generator, in order: the
    /// generator's history grows by exactly those events, as MIDI
    /// hand-offs, and nothing else changes. This is the delivery half of
    /// the queue's ordering guarantee: events handed over in one batch
    /// reach the generator in batch order, with no reordering.
    #[verifier::loop_isolation(false)]
    pub fn dispatch_events(&mut self, events: &Vec<MidiEvent>)
        requires
            old(self).wf(),
        ensures
            final(self).wf(),
            final(self).process_chunk_size == old(self).process_chunk_size,
            final(self).out_samples@ == old(self).out_samples@,
            final(self).delivered@ == old(self).delivered@,
            final(self).generator.log() == old(self).generator.log() + midi_entries(events@),
    {
        let n = events.len();
        let mut k: usize = 0;
        proof {
            assert(self.generator.log() =~= old(self).generator.log() + midi_entries(
                events@,
            ).take(0));
        }
        while k < n
            invariant
                k <= n,
                n == events@.len(),
                self.wf(),
                self.process_chunk_size == old(self).process_chunk_size,
                self.out_samples@ == old(self).out_samples@,
                self.delivered@ == old(self).delivered@,
                self.generator.log() == old(self).generator.log() + midi_entries(events@).take(
                    k as int,
                ),
            decreases n - k,
        {
            let ev = &events[k];
            self.generator.process_midi(ev.payload.as_slice(), ev.timestamp);
            proof {
                let entry = GeneratorCall::Midi { timestamp: ev.timestamp, payload: ev.payload@ };
                lemma_log_extend(
                    old(self).generator.log() + midi_entries(events@).take(k as int),
                    entry,
                );
                assert((old(self).generator.log() + midi_entries(events@).take(k as int)).push(
                    entry,
                ) =~= old(self).generator.log() + midi_entries(events@).take(k as int + 1));
                assert(produced_frames(self.generator.log()) =~= self.delivered@
                    + self.out_samples@);
            }
            k = k + 1;
        }
        proof {
            assert(midi_entries(events@).take(n as int) =~= midi_entries(events@));
        }
    }

    /// Drains the event queue to exhaustion — one non-blocking pass over
    /// everything pending — and hands each drained event to the generator,
    /// in queue order.
    fn drain_midi(&mut self)
        requires
            old(self).wf(),
        ensures
            final(self).wf(),
            final(self).process_chunk_size == old(self).process_chunk_size,
            final(self).out_samples@ == old(self).out_samples@,
            final(self).delivered@ == old(self).delivered@,
            exists|es: Seq<MidiEvent>| #![auto]
                final(self).generator.log() == old(self).generator.log() + midi_entries(es),
    {
        let events = poll_pending(&self.midi_receiver);
        self.dispatch_events(&events);
    }

    /// Refills the empty chunk FIFO with exactly one generated chunk: the
    /// scratch buffer is re-zeroed in place, handed to `process`, and the
    /// produced frames are queued in order.
    #[verifier::loop_isolation(false)]
    fn refill(&mut self)
        requires
            old(self).wf(),
            old(self).out_samples@.len() == 0,
        ensures
            final(self).wf(),
            final(self).process_chunk_size == old(self).process_chunk_size,
            final(self).delivered@ == old(self).delivered@,
            final(self).out_samples@.len() == old(self).process_chunk_size,
            final(self).generator.log() == old(self).generator.log().push(
                GeneratorCall::Chunk { frames: final(self).out_samples@ },
            ),
    {
        let chunk_size = self.process_chunk_size;
        let mut i: usize = 0;
        while i < chunk_size
            invariant
                i <= chunk_size,
                self.process_chunk_size == chunk_size,
                self.scratch@.len() == chunk_size,
                forall|j: int| 0 <= j < i ==> self.scratch@[j] == Frame::silence(),
                self.generator == old(self).generator,
                self.out_samples@ == old(self).out_samples@,
                self.delivered@ == old(self).delivered@,
            decreases chunk_size - i,
        {
            self.scratch[i] = Frame::silent();
            i = i + 1;
        }
        self.generator.process(&mut self.scratch);
        let ghost chunk = self.scratch@;
        let ghost entry = GeneratorCall::Chunk { frames: chunk };
        proof {
            lemma_log_extend(old(self).generator.log(), entry);
        }
        let ghost gsnap = self.generator;
        let mut j: usize = 0;
        while j < chunk_size
            invariant
                j <= chunk_size,
                self.scratch@ == chunk,
                self.scratch@.len() == chunk_size,
                self.out_samples@ == chunk.take(j as int),
                self.generator == gsnap,
                self.delivered@ == old(self).delivered@,
                self.process_chunk_size == chunk_size,
            decreases chunk_size - j,
        {
            let f = self.scratch[j];
            self.out_samples.push_back(f);
            proof {
                assert(chunk.take(j as int).push(chunk[j as int]) =~= chunk.take(j as int + 1));
            }
            j = j + 1;
        }
        proof {
            assert(chunk.take(chunk_size as int) =~= chunk);
            assert(produced_frames(self.generator.log()) =~= self.delivered@ + self.out_samples@);
        }
    }

    /// The per-invocation protocol of the audio thread, run once per driver
    /// request: first drain the event queue to exhaustion, handing every
    /// event to the generator; then fill every slot of `output` in order,
    /// refilling the chunk FIFO with exactly one `process` call whenever it
    /// runs empty.
    ///
    /// The contract pins the protocol down. The generator's history grows by
    /// the drained events followed by whole chunks — so all MIDI effects
    /// queued at the start of the invocation are applied before any sample
    /// of the invocation is produced. Every slot of `output` is written, the
    /// delivered stream grows by exactly the output buffer, and the number
    /// of `process` calls is exactly the number of refills the request
    /// forces.
    #[verifier::loop_isolation(false)]
    pub fn on_output_data(&mut self, output: &mut Vec<Frame>)
        requires
            old(self).wf(),
        ensures
            final(self).wf(),
            final(self).process_chunk_size == old(self).process_chunk_size,
            final(output)@.len() == old(output)@.len(),
            final(self).delivered@ == old(self).delivered@ + final(output)@,
            exists|calls: Seq<GeneratorCall>| #![auto]
                {
                    &&& final(self).generator.log() == old(self).generator.log() + calls
                    &&& midi_before_chunks(calls)
                    &&& chunks_sized(calls, old(self).process_chunk_size as nat)
                    &&& chunk_count(calls) == refills_needed(
                        old(self).out_samples@.len(),
                        old(output)@.len(),
                        old(self).process_chunk_size as nat,
                    )
                    &&& old(self).out_samples@ + produced_frames(calls) == final(output)@
                        + final(self).out_samples@
                },
    {
        self.drain_midi();
        let ghost es: Seq<MidiEvent> = choose|es: Seq<MidiEvent>| #![auto]
            self.generator.log() == old(self).generator.log() + midi_entries(es);
        proof {
            assert(all_midi(midi_entries(es)));
            lemma_all_midi_produces_nothing(midi_entries(es));
        }
        let ghost d0 = self.delivered@;
        let ghost b1 = self.out_samples@.len() as int;
        let ghost c = self.process_chunk_size as int;
        let ghost mut calls: Seq<GeneratorCall> = midi_entries(es);
        let ghost mut r: int = 0;
        let n = output.len();
        let mut i: usize = 0;
        while i < n
            invariant
                i <= n,
                output@.len() == n,
                self.wf(),
                self.process_chunk_size == old(self).process_chunk_size,
                self.generator.log() == old(self).generator.log() + calls,
                midi_before_chunks(calls),
                chunks_sized(calls, old(self).process_chunk_size as nat),
                chunk_count(calls) == r,
                self.delivered@ == d0 + output@.take(i as int),
                self.out_samples@.len() == b1 + r * c - i,
                0 <= r,
                i <= b1 + r * c,
                r == 0 ==> i <= b1,
                r > 0 ==> i > b1 + (r - 1) * c,
            decreases n - i,
        {
            if self.out_samples.len() == 0 {
                self.refill();
                proof {
                    let entry = GeneratorCall::Chunk { frames: self.out_samples@ };
                    assert((old(self).generator.log() + calls).push(entry) =~= old(
                        self,
                    ).generator.log() + calls.push(entry));
                    lemma_log_extend(calls, entry);
                    assert((r + 1) * c == r * c + c) by (nonlinear_arith);
                    calls = calls.push(entry);
                    r = r + 1;
                }
            }
            let ghost buf = self.out_samples@;
            let ghost dpre = self.delivered@;
            let ghost outpre = output@;
            let popped = self.out_samples.pop_front();
            match popped {
                Some(s) => {
                    output[i] = s;
                    self.delivered = Ghost(dpre.push(s));
                    proof {
                        assert(s == buf[0]);
                        assert(outpre.take(i as int) =~= output@.take(i as int));
                        assert(dpre.push(s) =~= d0 + output@.take(i as int + 1));
                        assert(dpre.push(s) + self.out_samples@ =~= dpre + buf);
                    }
                },
                None => {
                    proof {
                        assert(false);
                    }
                },
            }
            i = i + 1;
        }
        proof {
            assert(output@.take(n as int) =~= output@);
            lemma_refills_unique(b1 as nat, n as nat, c as nat, r);
            lemma_produced_concat(old(self).generator.log(), calls);
            let pre = old(self).out_samples@;
            assert((d0 + pre) + produced_frames(calls) == (d0 + output@) + self.out_samples@);
            assert(pre + produced_frames(calls) =~= ((d0 + pre) + produced_frames(calls)).skip(
                d0.len() as int,
            ));
            assert(output@ + self.out_samples@ =~= ((d0 + output@) + self.out_samples@).skip(
                d0.len() as int,
            ));
        }
    }
}

proof fn lemma_refills_unique(b: nat, n: nat, c: nat, r: int)
    requires
        c >= 1,
        0 <= r,
        n <= b + r * c,
        r == 0 ==> n <= b,
        r > 0 ==> n > b + (r - 1) * c,
    ensures
        r == refills_needed(b, n, c),
{
    if r > 0 {
        let x = n - b;
        assert(x > (r - 1) * c >= 0) by (nonlinear_arith)
            requires
                r >= 1,
                c >= 1,
                n > b + (r - 1) * c,
                x == n - b,
        ;
        let y = x + c - 1;
        assert(y == r * c + (y - r * c));
        assert(0 <= y - r * c < c) by (nonlinear_arith)
            requires
                x > (r - 1) * c,
                x <= r * c,
                y == x + c - 1,
                c >= 1,
        ;
        lemma_fundamental_div_mod_converse(y, c as int, r, y - r * c);
        assert(refills_needed(b, n, c) == y / (c as int));
    }
}

/// Law: in every reachable callback state, the stream of frames the
/// generator has produced equals the frames already delivered to output
/// buffers followed by the frames still waiting in the chunk FIFO. In
/// particular, what has been delivered is a prefix of what was produced, in
/// production order.
pub proof fn lemma_frame_conservation<G: AudioGenerator>(cb: &OutputCallback<G>)
    requires
        cb.wf(),
    ensures
        produced_frames(cb.generator.log()) == cb.delivered@ + cb.out_samples@,
        cb.delivered@ == produced_frames(cb.generator.log()).take(cb.delivered@.len() as int),
{
    assert(cb.delivered@ =~= (cb.delivered@ + cb.out_samples@).take(cb.delivered@.len() as int));
}

} // verus!
