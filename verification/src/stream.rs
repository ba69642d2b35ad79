//! The streaming body reader: what is pushed to the frontend while a response
//! body is drained, one decision per event.
//!
//! A data frame is the chunk followed by a marker byte; the end of the stream
//! is a frame of its own, one byte long, that no data frame can equal.

use vstd::prelude::*;

verus! {

/// Marker byte appended to every data frame.
pub const DATA_MARKER: u8 = 0;

/// The single byte of the end-of-stream frame.
pub const END_MARKER: u8 = 1;

/// One thing that can happen while a body is drained.
#[derive(Debug, Clone)]
pub enum DrainInput {
    /// The body produced a chunk of bytes.
    Data(Vec<u8>),
    /// The body produced a frame without bytes (trailer headers).
    Trailers,
    /// The body produced a frame that could not be decoded.
    Malformed,
    /// The body is exhausted.
    End,
    /// The push channel refused the frame that was pushed last.
    PushFailed,
    /// The cancellation signal fired.
    Cancel,
}

/// Where a drain stands.
#[derive(Debug, Clone, Copy, PartialEq, Eq, Structural)]
pub enum DrainPhase {
    /// Frames are still being pulled from the body.
    Reading,
    /// The drain is over and the end frame has been handed out.
    Finished,
    /// The drain was canceled; nothing more is pushed.
    Canceled,
}

/// The frame that carries `chunk`.
pub open spec fn data_frame(chunk: Seq<u8>) -> Seq<u8> {
    chunk.push(DATA_MARKER)
}

/// The frame that marks the end of the stream.
pub open spec fn end_frame() -> Seq<u8> {
    seq![END_MARKER]
}

/// The phase after `input` arrives in phase `phase`.
pub open spec fn next_phase(phase: DrainPhase, input: DrainInput) -> DrainPhase {
    match phase {
        DrainPhase::Reading => match input {
            DrainInput::Data(_) => DrainPhase::Reading,
            DrainInput::Trailers => DrainPhase::Reading,
            DrainInput::Malformed => DrainPhase::Finished,
            DrainInput::End => DrainPhase::Finished,
            DrainInput::PushFailed => DrainPhase::Finished,
            DrainInput::Cancel => DrainPhase::Canceled,
        },
        DrainPhase::Finished => DrainPhase::Finished,
        DrainPhase::Canceled => DrainPhase::Canceled,
    }
}

/// The frame to push, if any, when `input` arrives in phase `phase`.
pub open spec fn frame_for(phase: DrainPhase, input: DrainInput) -> Option<Seq<u8>> {
    match phase {
        DrainPhase::Reading => match input {
            DrainInput::Data(chunk) => Some(data_frame(chunk@)),
            DrainInput::Trailers => None,
            DrainInput::Malformed => Some(end_frame()),
            DrainInput::End => Some(end_frame()),
            DrainInput::PushFailed => Some(end_frame()),
            DrainInput::Cancel => None,
        },
        DrainPhase::Finished => None,
        DrainPhase::Canceled => None,
    }
}

/// Everything that is pushed, in order, when `inputs` arrive one after the
/// other, starting in phase `phase`.
pub open spec fn frames_of(phase: DrainPhase, inputs: Seq<DrainInput>) -> Seq<Seq<u8>>
    decreases inputs.len(),
{
    if inputs.len() == 0 {
        Seq::empty()
    } else {
        let rest = frames_of(next_phase(phase, inputs[0]), inputs.drop_first());
        match frame_for(phase, inputs[0]) {
            Some(frame) => seq![frame] + rest,
            None => rest,
        }
    }
}

/// The phase reached when `inputs` have arrived, starting in phase `phase`.
pub open spec fn phase_after(phase: DrainPhase, inputs: Seq<DrainInput>) -> DrainPhase
    decreases inputs.len(),
{
    if inputs.len() == 0 {
        phase
    } else {
        phase_after(next_phase(phase, inputs[0]), inputs.drop_first())
    }
}

/// The data frames of the chunks among `inputs`, in order.
pub open spec fn data_frames(inputs: Seq<DrainInput>) -> Seq<Seq<u8>>
    decreases inputs.len(),
{
    if inputs.len() == 0 {
        Seq::empty()
    } else {
        let rest = data_frames(inputs.drop_first());
        match inputs[0] {
            DrainInput::Data(chunk) => seq![data_frame(chunk@)] + rest,
            _ => rest,
        }
    }
}

/// Whether `input` is a chunk or a trailer frame, after which the drain goes on.
pub open spec fn keeps_reading(input: DrainInput) -> bool {
    input is Data || input is Trailers
}

/// Whether `input` ends a drain with the end frame.
pub open spec fn ends_stream(input: DrainInput) -> bool {
    input is Malformed || input is End || input is PushFailed
}

/// The contents of each frame of `frames`.
pub open spec fn frame_views(frames: Seq<Vec<u8>>) -> Seq<Seq<u8>> {
    Seq::new(frames.len(), |i: int| frames[i]@)
}

/// Frames one body chunk: the chunk followed by the data marker.
pub fn encode_data_frame(chunk: Vec<u8>) -> (frame: Vec<u8>)
    ensures
        frame@ == data_frame(chunk@),
{
    let mut frame = chunk;
    frame.push(DATA_MARKER);
    frame
}

/// The end-of-stream frame.
pub fn encode_end_frame() -> (frame: Vec<u8>)
    ensures
        frame@ == end_frame(),
{
    let mut frame = Vec::new();
    frame.push(END_MARKER);
    assert(frame@ =~= end_frame());
    frame
}

/// The state of one drain.
#[derive(Debug)]
pub struct StreamReader {
    phase: DrainPhase,
}

impl StreamReader {
    /// The phase the drain is in.
    pub closed spec fn phase(&self) -> DrainPhase {
        self.phase
    }

    /// A drain that has not pulled anything yet.
    pub fn new() -> (reader: Self)
        ensures
            reader.phase() == DrainPhase::Reading,
    {
        StreamReader { phase: DrainPhase::Reading }
    }

    /// The phase the drain is in.
    pub fn current_phase(&self) -> (phase: DrainPhase)
        ensures
            phase == self.phase(),
    {
        self.phase
    }

    /// Whether the caller should pull another frame from the body.
    pub fn wants_more(&self) -> (b: bool)
        ensures
            b == (self.phase() == DrainPhase::Reading),
    {
        self.phase == DrainPhase::Reading
    }

    /// Takes note of `input` and says which frame, if any, to push for it.
    pub fn feed(&mut self, input: DrainInput) -> (frame: Option<Vec<u8>>)
        ensures
            final(self).phase() == next_phase(old(self).phase(), input),
            match frame_for(old(self).phase(), input) {
                Some(bytes) => frame is Some && frame->0@ == bytes,
                None => frame is None,
            },
    {
        match self.phase {
            DrainPhase::Reading => match input {
                DrainInput::Data(chunk) => Some(encode_data_frame(chunk)),
                DrainInput::Trailers => None,
                DrainInput::Malformed | DrainInput::End | DrainInput::PushFailed => {
                    self.phase = DrainPhase::Finished;
                    Some(encode_end_frame())
                },
                DrainInput::Cancel => {
                    self.phase = DrainPhase::Canceled;
                    None
                },
            },
            DrainPhase::Finished => None,
            DrainPhase::Canceled => None,
        }
    }

    /// Takes note of `inputs`, one after the other, and returns the frames to
    /// push for them, in order.
    pub fn feed_all(&mut self, inputs: Vec<DrainInput>) -> (frames: Vec<Vec<u8>>)
        ensures
            final(self).phase() == phase_after(old(self).phase(), inputs@),
            frame_views(frames@) == frames_of(old(self).phase(), inputs@),
    {
        let ghost start = self.phase;
        let ghost all = inputs@;
        let mut frames: Vec<Vec<u8>> = Vec::new();
        assert(all.skip(0) =~= all);
        assert(frame_views(frames@) + frames_of(start, all) =~= frames_of(start, all));
        for input in it: inputs.into_iter()
            invariant
                it.seq() == all,
                frame_views(frames@) + frames_of(self.phase, all.skip(it.index() as int))
                    == frames_of(start, all),
                phase_after(self.phase, all.skip(it.index() as int)) == phase_after(start, all),
        {
            let ghost rest = all.skip(it.index() as int);
            let ghost before = frame_views(frames@);
            assert(rest[0] == input);
            assert(rest.drop_first() =~= all.skip(it.index() + 1));
            match self.feed(input) {
                Some(frame) => {
                    frames.push(frame);
                    assert(frame_views(frames@) =~= before.push(frame@));
                    assert(before.push(frame@) + frames_of(self.phase, rest.drop_first()) =~= before
                        + (seq![frame@] + frames_of(self.phase, rest.drop_first())));
                },
                None => {},
            }
        }
        assert(all.skip(all.len() as int) =~= Seq::<DrainInput>::empty());
        assert(frame_views(frames@) + Seq::<Seq<u8>>::empty() =~= frame_views(frames@));
        frames
    }
}

/// A data frame is never the end frame, whatever the chunk holds.
pub proof fn lemma_data_frame_is_not_end_frame(chunk: Seq<u8>)
    ensures
        data_frame(chunk) != end_frame(),
{
    let f = data_frame(chunk);
    assert(f[f.len() - 1] == DATA_MARKER);
    assert(end_frame()[end_frame().len() - 1] == END_MARKER);
}

/// Once a drain is over or canceled, nothing more is pushed and the phase stays.
pub proof fn lemma_nothing_after_the_end(phase: DrainPhase, inputs: Seq<DrainInput>)
    requires
        phase != DrainPhase::Reading,
    ensures
        frames_of(phase, inputs) == Seq::<Seq<u8>>::empty(),
        phase_after(phase, inputs) == phase,
    decreases inputs.len(),
{
    if inputs.len() > 0 {
        lemma_nothing_after_the_end(phase, inputs.drop_first());
    }
}

/// While only chunks and trailer frames arrive, exactly the data frames of the
/// chunks are pushed, in the order in which the body produced them.
pub proof fn lemma_chunks_in_order(inputs: Seq<DrainInput>)
    requires
        forall|i: int| 0 <= i < inputs.len() ==> keeps_reading(#[trigger] inputs[i]),
    ensures
        frames_of(DrainPhase::Reading, inputs) == data_frames(inputs),
        phase_after(DrainPhase::Reading, inputs) == DrainPhase::Reading,
    decreases inputs.len(),
{
    if inputs.len() > 0 {
        let rest = inputs.drop_first();
        assert(keeps_reading(inputs[0]));
        assert forall|i: int| 0 <= i < rest.len() implies keeps_reading(#[trigger] rest[i]) by {
            assert(rest[i] == inputs[i + 1]);
        }
        lemma_chunks_in_order(rest);
    }
}

/// What is pushed for a single input is the frame chosen for it.
pub proof fn lemma_frames_of_one(phase: DrainPhase, input: DrainInput)
    ensures
        frames_of(phase, seq![input]) == match frame_for(phase, input) {
            Some(frame) => seq![frame],
            None => Seq::<Seq<u8>>::empty(),
        },
{
    reveal_with_fuel(frames_of, 2);
    assert(seq![input].drop_first() =~= Seq::<DrainInput>::empty());
    assert(frames_of(phase, seq![input]) =~= match frame_for(phase, input) {
        Some(frame) => seq![frame],
        None => Seq::<Seq<u8>>::empty(),
    });
}

/// What is pushed for `before + [input] + after` is what is pushed for
/// `before`, then for `input`, then for `after`, each from the phase reached.
pub proof fn lemma_frames_split(
    phase: DrainPhase,
    before: Seq<DrainInput>,
    input: DrainInput,
    after: Seq<DrainInput>,
)
    ensures
        frames_of(phase, before + seq![input] + after) == frames_of(phase, before) + frames_of(
            phase_after(phase, before),
            seq![input],
        ) + frames_of(next_phase(phase_after(phase, before), input), after),
        phase_after(phase, before + seq![input] + after) == phase_after(
            next_phase(phase_after(phase, before), input),
            after,
        ),
    decreases before.len(),
{
    let all = before + seq![input] + after;
    if before.len() == 0 {
        assert(all.drop_first() =~= after);
        assert(all[0] == input);
        lemma_frames_of_one(phase, input);
        assert(frames_of(phase, all) =~= frames_of(phase, before) + frames_of(phase, seq![input])
            + frames_of(next_phase(phase, input), after));
    } else {
        let rest = before.drop_first();
        assert(all.drop_first() =~= rest + seq![input] + after);
        assert(all[0] == before[0]);
        lemma_frames_split(next_phase(phase, before[0]), rest, input, after);
        assert(frames_of(phase, all) =~= frames_of(phase, before) + frames_of(
            phase_after(phase, before),
            seq![input],
        ) + frames_of(next_phase(phase_after(phase, before), input), after));
    }
}

/// A drain that is not canceled pushes the data frames of the chunks in the
/// order in which the body produced them, and then the end frame, which is the
/// last frame whatever arrives afterwards.
pub proof fn lemma_end_frame_is_last(
    chunks: Seq<DrainInput>,
    stop: DrainInput,
    later: Seq<DrainInput>,
)
    requires
        forall|i: int| 0 <= i < chunks.len() ==> keeps_reading(#[trigger] chunks[i]),
        ends_stream(stop),
    ensures
        frames_of(DrainPhase::Reading, chunks + seq![stop] + later) == data_frames(chunks).push(
            end_frame(),
        ),
        phase_after(DrainPhase::Reading, chunks + seq![stop] + later) == DrainPhase::Finished,
{
    lemma_frames_split(DrainPhase::Reading, chunks, stop, later);
    lemma_chunks_in_order(chunks);
    lemma_nothing_after_the_end(DrainPhase::Finished, later);
    lemma_frames_of_one(DrainPhase::Reading, stop);
    assert(data_frames(chunks) + seq![end_frame()] + Seq::<Seq<u8>>::empty() =~= data_frames(
        chunks,
    ).push(end_frame()));
}

/// Every frame among the data frames of `inputs` differs from the end frame.
pub proof fn lemma_data_frames_hold_no_end_frame(inputs: Seq<DrainInput>)
    ensures
        !data_frames(inputs).contains(end_frame()),
    decreases inputs.len(),
{
    if inputs.len() > 0 {
        lemma_data_frames_hold_no_end_frame(inputs.drop_first());
        let rest = data_frames(inputs.drop_first());
        match inputs[0] {
            DrainInput::Data(chunk) => {
                lemma_data_frame_is_not_end_frame(chunk@);
                let all = seq![data_frame(chunk@)] + rest;
                assert forall|i: int| 0 <= i < all.len() implies all[i] != end_frame() by {
                    if i > 0 {
                        assert(all[i] == rest[i - 1]);
                        assert(rest.contains(rest[i - 1]));
                    }
                }
            },
            _ => {},
        }
    }
}

/// A drain that is canceled while it reads never pushes the end frame: what it
/// pushed are the data frames of the chunks that came before the cancellation,
/// and nothing is pushed after it.
pub proof fn lemma_canceled_drain_has_no_end_frame(
    chunks: Seq<DrainInput>,
    later: Seq<DrainInput>,
)
    requires
        forall|i: int| 0 <= i < chunks.len() ==> keeps_reading(#[trigger] chunks[i]),
    ensures
        frames_of(DrainPhase::Reading, chunks + seq![DrainInput::Cancel] + later) == data_frames(
            chunks,
        ),
        !frames_of(DrainPhase::Reading, chunks + seq![DrainInput::Cancel] + later).contains(
            end_frame(),
        ),
        phase_after(DrainPhase::Reading, chunks + seq![DrainInput::Cancel] + later)
            == DrainPhase::Canceled,
{
    let cancel = DrainInput::Cancel;
    lemma_frames_split(DrainPhase::Reading, chunks, cancel, later);
    lemma_chunks_in_order(chunks);
    lemma_nothing_after_the_end(DrainPhase::Canceled, later);
    lemma_data_frames_hold_no_end_frame(chunks);
    lemma_frames_of_one(DrainPhase::Reading, cancel);
    assert(data_frames(chunks) + Seq::<Seq<u8>>::empty() + Seq::<Seq<u8>>::empty() =~= data_frames(
        chunks,
    ));
}

} // verus!
