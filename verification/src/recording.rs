//! Threshold-triggered recording: the capture state machine.

use vstd::prelude::*;
use crate::binary32;
use crate::frame::StereoFrame;
use crate::ring::{lemma_retained_twice, retained, PreRollRing};
use crate::sample_buffer::SampleBuffer;
use crate::sample_id::SampleId;

verus! {

/// Bit pattern of 0.02, the peak level above which an armed recording
/// starts to capture.
pub const RECORD_PEAK_THRESHOLD: u32 = 0x3CA3_D70A;

/// The capacity of the pre-roll ring: 150 ms at 44.1 kHz.
pub const PRE_ROLL_FRAMES: usize = 6615;

/// The peak level of a frame: the larger of the magnitudes of its channels.
pub open spec fn peak(frame: StereoFrame) -> u32 {
    binary32::greater(binary32::magnitude_of(frame.left), binary32::magnitude_of(frame.right))
}

/// Whether the frame's peak level exceeds the recording threshold.
pub open spec fn loud(frame: StereoFrame) -> bool {
    binary32::less(RECORD_PEAK_THRESHOLD, peak(frame))
}

/// The index of the first loud frame of `frames`, or their number if none
/// is loud.
pub open spec fn first_loud(frames: Seq<StereoFrame>) -> int
    decreases frames.len(),
{
    if frames.len() == 0 {
        0
    } else if loud(frames[0]) {
        0
    } else {
        1 + first_loud(frames.drop_first())
    }
}

/// The frames of all chunks, in order.
pub open spec fn joined(chunks: Seq<Vec<StereoFrame>>) -> Seq<StereoFrame>
    decreases chunks.len(),
{
    if chunks.len() == 0 {
        Seq::empty()
    } else {
        joined(chunks.drop_last()) + chunks.last()@
    }
}

/// The state of the recording path.
pub enum RecordingState {
    /// Nothing is being recorded.
    Idle,
    /// Waiting for the input to cross the threshold; what has been heard
    /// lately is kept in the pre-roll ring.
    Armed { sample_id: SampleId, pre_roll: PreRollRing },
    /// The threshold was crossed; everything heard is kept.
    Capturing { sample_id: SampleId, buffer: Vec<StereoFrame> },
}

/// The state of the recording path as plain values.
pub ghost enum RecordingModel {
    Idle,
    Armed { sample_id: SampleId, capacity: nat, pre_roll: Seq<StereoFrame> },
    Capturing { sample_id: SampleId, frames: Seq<StereoFrame> },
}

impl View for RecordingState {
    type V = RecordingModel;

    open spec fn view(&self) -> RecordingModel {
        match self {
            RecordingState::Idle => RecordingModel::Idle,
            RecordingState::Armed { sample_id, pre_roll } => RecordingModel::Armed {
                sample_id: *sample_id,
                capacity: pre_roll.capacity(),
                pre_roll: pre_roll@,
            },
            RecordingState::Capturing { sample_id, buffer } => RecordingModel::Capturing {
                sample_id: *sample_id,
                frames: buffer@,
            },
        }
    }
}

/// The state after `input` has been heard in state `state`.
///
/// An idle path ignores its input. An armed path pushes frames into the ring
/// up to the first loud one; from there on it captures, starting from the
/// ring's contents, oldest first, followed by the loud frame and all that
/// come after it. A capturing path appends its input.
pub open spec fn heard(state: RecordingModel, input: Seq<StereoFrame>) -> RecordingModel {
    match state {
        RecordingModel::Idle => RecordingModel::Idle,
        RecordingModel::Armed { sample_id, capacity, pre_roll } => {
            let crossing = first_loud(input);
            if crossing == input.len() {
                RecordingModel::Armed {
                    sample_id,
                    capacity,
                    pre_roll: retained(capacity, pre_roll + input),
                }
            } else {
                RecordingModel::Capturing {
                    sample_id,
                    frames: retained(capacity, pre_roll + input.subrange(0, crossing))
                        + input.subrange(crossing, input.len() as int),
                }
            }
        },
        RecordingModel::Capturing { sample_id, frames } => RecordingModel::Capturing {
            sample_id,
            frames: frames + input,
        },
    }
}

/// What a finished recording registers: the frames captured, or one silent
/// frame where nothing was captured.
pub open spec fn recorded_frames(captured: Seq<StereoFrame>) -> Seq<StereoFrame> {
    if captured.len() == 0 {
        seq![StereoFrame::silence()]
    } else {
        captured
    }
}

/// A recording that has been stopped.
pub struct FinishedRecording {
    /// The identity to register the result under.
    pub sample_id: SampleId,
    /// The result.
    pub buffer: SampleBuffer,
    /// Whether the threshold had been crossed, so that the result is to be
    /// published as a completed recording.
    pub captured: bool,
}

/// The peak level of a frame.
#[verifier::when_used_as_spec(peak)]
pub fn peak_level(frame: StereoFrame) -> (level: u32)
    ensures
        level == peak(frame),
{
    binary32::max(binary32::magnitude(frame.left), binary32::magnitude(frame.right))
}

/// Whether the frame's peak level exceeds the recording threshold.
#[verifier::when_used_as_spec(loud)]
pub fn is_loud(frame: StereoFrame) -> (r: bool)
    ensures
        r == loud(frame),
{
    binary32::lt(RECORD_PEAK_THRESHOLD, peak_level(frame))
}

impl RecordingState {
    /// An armed path with an empty pre-roll ring.
    pub fn armed(sample_id: SampleId) -> (state: RecordingState)
        ensures
            state@ == (RecordingModel::Armed {
                sample_id,
                capacity: PRE_ROLL_FRAMES as nat,
                pre_roll: Seq::empty(),
            }),
    {
        RecordingState::Armed { sample_id, pre_roll: PreRollRing::new(PRE_ROLL_FRAMES) }
    }

    /// Whether the threshold has been crossed and input is being kept.
    pub fn is_capturing(&self) -> (r: bool)
        ensures
            r == (self@ is Capturing),
    {
        match self {
            RecordingState::Capturing { .. } => true,
            _ => false,
        }
    }

    /// The state after one more frame.
    fn hear(self, frame: StereoFrame) -> (next: RecordingState)
        ensures
            next@ == heard(self@, seq![frame]),
    {
        let ghost one = seq![frame];
        match self {
            RecordingState::Idle => RecordingState::Idle,
            RecordingState::Armed { sample_id, pre_roll } => {
                let mut pre_roll = pre_roll;
                proof {
                    reveal_with_fuel(first_loud, 2);
                    assert(one.drop_first() =~= Seq::<StereoFrame>::empty());
                    assert(first_loud(one) == if loud(frame) { 0int } else { 1int });
                }
                if is_loud(frame) {
                    let mut buffer = pre_roll.drain_ordered();
                    buffer.push(frame);
                    proof {
                        assert(pre_roll@ + one.subrange(0, 0) =~= pre_roll@);
                        assert(one.subrange(0, 1) =~= one);
                        assert(buffer@ =~= pre_roll@ + one);
                    }
                    RecordingState::Capturing { sample_id, buffer }
                } else {
                    proof {
                        assert(pre_roll@ + one =~= pre_roll@.push(frame));
                    }
                    pre_roll.push(frame);
                    RecordingState::Armed { sample_id, pre_roll }
                }
            },
            RecordingState::Capturing { sample_id, buffer } => {
                let mut buffer = buffer;
                buffer.push(frame);
                proof {
                    assert(buffer@ =~= self@->Capturing_frames + one);
                }
                RecordingState::Capturing { sample_id, buffer }
            },
        }
    }

    /// Hears the chunks in order.
    pub fn feed(&mut self, chunks: &Vec<Vec<StereoFrame>>)
        ensures
            final(self)@ == heard(old(self)@, joined(chunks@)),
    {
        let mut state = RecordingState::Idle;
        std::mem::swap(self, &mut state);
        let ghost start = state@;
        match &state {
            RecordingState::Armed { pre_roll, .. } => {
                let held = pre_roll.len();
                assert(held <= pre_roll.capacity());
            },
            _ => {},
        }
        proof {
            lemma_heard_nothing(start);
            assert(chunks@.subrange(0, 0) =~= Seq::<Vec<StereoFrame>>::empty());
        }
        let mut c: usize = 0;
        while c < chunks.len()
            invariant
                c <= chunks.len(),
                state@ == heard(start, joined(chunks@.subrange(0, c as int))),
            decreases chunks.len() - c,
        {
            let chunk = &chunks[c];
            let ghost before = joined(chunks@.subrange(0, c as int));
            let mut i: usize = 0;
            proof {
                assert(before + chunk@.subrange(0, 0) =~= before);
            }
            while i < chunk.len()
                invariant
                    i <= chunk.len(),
                    state@ == heard(start, before + chunk@.subrange(0, i as int)),
                decreases chunk.len() - i,
            {
                let ghost seen = before + chunk@.subrange(0, i as int);
                state = state.hear(chunk[i]);
                proof {
                    lemma_heard_in_parts(start, seen, seq![chunk@[i as int]]);
                    assert(seen + seq![chunk@[i as int]] =~= before + chunk@.subrange(
                        0,
                        i + 1,
                    ));
                }
                i += 1;
            }
            proof {
                assert(chunk@.subrange(0, chunk.len() as int) =~= chunk@);
                assert(chunks@.subrange(0, c + 1).drop_last() =~= chunks@.subrange(0, c as int));
            }
            c += 1;
        }
        proof {
            assert(chunks@.subrange(0, chunks.len() as int) =~= chunks@);
        }
        *self = state;
    }

    /// Stops the recording and leaves the path idle. An idle path has
    /// nothing to finish. An armed path, which never heard a loud frame,
    /// yields one silent frame. A capturing path yields what it captured, or
    /// one silent frame if that is nothing.
    pub fn finish(&mut self) -> (finished: Option<FinishedRecording>)
        ensures
            final(self)@ == RecordingModel::Idle,
            match old(self)@ {
                RecordingModel::Idle => finished.is_none(),
                RecordingModel::Armed { sample_id, .. } => {
                    &&& finished.is_some()
                    &&& finished.unwrap().sample_id == sample_id
                    &&& finished.unwrap().buffer@ == seq![StereoFrame::silence()]
                    &&& !finished.unwrap().captured
                },
                RecordingModel::Capturing { sample_id, frames } => {
                    &&& finished.is_some()
                    &&& finished.unwrap().sample_id == sample_id
                    &&& finished.unwrap().buffer@ == recorded_frames(frames)
                    &&& finished.unwrap().captured
                },
            },
    {
        let mut state = RecordingState::Idle;
        std::mem::swap(self, &mut state);
        match state {
            RecordingState::Idle => None,
            RecordingState::Armed { sample_id, .. } => {
                let mut frames: Vec<StereoFrame> = Vec::new();
                frames.push(StereoFrame::zero());
                assert(frames@ =~= seq![StereoFrame::silence()]);
                Some(
                    FinishedRecording {
                        sample_id,
                        buffer: SampleBuffer::from_frames(frames),
                        captured: false,
                    },
                )
            },
            RecordingState::Capturing { sample_id, buffer } => {
                let mut frames = buffer;
                if frames.len() == 0 {
                    frames.push(StereoFrame::zero());
                    assert(frames@ =~= seq![StereoFrame::silence()]);
                }
                Some(
                    FinishedRecording {
                        sample_id,
                        buffer: SampleBuffer::from_frames(frames),
                        captured: true,
                    },
                )
            },
        }
    }
}

/// Hearing nothing changes nothing, as long as an armed ring holds no more
/// than its capacity.
pub proof fn lemma_heard_nothing(state: RecordingModel)
    ensures
        heard(state, Seq::empty()) == match state {
            RecordingModel::Armed { sample_id, capacity, pre_roll } => RecordingModel::Armed {
                sample_id,
                capacity,
                pre_roll: retained(capacity, pre_roll),
            },
            _ => state,
        },
{
    match state {
        RecordingModel::Armed { sample_id, capacity, pre_roll } => {
            assert(pre_roll + Seq::<StereoFrame>::empty() =~= pre_roll);
        },
        RecordingModel::Capturing { sample_id, frames } => {
            assert(frames + Seq::<StereoFrame>::empty() =~= frames);
        },
        RecordingModel::Idle => {},
    }
}

/// Where the first loud frame of two runs of input lies: in the first run
/// if it has one, else as far into the second as that run's first.
pub proof fn lemma_first_loud_concat(a: Seq<StereoFrame>, b: Seq<StereoFrame>)
    ensures
        0 <= first_loud(a) <= a.len(),
        first_loud(a) < a.len() ==> first_loud(a + b) == first_loud(a),
        first_loud(a) == a.len() ==> first_loud(a + b) == a.len() + first_loud(b),
    decreases a.len(),
{
    if a.len() == 0 {
        assert(a + b =~= b);
    } else {
        lemma_first_loud_concat(a.drop_first(), b);
        assert((a + b).drop_first() =~= a.drop_first() + b);
        assert((a + b)[0] == a[0]);
    }
}

/// The first loud frame is loud and none before it is.
pub proof fn lemma_first_loud(frames: Seq<StereoFrame>)
    ensures
        0 <= first_loud(frames) <= frames.len(),
        first_loud(frames) < frames.len() ==> loud(frames[first_loud(frames)]),
        forall|i: int| 0 <= i < first_loud(frames) ==> !loud(#[trigger] frames[i]),
    decreases frames.len(),
{
    if frames.len() > 0 && !loud(frames[0]) {
        lemma_first_loud(frames.drop_first());
        assert forall|i: int| 0 <= i < first_loud(frames) implies !loud(
            #[trigger] frames[i],
        ) by {
            if i > 0 {
                assert(frames[i] == frames.drop_first()[i - 1]);
            }
        }
    }
}

/// Chunk boundaries do not matter: hearing `a` and then `b` leaves the path
/// where hearing both at once does.
pub proof fn lemma_heard_in_parts(state: RecordingModel, a: Seq<StereoFrame>, b: Seq<StereoFrame>)
    ensures
        heard(heard(state, a), b) == heard(state, a + b),
{
    match state {
        RecordingModel::Idle => {},
        RecordingModel::Capturing { sample_id, frames } => {
            assert((frames + a) + b =~= frames + (a + b));
        },
        RecordingModel::Armed { sample_id, capacity, pre_roll } => {
            lemma_first_loud_concat(a, b);
            lemma_first_loud_concat(b, Seq::empty());
            let ka = first_loud(a);
            if ka < a.len() {
                assert((a + b).subrange(0, ka) =~= a.subrange(0, ka));
                assert(a.subrange(ka, a.len() as int) + b =~= (a + b).subrange(
                    ka,
                    (a + b).len() as int,
                ));
                let head = retained(capacity, pre_roll + a.subrange(0, ka));
                assert((head + a.subrange(ka, a.len() as int)) + b =~= head + (a.subrange(
                    ka,
                    a.len() as int,
                ) + b));
            } else {
                let kb = first_loud(b);
                let ring = retained(capacity, pre_roll + a);
                if kb == b.len() {
                    lemma_retained_twice(capacity, pre_roll + a, b);
                    assert((pre_roll + a) + b =~= pre_roll + (a + b));
                } else {
                    lemma_retained_twice(capacity, pre_roll + a, b.subrange(0, kb));
                    assert((pre_roll + a) + b.subrange(0, kb) =~= pre_roll + (a + b).subrange(
                        0,
                        a.len() + kb,
                    ));
                    assert(b.subrange(kb, b.len() as int) =~= (a + b).subrange(
                        a.len() + kb,
                        (a + b).len() as int,
                    ));
                }
            }
        },
    }
}

/// What a recording captures. A path is armed with an empty ring of
/// capacity `capacity`; it hears `quiet`, in which no frame is loud; then a
/// chunk whose first loud frame is at index `crossing`; then `later`. What it
/// has captured by then is the last `capacity` frames heard before the loud
/// one, oldest first, followed by the chunk from the loud frame on, followed
/// by `later` as it came.
pub proof fn lemma_capture_layout(
    sample_id: SampleId,
    capacity: nat,
    quiet: Seq<StereoFrame>,
    chunk: Seq<StereoFrame>,
    crossing: int,
    later: Seq<StereoFrame>,
)
    requires
        first_loud(quiet) == quiet.len(),
        first_loud(chunk) == crossing,
        0 <= crossing < chunk.len(),
    ensures
        heard(
            heard(
                heard(RecordingModel::Armed { sample_id, capacity, pre_roll: Seq::empty() }, quiet),
                chunk,
            ),
            later,
        ) == (RecordingModel::Capturing {
            sample_id,
            frames: retained(capacity, quiet + chunk.subrange(0, crossing)) + chunk.subrange(
                crossing,
                chunk.len() as int,
            ) + later,
        }),
{
    let armed = RecordingModel::Armed { sample_id, capacity, pre_roll: Seq::empty() };
    lemma_heard_in_parts(armed, quiet, chunk);
    lemma_first_loud_concat(quiet, chunk);
    let both = quiet + chunk;
    assert(Seq::<StereoFrame>::empty() + both.subrange(0, quiet.len() + crossing) =~= quiet
        + chunk.subrange(0, crossing));
    assert(both.subrange(quiet.len() + crossing, both.len() as int) =~= chunk.subrange(
        crossing,
        chunk.len() as int,
    ));
}

} // verus!
