//! The engine: sample registry, active voices, mixing and recording.

use std::collections::HashMap;
use vstd::prelude::*;
use crate::command::{AudioCommand, CommandModel, TriggerModel};
use crate::effect::{build_chain, chain_processed, effects_of, process_chain, Effect};
use crate::frame::StereoFrame;
use crate::math::{is_count, is_sum, SampleMath};
use crate::recording::{
    heard, joined, recorded_frames, FinishedRecording, RecordingModel, RecordingState,
    PRE_ROLL_FRAMES,
};
use crate::sample_buffer::SampleBuffer;
use crate::sample_id::SampleId;
use crate::voice::{advanced, rendered, repositioned, Voice};
use crate::binary32;

verus! {

/// The length the scratch block starts with.
pub const TEMP_BUF_CAP: usize = 8192;

/// The capacity of the command queue, and the most commands taken from it
/// for one block.
pub const COMMAND_QUEUE_CAPACITY: usize = 1024;

/// The capacity of the input queue, and the most chunks taken from it in one
/// go.
pub const INPUT_QUEUE_CAPACITY: usize = 2048;

/// The capacity of the queue of completed recordings.
pub const COMPLETED_QUEUE_CAPACITY: usize = 16;

/// `crossbeam_channel::Receiver`, the receiving end of a queue. Nothing is
/// known of what is inside.
#[verifier::external_type_specification]
#[verifier::external_body]
#[verifier::reject_recursive_types(T)]
pub struct ExReceiver<T>(crossbeam_channel::Receiver<T>);

/// `crossbeam_channel::Sender`, the sending end of a queue. Nothing is known
/// of what is inside.
#[verifier::external_type_specification]
#[verifier::external_body]
#[verifier::reject_recursive_types(T)]
pub struct ExSender<T>(crossbeam_channel::Sender<T>);

/// A voice, the sample it reads and its own chain of processors.
pub struct ActiveVoice {
    pub voice: Voice,
    pub sample_id: SampleId,
    pub effect_chain: Vec<Effect>,
}

/// An active voice as plain values.
pub ghost struct ActiveVoiceModel {
    pub voice: Voice,
    pub sample_id: SampleId,
    pub effect_chain: Seq<Effect>,
}

impl View for ActiveVoice {
    type V = ActiveVoiceModel;

    open spec fn view(&self) -> ActiveVoiceModel {
        ActiveVoiceModel {
            voice: self.voice,
            sample_id: self.sample_id,
            effect_chain: self.effect_chain@,
        }
    }
}

/// A finished capture, handed to whoever stores it.
pub struct CompletedRecording {
    pub sample_id: SampleId,
    pub buffer: SampleBuffer,
}

impl CompletedRecording {
    /// What is offered to the completion queue for a finished capture: its
    /// frames under its identity.
    pub fn of(finished: &FinishedRecording) -> (completed: CompletedRecording)
        ensures
            completed.sample_id == finished.sample_id,
            completed.buffer@ == finished.buffer@,
    {
        CompletedRecording { sample_id: finished.sample_id, buffer: finished.buffer.clone() }
    }
}

/// The engine. It is owned and changed by the audio callback alone.
pub struct Engine {
    samples: HashMap<u64, SampleBuffer>,
    active: Vec<ActiveVoice>,
    temp_buf: Vec<StereoFrame>,
    recording: RecordingState,
    input_rx: Option<crossbeam_channel::Receiver<Vec<StereoFrame>>>,
    completed_tx: Option<crossbeam_channel::Sender<CompletedRecording>>,
}

/// The engine's state as plain values.
pub ghost struct EngineModel {
    /// The frames registered under each identity's number.
    pub registry: Map<u64, Seq<StereoFrame>>,
    /// The voices, in the order of their triggers.
    pub voices: Seq<ActiveVoiceModel>,
    /// The recording path.
    pub recording: RecordingModel,
}

impl View for Engine {
    type V = EngineModel;

    closed spec fn view(&self) -> EngineModel {
        EngineModel {
            registry: registry_of(self.samples@),
            voices: self.active@.map_values(|a: ActiveVoice| a@),
            recording: self.recording@,
        }
    }
}

/// The frames registered under each key of a map of buffers.
pub open spec fn registry_of(samples: Map<u64, SampleBuffer>) -> Map<u64, Seq<StereoFrame>> {
    Map::new(|k: u64| samples.contains_key(k), |k: u64| samples[k]@)
}

/// Whether `started` is the voice that a trigger with parameters `params`
/// starts: active, with no frame written yet, the trigger's parameters and a
/// fresh chain of the processors it names. A forward voice starts at
/// position zero, a reverse voice at the last frame of its window.
pub open spec fn triggered<M: SampleMath>(
    math: &M,
    params: TriggerModel,
    started: ActiveVoiceModel,
) -> bool {
    &&& started.sample_id == params.sample_id
    &&& started.effect_chain == effects_of(params.effect_chain)
    &&& started.voice.active
    &&& started.voice.frames_rendered == 0
    &&& started.voice.trim_start == params.trim_start
    &&& started.voice.length == params.length
    &&& started.voice.pitch == params.pitch
    &&& started.voice.gain == params.gain
    &&& started.voice.reverse == params.reverse
    &&& started.voice.stutter_period == params.stutter_period_samples
    &&& !params.reverse || params.length == 0 ==> started.voice.pos == binary32::ZERO
    &&& params.reverse && params.length > 0 ==> is_count(
        math,
        (params.length - 1) as usize,
        started.voice.pos,
    )
}

/// The index of the voice most recently triggered on `sample_id` that is
/// still active, or -1 if there is none.
pub open spec fn last_active(voices: Seq<ActiveVoiceModel>, sample_id: SampleId) -> int
    decreases voices.len(),
{
    if voices.len() == 0 {
        -1
    } else if voices.last().sample_id == sample_id && voices.last().voice.active {
        voices.len() - 1
    } else {
        last_active(voices.drop_last(), sample_id)
    }
}

/// `voice` with its voice stopped.
pub open spec fn silenced(voice: ActiveVoiceModel) -> ActiveVoiceModel {
    ActiveVoiceModel { voice: voice.voice.stopped(), ..voice }
}

/// Whether an engine in state `before` that handles `cmd` may be in state
/// `after`.
///
/// Registering a sample puts its frames into the registry. A trigger on a
/// registered sample appends a voice; on an unregistered one it does
/// nothing. Setting the playback position moves the cursor of the voice
/// that [`last_active`] names, as [`repositioned`] says, and of no other. Stopping all voices stops
/// each and removes none. Starting a recording arms the path with an empty
/// ring, whatever it was doing. Stopping a recording leaves the path idle
/// and registers what [`recorded_frames`] says for a capturing path, one
/// silent frame for an armed one.
pub open spec fn handled<M: SampleMath>(
    math: &M,
    before: EngineModel,
    cmd: CommandModel,
    after: EngineModel,
) -> bool {
    match cmd {
        CommandModel::RegisterSample { id, frames } => after == (EngineModel {
            registry: before.registry.insert(id.0, frames),
            ..before
        }),
        CommandModel::Trigger(params) => if before.registry.contains_key(params.sample_id.0) {
            &&& after.registry == before.registry
            &&& after.recording == before.recording
            &&& after.voices.len() == before.voices.len() + 1
            &&& after.voices.drop_last() == before.voices
            &&& triggered(math, params, after.voices.last())
        } else {
            after == before
        },
        CommandModel::SetPlaybackPosition { sample_id, position } => {
            let target = last_active(before.voices, sample_id);
            &&& after.registry == before.registry
            &&& after.recording == before.recording
            &&& after.voices.len() == before.voices.len()
            &&& forall|i: int|
                0 <= i < before.voices.len() && i != target ==> after.voices[i]
                    == before.voices[i]
            &&& 0 <= target ==> {
                &&& after.voices[target].sample_id == sample_id
                &&& after.voices[target].effect_chain == before.voices[target].effect_chain
                &&& repositioned(
                    math,
                    before.voices[target].voice,
                    position,
                    after.voices[target].voice,
                )
            }
        },
        CommandModel::StopAllVoices => after == (EngineModel {
            voices: before.voices.map_values(|v: ActiveVoiceModel| silenced(v)),
            ..before
        }),
        CommandModel::StartRecording { sample_id } => after == (EngineModel {
            recording: RecordingModel::Armed {
                sample_id,
                capacity: PRE_ROLL_FRAMES as nat,
                pre_roll: Seq::empty(),
            },
            ..before
        }),
        CommandModel::StopRecording => match before.recording {
            RecordingModel::Idle => after == before,
            RecordingModel::Armed { sample_id, .. } => after == (EngineModel {
                registry: before.registry.insert(sample_id.0, seq![StereoFrame::silence()]),
                recording: RecordingModel::Idle,
                ..before
            }),
            RecordingModel::Capturing { sample_id, frames } => after == (EngineModel {
                registry: before.registry.insert(sample_id.0, recorded_frames(frames)),
                recording: RecordingModel::Idle,
                ..before
            }),
        },
    }
}

/// Whether a voice sounds in the next block: it is active and its sample is
/// registered.
pub open spec fn audible(engine: EngineModel, voice: ActiveVoiceModel) -> bool {
    voice.voice.active && engine.registry.contains_key(voice.sample_id.0)
}

/// Whether `after` is what rendering one block of `block_len` frames makes
/// of the voice `before`. A voice that sounds moves on as [`advanced`] says;
/// any other is left as it is.
pub open spec fn played_on(
    engine: EngineModel,
    before: ActiveVoiceModel,
    after: ActiveVoiceModel,
    block_len: nat,
) -> bool {
    &&& after.sample_id == before.sample_id
    &&& after.effect_chain == before.effect_chain
    &&& if audible(engine, before) {
        advanced(
            before.voice,
            engine.registry[before.sample_id.0].len(),
            after.voice,
            block_len,
        )
    } else {
        after.voice == before.voice
    }
}

/// Whether `played` is what rendering one block of `block_len` frames makes
/// of the engine's voices, one for one.
pub open spec fn mixed(engine: EngineModel, played: Seq<ActiveVoiceModel>, block_len: nat) -> bool {
    &&& played.len() == engine.voices.len()
    &&& forall|i: int|
        0 <= i < played.len() ==> played_on(engine, engine.voices[i], #[trigger] played[i], block_len)
}

/// The voices that are still active, in order.
pub open spec fn surviving(voices: Seq<ActiveVoiceModel>) -> Seq<ActiveVoiceModel>
    decreases voices.len(),
{
    if voices.len() == 0 {
        Seq::empty()
    } else if voices.last().voice.active {
        surviving(voices.drop_last()).push(voices.last())
    } else {
        surviving(voices.drop_last())
    }
}

/// The engine's state after its recording path has heard `input`.
pub open spec fn fed(before: EngineModel, input: Seq<StereoFrame>) -> EngineModel {
    EngineModel { recording: heard(before.recording, input), ..before }
}

/// The commands of a queue as plain values, in order.
pub open spec fn models_of(cmds: Seq<AudioCommand>) -> Seq<CommandModel> {
    cmds.map_values(|cmd: AudioCommand| cmd@)
}

/// Whether an engine in state `before` that handles all of `cmds`, in order,
/// may be in state `after`.
pub open spec fn handled_all<M: SampleMath>(
    math: &M,
    before: EngineModel,
    cmds: Seq<CommandModel>,
    after: EngineModel,
) -> bool
    decreases cmds.len(),
{
    if cmds.len() == 0 {
        after == before
    } else {
        exists|mid: EngineModel|
            handled_all(math, before, cmds.drop_last(), mid) && #[trigger] handled(
                math,
                mid,
                cmds.last(),
                after,
            )
    }
}

/// Whether taking the waiting input may lead from `before` to `after`:
/// either nothing changes, or the recording path has heard some input.
pub open spec fn input_drained(before: EngineModel, after: EngineModel) -> bool {
    after == before || exists|input: Seq<StereoFrame>| after == #[trigger] fed(before, input)
}

/// Whether mixing one voice into a block leads from the voice `before` to
/// the voice `after` and from the block `under` to the block `over`. A voice
/// that does not sound is left as it is, and so is the block. A voice that
/// sounds is rendered into a silent scratch block. If it writes no frame,
/// the block is left as it is; otherwise its chain of processors works over
/// the scratch block, in order, and the result is added to the block.
pub open spec fn voice_mixed<M: SampleMath>(
    math: &M,
    engine: EngineModel,
    before: ActiveVoiceModel,
    after: ActiveVoiceModel,
    under: Seq<StereoFrame>,
    over: Seq<StereoFrame>,
) -> bool {
    &&& played_on(engine, before, after, under.len())
    &&& if audible(engine, before) {
        exists|scratch: Seq<StereoFrame>|
            {
                &&& #[trigger] rendered(
                    math,
                    before.voice,
                    engine.registry[before.sample_id.0],
                    after.voice,
                    silent_block(under.len()),
                    scratch,
                )
                &&& if after.voice.frames_rendered == before.voice.frames_rendered {
                    over == under
                } else {
                    exists|shaped: Seq<StereoFrame>| #[trigger]
                        chain_processed(math, before.effect_chain, scratch, shaped) && mixed_in(
                            math,
                            under,
                            shaped,
                            over,
                        )
                }
            }
    } else {
        over == under
    }
}

/// Whether `out` is the block that the engine's voices mix, one after the
/// other in the order of their triggers, each onto what the ones before it
/// left: `blocks` holds the block before each voice and after the last,
/// `played` the voices after the pass.
pub open spec fn block_mixed<M: SampleMath>(
    math: &M,
    engine: EngineModel,
    played: Seq<ActiveVoiceModel>,
    blocks: Seq<Seq<StereoFrame>>,
    out: Seq<StereoFrame>,
) -> bool {
    &&& played.len() == engine.voices.len()
    &&& blocks.len() == played.len() + 1
    &&& blocks[0] == silent_block(out.len())
    &&& out == blocks[played.len() as int]
    &&& forall|i: int|
        #![trigger blocks[i]]
        0 <= i < played.len() ==> voice_mixed(
            math,
            engine,
            engine.voices[i],
            played[i],
            blocks[i],
            blocks[i + 1],
        )
}

/// Whether rendering one block may lead from `before` to `after` and give
/// the block `out`. The registry and the recording path stay as they are.
/// An empty block leaves the voices alone. Any other starts silent, has
/// every voice mixed into it as [`block_mixed`] says, and the voices that
/// have stopped are removed.
pub open spec fn block_rendered<M: SampleMath>(
    math: &M,
    before: EngineModel,
    after: EngineModel,
    out: Seq<StereoFrame>,
) -> bool {
    &&& after.registry == before.registry
    &&& after.recording == before.recording
    &&& if out.len() == 0 {
        after.voices == before.voices
    } else {
        exists|played: Seq<ActiveVoiceModel>, blocks: Seq<Seq<StereoFrame>>|
            {
                &&& #[trigger] block_mixed(math, before, played, blocks, out)
                &&& after.voices == surviving(played)
            }
    }
}

/// The length of a scratch block of `len` frames once a block of `block`
/// frames has been rendered: the longer of the two.
pub open spec fn grown(len: nat, block: nat) -> nat {
    if block > len {
        block
    } else {
        len
    }
}

/// A block of `len` silent frames.
pub open spec fn silent_block(len: nat) -> Seq<StereoFrame> {
    Seq::new(len, |i: int| StereoFrame::silence())
}

/// Offers a message to a queue by `crossbeam_channel::Sender::try_send`,
/// which never blocks. A queue that is full or has lost its receiver drops
/// the message; nothing is promised of the outcome.
#[verifier::external_body]
pub(crate) fn try_offer<T>(tx: &crossbeam_channel::Sender<T>, msg: T) {
    let _ = tx.try_send(msg);
}

/// Takes the message at the head of a queue, if one is waiting, by
/// `crossbeam_channel::Receiver::try_recv`, which never blocks. An empty
/// queue and one that has lost its senders both give `None`. What is waiting
/// depends on the sender; nothing is promised of it.
#[verifier::external_body]
pub(crate) fn try_next<T>(rx: &crossbeam_channel::Receiver<T>) -> Option<T> {
    rx.try_recv().ok()
}

impl Engine {
    /// An engine with no samples, no voices and an idle recording path.
    pub fn new() -> (engine: Engine)
        ensures
            engine@.registry == Map::<u64, Seq<StereoFrame>>::empty(),
            engine@.voices == Seq::<ActiveVoiceModel>::empty(),
            engine@.recording == RecordingModel::Idle,
            engine.input_queue().is_none(),
            engine.completion_queue().is_none(),
            engine.scratch_len() == TEMP_BUF_CAP,
    {
        let mut temp_buf: Vec<StereoFrame> = Vec::new();
        temp_buf.resize(TEMP_BUF_CAP, StereoFrame::zero());
        let engine = Engine {
            samples: HashMap::new(),
            active: Vec::new(),
            temp_buf,
            recording: RecordingState::Idle,
            input_rx: None,
            completed_tx: None,
        };
        assert(engine@.registry =~= Map::<u64, Seq<StereoFrame>>::empty());
        assert(engine@.voices =~= Seq::<ActiveVoiceModel>::empty());
        engine
    }

    /// An engine with the given samples registered, no voices and an idle
    /// recording path.
    pub fn with_samples(samples: HashMap<u64, SampleBuffer>) -> (engine: Engine)
        ensures
            engine@.registry == registry_of(samples@),
            engine@.voices == Seq::<ActiveVoiceModel>::empty(),
            engine@.recording == RecordingModel::Idle,
            engine.input_queue().is_none(),
            engine.completion_queue().is_none(),
            engine.scratch_len() == TEMP_BUF_CAP,
    {
        let mut temp_buf: Vec<StereoFrame> = Vec::new();
        temp_buf.resize(TEMP_BUF_CAP, StereoFrame::zero());
        let engine = Engine {
            samples,
            active: Vec::new(),
            temp_buf,
            recording: RecordingState::Idle,
            input_rx: None,
            completed_tx: None,
        };
        assert(engine@.registry =~= registry_of(samples@));
        assert(engine@.voices =~= Seq::<ActiveVoiceModel>::empty());
        engine
    }

    /// The queue that input chunks arrive on, if one is set.
    pub closed spec fn input_queue(self) -> Option<
        crossbeam_channel::Receiver<Vec<StereoFrame>>,
    > {
        self.input_rx
    }

    /// The queue that completed recordings leave on, if one is set.
    pub closed spec fn completion_queue(self) -> Option<
        crossbeam_channel::Sender<CompletedRecording>,
    > {
        self.completed_tx
    }

    /// The length of the scratch block that voices are rendered into.
    pub closed spec fn scratch_len(self) -> nat {
        self.temp_buf@.len()
    }

    /// Whether `other` has the queues and the scratch block's length of this
    /// engine.
    pub open spec fn same_fittings(self, other: Engine) -> bool {
        &&& other.input_queue() == self.input_queue()
        &&& other.completion_queue() == self.completion_queue()
        &&& other.scratch_len() == self.scratch_len()
    }

    /// Sets the queue that input chunks arrive on, in place of the one set
    /// before. Nothing else changes.
    pub fn set_input_rx(&mut self, rx: crossbeam_channel::Receiver<Vec<StereoFrame>>)
        ensures
            final(self).input_queue() == Some(rx),
            final(self).completion_queue() == old(self).completion_queue(),
            final(self).scratch_len() == old(self).scratch_len(),
            final(self)@ == old(self)@,
    {
        self.input_rx = Some(rx);
    }

    /// Sets the queue that completed recordings leave on, in place of the
    /// one set before. Nothing else changes.
    pub fn set_completed_tx(&mut self, tx: crossbeam_channel::Sender<CompletedRecording>)
        ensures
            final(self).completion_queue() == Some(tx),
            final(self).input_queue() == old(self).input_queue(),
            final(self).scratch_len() == old(self).scratch_len(),
            final(self)@ == old(self)@,
    {
        self.completed_tx = Some(tx);
    }

    /// Puts `buffer` into the registry under `id`, replacing what was there.
    fn register(&mut self, id: SampleId, buffer: SampleBuffer)
        ensures
            final(self)@ == (EngineModel {
                registry: old(self)@.registry.insert(id.0, buffer@),
                ..old(self)@
            }),
            old(self).same_fittings(*final(self)),
    {
        broadcast use vstd::std_specs::hash::group_hash_axioms;

        self.samples.insert(id.0, buffer);
        assert(self@.registry =~= old(self)@.registry.insert(id.0, buffer@));
    }

    /// Whether a sample is registered under `id`.
    pub fn is_registered(&self, id: SampleId) -> (r: bool)
        ensures
            r == self@.registry.contains_key(id.0),
    {
        broadcast use vstd::std_specs::hash::group_hash_axioms;

        self.samples.contains_key(&id.0)
    }

    /// The sample registered under `id`, if there is one.
    pub fn sample(&self, id: SampleId) -> (found: Option<&SampleBuffer>)
        ensures
            match found {
                Some(buffer) => self@.registry.contains_key(id.0) && buffer@
                    == self@.registry[id.0],
                None => !self@.registry.contains_key(id.0),
            },
    {
        broadcast use vstd::std_specs::hash::group_hash_axioms;

        self.samples.get(&id.0)
    }

    /// Applies one command.
    pub fn handle_cmd<M: SampleMath>(&mut self, cmd: AudioCommand, math: &M)
        ensures
            handled(math, old(self)@, cmd@, final(self)@),
            old(self).same_fittings(*final(self)),
    {
        match cmd {
            AudioCommand::RegisterSample { id, buffer } => {
                self.register(id, buffer);
            },
            AudioCommand::Trigger(params) => {
                if !self.is_registered(params.sample_id) {
                    return ;
                }
                let effect_chain = build_chain(&params.effect_chain);
                let voice = Voice::new(
                    params.trim_start,
                    params.length,
                    params.pitch,
                    params.gain,
                    params.reverse,
                    params.stutter_period_samples,
                    math,
                );
                self.active.push(ActiveVoice { voice, sample_id: params.sample_id, effect_chain });
                assert(self@.voices.drop_last() =~= old(self)@.voices);
            },
            AudioCommand::SetPlaybackPosition { sample_id, position } => {
                self.set_playback_position(sample_id, position, math);
            },
            AudioCommand::StopAllVoices => {
                self.stop_all_voices();
            },
            AudioCommand::StartRecording { sample_id } => {
                self.recording = RecordingState::armed(sample_id);
            },
            AudioCommand::StopRecording => {
                match self.recording.finish() {
                    Some(finished) => {
                        if finished.captured {
                            match &self.completed_tx {
                                Some(tx) => {
                                    try_offer(tx, CompletedRecording::of(&finished));
                                },
                                None => {},
                            }
                        }
                        self.register(finished.sample_id, finished.buffer);
                    },
                    None => {},
                }
            },
        }
    }

    /// Moves the cursor of the voice most recently triggered on `sample_id`
    /// that is still active.
    fn set_playback_position<M: SampleMath>(
        &mut self,
        sample_id: SampleId,
        position: u32,
        math: &M,
    )
        ensures
            handled(
                math,
                old(self)@,
                CommandModel::SetPlaybackPosition { sample_id, position },
                final(self)@,
            ),
            old(self).same_fittings(*final(self)),
    {
        let mut i = self.active.len();
        assert(self@.voices.subrange(0, i as int) =~= self@.voices);
        while i > 0
            invariant
                i <= self.active.len(),
                *self == *old(self),
                last_active(self@.voices, sample_id) == last_active(
                    self@.voices.subrange(0, i as int),
                    sample_id,
                ),
            decreases i,
        {
            let ghost upto = self@.voices.subrange(0, i as int);
            assert(upto.drop_last() =~= self@.voices.subrange(0, i - 1));
            assert(upto.last() == self@.voices[i - 1]);
            i -= 1;
            if self.active[i].sample_id.0 == sample_id.0 && self.active[i].voice.active {
                let mut voice = self.active[i].voice;
                voice.set_pos(position, math);
                self.active[i].voice = voice;
                assert(self@.voices.len() == old(self)@.voices.len());
                return ;
            }
        }
        assert(self@.voices.subrange(0, 0) =~= Seq::<ActiveVoiceModel>::empty());
    }

    /// Stops every voice at once, without a fade. No voice is removed.
    fn stop_all_voices(&mut self)
        ensures
            final(self)@ == (EngineModel {
                voices: old(self)@.voices.map_values(|v: ActiveVoiceModel| silenced(v)),
                ..old(self)@
            }),
            old(self).same_fittings(*final(self)),
    {
        let n = self.active.len();
        let mut i: usize = 0;
        while i < n
            invariant
                i <= n,
                n == self.active.len(),
                self@.registry == old(self)@.registry,
                self@.recording == old(self)@.recording,
                self@.voices.len() == old(self)@.voices.len(),
                old(self).same_fittings(*self),
                forall|j: int| 0 <= j < i ==> self@.voices[j] == silenced(old(self)@.voices[j]),
                forall|j: int| i <= j < n ==> self@.voices[j] == old(self)@.voices[j],
            decreases n - i,
        {
            let ghost prev = self.active@;
            let ghost shown = self@.voices;
            self.active[i].voice.active = false;
            assert(self.active@ =~= prev.update(
                i as int,
                ActiveVoice { voice: prev[i as int].voice.stopped(), ..prev[i as int] },
            ));
            assert forall|j: int| 0 <= j <= i implies self@.voices[j] == silenced(
                old(self)@.voices[j],
            ) by {
                assert(shown[j] == prev[j]@);
                if j < i {
                    assert(self.active@[j] == prev[j]);
                }
            }
            assert forall|j: int| i < j < n implies self@.voices[j] == old(self)@.voices[j] by {
                assert(shown[j] == prev[j]@);
                assert(self.active@[j] == prev[j]);
            }
            i += 1;
        }
        assert(self@.voices =~= old(self)@.voices.map_values(|v: ActiveVoiceModel| silenced(v)));
    }

    /// Applies the commands in order, each to the state that the one before
    /// it left.
    pub fn handle_all<M: SampleMath>(&mut self, cmds: &Vec<AudioCommand>, math: &M)
        ensures
            handled_all(math, old(self)@, models_of(cmds@), final(self)@),
            old(self).same_fittings(*final(self)),
    {
        let ghost all = models_of(cmds@);
        assert(all.subrange(0, 0) =~= Seq::<CommandModel>::empty());
        let mut i: usize = 0;
        while i < cmds.len()
            invariant
                i <= cmds.len(),
                all == models_of(cmds@),
                old(self).same_fittings(*self),
                handled_all(math, old(self)@, all.subrange(0, i as int), self@),
            decreases cmds.len() - i,
        {
            let ghost mid = self@;
            self.handle_cmd(cmds[i].clone(), math);
            proof {
                let next = all.subrange(0, i + 1);
                assert(next.drop_last() =~= all.subrange(0, i as int));
                assert(next.last() == cmds@[i as int]@);
                assert(handled(math, mid, next.last(), self@));
            }
            i += 1;
        }
        assert(all.subrange(0, all.len() as int) =~= all);
    }

    /// Whether the threshold has been crossed and input is being kept.
    pub fn is_capturing(&self) -> (r: bool)
        ensures
            r == (self@.recording is Capturing),
    {
        self.recording.is_capturing()
    }

    /// The number of voices, stopped ones that are not yet removed included.
    pub fn voice_count(&self) -> (n: usize)
        ensures
            n == self@.voices.len(),
    {
        self.active.len()
    }

    /// The voice at `index`, counted from the oldest trigger.
    pub fn voice(&self, index: usize) -> (found: Option<Voice>)
        ensures
            found == if index < self@.voices.len() {
                Some(self@.voices[index as int].voice)
            } else {
                None
            },
    {
        if index < self.active.len() {
            Some(self.active[index].voice)
        } else {
            None
        }
    }

    /// Feeds input chunks to the recording path, in order.
    pub fn feed_input(&mut self, chunks: &Vec<Vec<StereoFrame>>)
        ensures
            final(self)@ == fed(old(self)@, joined(chunks@)),
            old(self).same_fittings(*final(self)),
    {
        self.recording.feed(chunks);
    }

    /// Takes the chunks that wait on the input queue, as many as the queue
    /// can hold, and feeds them to the recording path. Without a queue, or
    /// with nothing waiting, nothing changes.
    pub fn drain_input(&mut self)
        ensures
            input_drained(old(self)@, final(self)@),
            old(self).input_queue().is_none() ==> final(self)@ == old(self)@,
            old(self).same_fittings(*final(self)),
    {
        let mut chunks: Vec<Vec<StereoFrame>> = Vec::new();
        match &self.input_rx {
            Some(rx) => {
                let mut taken: usize = 0;
                while taken < INPUT_QUEUE_CAPACITY
                    invariant
                        taken <= INPUT_QUEUE_CAPACITY,
                    decreases INPUT_QUEUE_CAPACITY - taken,
                {
                    match try_next(rx) {
                        Some(chunk) => {
                            chunks.push(chunk);
                        },
                        None => {
                            break ;
                        },
                    }
                    taken += 1;
                }
            },
            None => {
                return ;
            },
        }
        if chunks.len() == 0 {
            return ;
        }
        self.feed_input(&chunks);
    }

    /// Serves one call of the output callback: applies the commands that
    /// wait on `commands`, as many as the queue can hold and strictly in the
    /// order in which they were sent; then takes the waiting input; then
    /// renders the block. No command is applied once rendering has begun.
    pub fn process_block<M: SampleMath>(
        &mut self,
        commands: &crossbeam_channel::Receiver<AudioCommand>,
        out: &mut Vec<StereoFrame>,
        math: &M,
    )
        ensures
            final(out).len() == old(out).len(),
            exists|cmds: Seq<CommandModel>, commanded: EngineModel, listened: EngineModel|
                {
                    &&& #[trigger] handled_all(math, old(self)@, cmds, commanded)
                    &&& #[trigger] input_drained(commanded, listened)
                    &&& block_rendered(math, listened, final(self)@, final(out)@)
                },
            final(self).input_queue() == old(self).input_queue(),
            final(self).completion_queue() == old(self).completion_queue(),
            final(self).scratch_len() == grown(old(self).scratch_len(), old(out).len() as nat),
    {
        let ghost mut cmds: Seq<CommandModel> = Seq::empty();
        let mut taken: usize = 0;
        while taken < COMMAND_QUEUE_CAPACITY
            invariant
                taken <= COMMAND_QUEUE_CAPACITY,
                handled_all(math, old(self)@, cmds, self@),
                old(self).same_fittings(*self),
            decreases COMMAND_QUEUE_CAPACITY - taken,
        {
            match try_next(commands) {
                Some(cmd) => {
                    let ghost mid = self@;
                    let ghost done = cmds;
                    self.handle_cmd(cmd, math);
                    proof {
                        cmds = done.push(cmd@);
                        assert(cmds.drop_last() =~= done);
                        assert(handled(math, mid, cmds.last(), self@));
                    }
                },
                None => {
                    break ;
                },
            }
            taken += 1;
        }
        let ghost commanded = self@;
        self.drain_input();
        let ghost listened = self@;
        self.render_block(out, math);
        assert(handled_all(math, old(self)@, cmds, commanded));
        assert(input_drained(commanded, listened));
    }

    /// Renders one block. The block is cleared; every voice that sounds is
    /// rendered into a scratch block, which its chain of processors then
    /// works over in order, and the result is added to the block. A voice
    /// that writes no frame adds nothing. After the pass the voices that
    /// have stopped are removed. The scratch block grows to the longest
    /// block seen and never shrinks. An empty block leaves the engine as it
    /// is.
    pub fn render_block<M: SampleMath>(&mut self, out: &mut Vec<StereoFrame>, math: &M)
        ensures
            final(out).len() == old(out).len(),
            block_rendered(math, old(self)@, final(self)@, final(out)@),
            old(out).len() == 0 ==> final(out)@ == old(out)@,
            (forall|i: int|
                0 <= i < old(self)@.voices.len() ==> !audible(old(self)@, old(self)@.voices[i]))
                && old(out).len() > 0 ==> final(out)@ == silent_block(old(out).len() as nat),
            final(self).input_queue() == old(self).input_queue(),
            final(self).completion_queue() == old(self).completion_queue(),
            final(self).scratch_len() == grown(old(self).scratch_len(), old(out).len() as nat),
    {
        let n = out.len();
        if n == 0 {
            return ;
        }
        let kept = self.temp_buf.len();
        self.temp_buf.resize(n, StereoFrame::zero());
        fill_silence(out);
        let ghost mut blocks: Seq<Seq<StereoFrame>> = seq![out@];
        let count = self.active.len();
        let mut i: usize = 0;
        while i < count
            invariant
                i <= count,
                count == self.active.len(),
                out.len() == n,
                n > 0,
                self.temp_buf.len() == n,
                self@.registry == old(self)@.registry,
                self@.recording == old(self)@.recording,
                self.samples == old(self).samples,
                self.input_rx == old(self).input_rx,
                self.completed_tx == old(self).completed_tx,
                self@.voices.len() == old(self)@.voices.len(),
                forall|j: int| i <= j < count ==> self@.voices[j] == old(self)@.voices[j],
                (forall|j: int| 0 <= j < i ==> !audible(old(self)@, old(self)@.voices[j]))
                    ==> out@ == silent_block(n as nat),
                blocks.len() == i + 1,
                blocks[0] == silent_block(n as nat),
                out@ == blocks[i as int],
                forall|j: int|
                    #![trigger blocks[j]]
                    0 <= j < i ==> voice_mixed(
                        math,
                        old(self)@,
                        old(self)@.voices[j],
                        self@.voices[j],
                        blocks[j],
                        blocks[j + 1],
                    ),
            decreases count - i,
        {
            let ghost prev = self.active@;
            let ghost shown = self@.voices;
            let ghost under = out@;
            let ghost before_blocks = blocks;
            assert(shown[i as int] == prev[i as int]@);
            let id = self.active[i].sample_id;
            if self.active[i].voice.active && self.is_registered(id) {
                broadcast use vstd::std_specs::hash::group_hash_axioms;

                let found = self.samples.get(&id.0);
                let buffer = found.unwrap();
                fill_silence(&mut self.temp_buf);
                let mut voice = self.active[i].voice;
                let written_before = voice.frames_rendered;
                voice.render_into(buffer, &mut self.temp_buf, math);
                let ghost scratch = self.temp_buf@;
                self.active[i].voice = voice;
                if voice.frames_rendered != written_before {
                    process_chain(&self.active[i].effect_chain, &mut self.temp_buf, math);
                    accumulate(out, &self.temp_buf, math);
                }
                let ghost shaped = self.temp_buf@;
                assert(self.active@ =~= prev.update(
                    i as int,
                    ActiveVoice { voice, ..prev[i as int] },
                ));
                assert(buffer@ == old(self)@.registry[id.0]);
                assert(under.len() == n);
                assert(rendered(
                    math,
                    prev[i as int].voice,
                    old(self)@.registry[id.0],
                    voice,
                    silent_block(under.len()),
                    scratch,
                ));
                assert(old(self)@.voices[i as int] == prev[i as int]@);
                assert(self@.voices[i as int].voice == voice);
                assert(audible(old(self)@, old(self)@.voices[i as int]));
                if voice.frames_rendered != written_before {
                    assert(chain_processed(
                        math,
                        old(self)@.voices[i as int].effect_chain,
                        scratch,
                        shaped,
                    ));
                    assert(mixed_in(math, under, shaped, out@));
                } else {
                    assert(out@ == under);
                }
                assert(played_on(
                    old(self)@,
                    old(self)@.voices[i as int],
                    self@.voices[i as int],
                    under.len(),
                ));
                assert(voice_mixed(
                    math,
                    old(self)@,
                    old(self)@.voices[i as int],
                    self@.voices[i as int],
                    under,
                    out@,
                ));
            }
            proof {
                blocks = before_blocks.push(out@);
                assert forall|j: int| #![trigger blocks[j]] 0 <= j <= i implies voice_mixed(
                    math,
                    old(self)@,
                    old(self)@.voices[j],
                    self@.voices[j],
                    blocks[j],
                    blocks[j + 1],
                ) by {
                    assert(shown[j] == prev[j]@);
                    if j < i {
                        assert(self.active@[j] == prev[j]);
                        assert(blocks[j] == before_blocks[j]);
                        assert(blocks[j + 1] == before_blocks[j + 1]);
                    }
                }
                assert forall|j: int| i < j < count implies self@.voices[j] == old(
                    self,
                )@.voices[j] by {
                    assert(shown[j] == prev[j]@);
                    assert(self.active@[j] == prev[j]);
                }
            }
            i += 1;
        }
        if kept > n {
            self.temp_buf.resize(kept, StereoFrame::zero());
        }
        let ghost played = self@.voices;
        self.prune();
        assert(block_mixed(math, old(self)@, played, blocks, out@));
    }

    /// Removes the voices that have stopped.
    fn prune(&mut self)
        ensures
            final(self)@ == (EngineModel { voices: surviving(old(self)@.voices), ..old(self)@ }),
            old(self).same_fittings(*final(self)),
    {
        let ghost played = self@.voices;
        let ghost examined: int = 0;
        let mut i: usize = 0;
        assert(played.subrange(0, 0) =~= Seq::<ActiveVoiceModel>::empty());
        assert(played.subrange(0, played.len() as int) =~= played);
        while i < self.active.len()
            invariant
                0 <= examined <= played.len(),
                i <= self.active.len(),
                self.active.len() - i == played.len() - examined,
                old(self).same_fittings(*self),
                self@.registry == old(self)@.registry,
                self@.recording == old(self)@.recording,
                played == old(self)@.voices,
                self@.voices == surviving(played.subrange(0, examined)) + played.subrange(
                    examined,
                    played.len() as int,
                ),
                i == surviving(played.subrange(0, examined)).len(),
            decreases played.len() - examined,
        {
            let ghost kept = surviving(played.subrange(0, examined));
            let ghost rest = played.subrange(examined, played.len() as int);
            let ghost shown = self@.voices;
            let ghost prev = self.active@;
            assert(shown[i as int] == prev[i as int]@);
            assert(shown[i as int] == played[examined]);
            assert(played.subrange(0, examined + 1).drop_last() =~= played.subrange(0, examined));
            if self.active[i].voice.active {
                assert(kept.push(played[examined]) + played.subrange(
                    examined + 1,
                    played.len() as int,
                ) =~= kept + rest);
                i += 1;
            } else {
                self.active.remove(i);
                assert(self@.voices =~= shown.remove(i as int));
                assert(shown.remove(i as int) =~= kept + played.subrange(
                    examined + 1,
                    played.len() as int,
                ));
            }
            proof {
                examined = examined + 1;
            }
        }
        assert(self@.voices =~= surviving(played));
    }
}

/// Stopping all voices twice in a row is the same as stopping them once: no
/// voice is added or removed, every voice is stopped, and the second stop
/// changes nothing.
pub proof fn lemma_stop_all_is_idempotent<M: SampleMath>(
    math: &M,
    before: EngineModel,
    once: EngineModel,
    twice: EngineModel,
)
    requires
        handled(math, before, CommandModel::StopAllVoices, once),
        handled(math, once, CommandModel::StopAllVoices, twice),
    ensures
        twice == once,
        once.voices.len() == before.voices.len(),
        forall|i: int| 0 <= i < once.voices.len() ==> !(#[trigger] once.voices[i]).voice.active,
{
    assert(twice.voices =~= once.voices);
}

/// Of voices that have all stopped, none survives.
pub proof fn lemma_none_survives(voices: Seq<ActiveVoiceModel>)
    requires
        forall|i: int| 0 <= i < voices.len() ==> !(#[trigger] voices[i]).voice.active,
    ensures
        surviving(voices).len() == 0,
    decreases voices.len(),
{
    if voices.len() > 0 {
        assert(!voices[voices.len() - 1].voice.active);
        assert forall|i: int| 0 <= i < voices.drop_last().len() implies !(
        #[trigger] voices.drop_last()[i]).voice.active by {
            assert(voices.drop_last()[i] == voices[i]);
        }
        lemma_none_survives(voices.drop_last());
    }
}

/// A voice whose window starts at or beyond the end of its sample is gone
/// after the first block and is not heard in it: if every voice has stopped
/// or starts there, the block is silent and no voice is left once it has
/// been rendered.
pub proof fn lemma_trim_past_end_is_pruned<M: SampleMath>(
    math: &M,
    before: EngineModel,
    after: EngineModel,
    out: Seq<StereoFrame>,
)
    requires
        out.len() > 0,
        block_rendered(math, before, after, out),
        forall|i: int|
            0 <= i < before.voices.len() ==> {
                let v = #[trigger] before.voices[i];
                !v.voice.active || (before.registry.contains_key(v.sample_id.0)
                    && v.voice.trim_start >= before.registry[v.sample_id.0].len())
            },
    ensures
        after.voices.len() == 0,
        out == silent_block(out.len()),
{
    let (played, blocks) = choose|played: Seq<ActiveVoiceModel>, blocks: Seq<Seq<StereoFrame>>|
        {
            &&& #[trigger] block_mixed(math, before, played, blocks, out)
            &&& after.voices == surviving(played)
        };
    assert forall|i: int| 0 <= i < played.len() implies !(#[trigger] played[i]).voice.active
        && blocks[i + 1] == blocks[i] by {
        let v = before.voices[i];
        assert(voice_mixed(math, before, v, played[i], blocks[i], blocks[i + 1]));
    }
    lemma_none_survives(played);
    lemma_blocks_unchanged(blocks, played.len() as int);
}

/// Blocks of which each equals the one before it all equal the first.
proof fn lemma_blocks_unchanged(blocks: Seq<Seq<StereoFrame>>, upto: int)
    requires
        0 <= upto < blocks.len(),
        forall|i: int| #![trigger blocks[i]] 0 <= i < upto ==> blocks[i + 1] == blocks[i],
    ensures
        blocks[upto] == blocks[0],
    decreases upto,
{
    if upto > 0 {
        lemma_blocks_unchanged(blocks, upto - 1);
        assert(blocks[upto - 1 + 1] == blocks[upto - 1]);
    }
}

/// A trigger on a sample that is not registered is a no-op.
pub proof fn lemma_unregistered_trigger_is_noop<M: SampleMath>(
    math: &M,
    before: EngineModel,
    params: TriggerModel,
    after: EngineModel,
)
    requires
        !before.registry.contains_key(params.sample_id.0),
        handled(math, before, CommandModel::Trigger(params), after),
    ensures
        after == before,
{
}

/// Overwrites every frame of `block` with silence.
pub fn fill_silence(block: &mut Vec<StereoFrame>)
    ensures
        final(block)@ == silent_block(old(block).len() as nat),
{
    let n = block.len();
    let mut i: usize = 0;
    while i < n
        invariant
            i <= n,
            block.len() == n,
            forall|j: int| 0 <= j < i ==> block@[j] == StereoFrame::silence(),
        decreases n - i,
    {
        block.set(i, StereoFrame::zero());
        i += 1;
    }
    assert(block@ =~= silent_block(n as nat));
}

/// Whether both channels of `sum` are values that `math` gives for the sums
/// of the channels of `under` and `over`.
pub open spec fn frame_sum<M: SampleMath>(
    math: &M,
    under: StereoFrame,
    over: StereoFrame,
    sum: StereoFrame,
) -> bool {
    is_sum(math, under.left, over.left, sum.left) && is_sum(
        math,
        under.right,
        over.right,
        sum.right,
    )
}

/// Whether `after` is the block `before` with `scratch` added to it: frame
/// by frame as far as `scratch` reaches, and as it was beyond.
pub open spec fn mixed_in<M: SampleMath>(
    math: &M,
    before: Seq<StereoFrame>,
    scratch: Seq<StereoFrame>,
    after: Seq<StereoFrame>,
) -> bool {
    &&& after.len() == before.len()
    &&& forall|i: int|
        0 <= i < before.len() && i < scratch.len() ==> #[trigger] frame_sum(
            math,
            before[i],
            scratch[i],
            after[i],
        )
    &&& forall|i: int| scratch.len() <= i < before.len() ==> #[trigger] after[i] == before[i]
}

/// Adds `scratch` to `out`, frame by frame, as far as both reach.
fn accumulate<M: SampleMath>(out: &mut Vec<StereoFrame>, scratch: &Vec<StereoFrame>, math: &M)
    ensures
        mixed_in(math, old(out)@, scratch@, final(out)@),
        final(out).len() == old(out).len(),
{
    let n = if out.len() < scratch.len() {
        out.len()
    } else {
        scratch.len()
    };
    let mut i: usize = 0;
    while i < n
        invariant
            i <= n,
            n <= out.len(),
            n <= scratch.len(),
            n == out.len() || n == scratch.len(),
            out.len() == old(out).len(),
            forall|j: int|
                0 <= j < i ==> #[trigger] frame_sum(math, old(out)@[j], scratch@[j], out@[j]),
            forall|j: int| i <= j < out.len() ==> out@[j] == old(out)@[j],
        decreases n - i,
    {
        let under = out[i];
        let over = scratch[i];
        let left = math.sum(under.left, over.left);
        let right = math.sum(under.right, over.right);
        out.set(i, StereoFrame { left, right });
        assert(frame_sum(math, old(out)@[i as int], scratch@[i as int], out@[i as int]));
        i += 1;
    }
}

} // verus!
