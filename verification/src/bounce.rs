//! Offline bounce: a command timeline rendered into one buffer, away from
//! the audio callback.

use std::collections::HashMap;
use vstd::prelude::*;
use crate::command::{AudioCommand, CommandModel};
use crate::engine::{
    block_mixed, block_rendered, handled, handled_all, models_of, registry_of, silent_block,
    surviving, ActiveVoiceModel, Engine, EngineModel,
};
use crate::frame::StereoFrame;
use crate::math::SampleMath;
use crate::recording::RecordingModel;
use crate::sample_buffer::SampleBuffer;

verus! {

/// Whether none of the commands is a trigger.
pub open spec fn triggers_nothing(cmds: Seq<CommandModel>) -> bool {
    forall|i: int| 0 <= i < cmds.len() ==> !(#[trigger] cmds[i] is Trigger)
}

/// Whether no step of the timeline holds a trigger.
pub open spec fn timeline_is_quiet(steps: Seq<Vec<AudioCommand>>) -> bool {
    forall|s: int| 0 <= s < steps.len() ==> triggers_nothing(models_of(#[trigger] steps[s]@))
}

/// The commands of each step of a timeline as plain values.
pub open spec fn timeline_models(steps: Seq<Vec<AudioCommand>>) -> Seq<Seq<CommandModel>> {
    steps.map_values(|cmds: Vec<AudioCommand>| models_of(cmds@))
}

/// The engine that a bounce starts from: the given samples registered, no
/// voice, an idle recording path.
pub open spec fn bounce_start(samples: Map<u64, SampleBuffer>) -> EngineModel {
    EngineModel {
        registry: registry_of(samples),
        voices: Seq::empty(),
        recording: RecordingModel::Idle,
    }
}

/// Whether one step of a bounce leads from the engine `before` to the engine
/// `after` and gives `block`: the step's commands are handled, in order, and
/// then the block is rendered.
pub open spec fn step_bounced<M: SampleMath>(
    math: &M,
    before: EngineModel,
    cmds: Seq<CommandModel>,
    after: EngineModel,
    block: Seq<StereoFrame>,
) -> bool {
    exists|commanded: EngineModel|
        handled_all(math, before, cmds, commanded) && #[trigger] block_rendered(
            math,
            commanded,
            after,
            block,
        )
}

/// Whether bouncing the timeline `steps` at `frames` frames a step leads
/// from the engine `start` to the engine `end` and gives `output`: the
/// blocks of the steps one after the other, each rendered by the engine that
/// the step before it left. Whatever still sounds after the last step is cut
/// off there.
pub open spec fn bounced<M: SampleMath>(
    math: &M,
    start: EngineModel,
    steps: Seq<Seq<CommandModel>>,
    frames: nat,
    end: EngineModel,
    output: Seq<StereoFrame>,
) -> bool
    decreases steps.len(),
{
    if steps.len() == 0 {
        end == start && output.len() == 0
    } else {
        let earlier = output.len() - frames;
        &&& earlier >= 0
        &&& exists|mid: EngineModel|
            bounced(math, start, steps.drop_last(), frames, mid, output.subrange(0, earlier))
                && #[trigger] step_bounced(
                math,
                mid,
                steps.last(),
                end,
                output.subrange(earlier, output.len() as int),
            )
    }
}

/// Only a trigger adds a voice: an engine without voices that handles
/// commands none of which is a trigger has no voices afterwards.
pub proof fn lemma_no_trigger_no_voice<M: SampleMath>(
    math: &M,
    before: EngineModel,
    cmds: Seq<CommandModel>,
    after: EngineModel,
)
    requires
        handled_all(math, before, cmds, after),
        triggers_nothing(cmds),
        before.voices.len() == 0,
    ensures
        after.voices.len() == 0,
    decreases cmds.len(),
{
    if cmds.len() > 0 {
        let mid = choose|mid: EngineModel|
            handled_all(math, before, cmds.drop_last(), mid) && #[trigger] handled(
                math,
                mid,
                cmds.last(),
                after,
            );
        assert forall|i: int| 0 <= i < cmds.drop_last().len() implies !(
        #[trigger] cmds.drop_last()[i] is Trigger) by {
            assert(cmds.drop_last()[i] == cmds[i]);
        }
        lemma_no_trigger_no_voice(math, before, cmds.drop_last(), mid);
        assert(!(cmds[cmds.len() - 1] is Trigger));
    }
}

/// Rendering a block never adds a voice.
pub proof fn lemma_render_adds_no_voice<M: SampleMath>(
    math: &M,
    before: EngineModel,
    after: EngineModel,
    out: Seq<StereoFrame>,
)
    requires
        block_rendered(math, before, after, out),
    ensures
        after.voices.len() <= before.voices.len(),
{
    if out.len() > 0 {
        let (played, blocks) = choose|
            played: Seq<ActiveVoiceModel>,
            blocks: Seq<Seq<StereoFrame>>,
        |
            {
                &&& #[trigger] block_mixed(math, before, played, blocks, out)
                &&& after.voices == surviving(played)
            };
        lemma_surviving_is_shorter(played);
    }
}

/// Removing the stopped voices leaves no more voices than there were.
pub proof fn lemma_surviving_is_shorter(voices: Seq<ActiveVoiceModel>)
    ensures
        surviving(voices).len() <= voices.len(),
    decreases voices.len(),
{
    if voices.len() > 0 {
        lemma_surviving_is_shorter(voices.drop_last());
    }
}

/// Renders a timeline offline. A private engine starts from the given
/// samples; for each step it applies the step's commands, in order, and then
/// renders `frames_per_step` frames. The output is the steps' blocks one
/// after the other: a voice that is still sounding when the timeline ends
/// is cut off there. A timeline without a trigger gives silence.
pub fn bounce_offline<M: SampleMath>(
    samples: &HashMap<u64, SampleBuffer>,
    step_commands: &Vec<Vec<AudioCommand>>,
    frames_per_step: usize,
    math: &M,
) -> (mixdown: SampleBuffer)
    requires
        step_commands@.len() * frames_per_step <= usize::MAX,
    ensures
        mixdown@.len() == step_commands@.len() * frames_per_step,
        exists|end: EngineModel| #[trigger]
            bounced(
                math,
                bounce_start(samples@),
                timeline_models(step_commands@),
                frames_per_step as nat,
                end,
                mixdown@,
            ),
        timeline_is_quiet(step_commands@) ==> mixdown@ == silent_block(mixdown@.len()),
{
    let mut engine = Engine::with_samples(samples.clone());
    let ghost start = bounce_start(samples@);
    let ghost timeline = timeline_models(step_commands@);
    assert(engine@ == start);
    let n_steps = step_commands.len();
    let mut output: Vec<StereoFrame> = Vec::new();
    let mut block: Vec<StereoFrame> = Vec::new();
    block.resize(frames_per_step, StereoFrame::zero());
    let mut step: usize = 0;
    assert(timeline.subrange(0, 0) =~= Seq::<Seq<CommandModel>>::empty());
    while step < n_steps
        invariant
            step <= n_steps,
            n_steps == step_commands.len(),
            n_steps * frames_per_step <= usize::MAX,
            block.len() == frames_per_step,
            output@.len() == step * frames_per_step,
            start == bounce_start(samples@),
            timeline == timeline_models(step_commands@),
            bounced(
                math,
                start,
                timeline.subrange(0, step as int),
                frames_per_step as nat,
                engine@,
                output@,
            ),
            timeline_is_quiet(step_commands@) ==> engine@.voices.len() == 0 && output@
                == silent_block(output@.len()),
        decreases n_steps - step,
    {
        let ghost before = engine@;
        engine.handle_all(&step_commands[step], math);
        let ghost commanded = engine@;
        engine.render_block(&mut block, math);
        proof {
            if timeline_is_quiet(step_commands@) {
                lemma_no_trigger_no_voice(
                    math,
                    before,
                    models_of(step_commands@[step as int]@),
                    commanded,
                );
                lemma_render_adds_no_voice(math, commanded, engine@, block@);
            }
            assert((step + 1) * frames_per_step == step * frames_per_step + frames_per_step)
                by (nonlinear_arith);
            assert((step + 1) * frames_per_step <= n_steps * frames_per_step) by (nonlinear_arith)
                requires
                    step + 1 <= n_steps,
            ;
        }
        let ghost so_far = output@;
        let mut i: usize = 0;
        while i < frames_per_step
            invariant
                i <= frames_per_step,
                block.len() == frames_per_step,
                output@ == so_far + block@.subrange(0, i as int),
            decreases frames_per_step - i,
        {
            output.push(block[i]);
            assert(output@ =~= so_far + block@.subrange(0, i + 1));
            i += 1;
        }
        proof {
            assert(block@.subrange(0, frames_per_step as int) =~= block@);
            if timeline_is_quiet(step_commands@) && frames_per_step > 0 {
                assert(output@ =~= silent_block(output@.len()));
            }
            if frames_per_step == 0 {
                assert(output@ =~= so_far);
            }
            let done = timeline.subrange(0, step + 1);
            assert(done.drop_last() =~= timeline.subrange(0, step as int));
            assert(done.last() == models_of(step_commands@[step as int]@));
            let earlier = output@.len() - frames_per_step;
            assert(output@.subrange(0, earlier) =~= so_far);
            assert(output@.subrange(earlier, output@.len() as int) =~= block@);
            assert(block_rendered(math, commanded, engine@, block@));
            assert(step_bounced(math, before, done.last(), engine@, block@));
        }
        step += 1;
    }
    assert(timeline.subrange(0, n_steps as int) =~= timeline);
    SampleBuffer::from_frames(output)
}

} // verus!
