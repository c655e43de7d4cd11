//! The command protocol: what the control side may ask of the engine.

use vstd::prelude::*;
use crate::effect::EffectSpec;
use crate::frame::StereoFrame;
use crate::sample_buffer::SampleBuffer;
use crate::sample_id::SampleId;

verus! {

/// The parameters of one trigger. `gain` and `pitch` are binary32 bit
/// patterns.
#[derive(Debug)]
pub struct TriggerParams {
    pub sample_id: SampleId,
    pub trim_start: usize,
    pub length: usize,
    pub gain: u32,
    pub pitch: u32,
    pub effect_chain: Vec<EffectSpec>,
    pub reverse: bool,
    pub stutter_period_samples: Option<u32>,
}

/// A request to the engine.
#[derive(Debug)]
pub enum AudioCommand {
    /// Put `buffer` into the registry under `id`, replacing what was there.
    RegisterSample { id: SampleId, buffer: SampleBuffer },
    /// Start a new voice, if the sample is registered.
    Trigger(TriggerParams),
    /// Arm a recording that will be registered under `sample_id`.
    StartRecording { sample_id: SampleId },
    /// Finish the recording, armed or capturing.
    StopRecording,
    /// Move the cursor of the voice most recently triggered on `sample_id`
    /// that is still active. `position` is a binary32 bit pattern.
    SetPlaybackPosition { sample_id: SampleId, position: u32 },
    /// Stop every voice at once, without a fade.
    StopAllVoices,
}

/// A trigger's parameters as plain values.
pub ghost struct TriggerModel {
    pub sample_id: SampleId,
    pub trim_start: usize,
    pub length: usize,
    pub gain: u32,
    pub pitch: u32,
    pub effect_chain: Seq<EffectSpec>,
    pub reverse: bool,
    pub stutter_period_samples: Option<u32>,
}

/// A command as plain values.
pub ghost enum CommandModel {
    RegisterSample { id: SampleId, frames: Seq<StereoFrame> },
    Trigger(TriggerModel),
    StartRecording { sample_id: SampleId },
    StopRecording,
    SetPlaybackPosition { sample_id: SampleId, position: u32 },
    StopAllVoices,
}

impl View for TriggerParams {
    type V = TriggerModel;

    open spec fn view(&self) -> TriggerModel {
        TriggerModel {
            sample_id: self.sample_id,
            trim_start: self.trim_start,
            length: self.length,
            gain: self.gain,
            pitch: self.pitch,
            effect_chain: self.effect_chain@,
            reverse: self.reverse,
            stutter_period_samples: self.stutter_period_samples,
        }
    }
}

impl View for AudioCommand {
    type V = CommandModel;

    open spec fn view(&self) -> CommandModel {
        match self {
            AudioCommand::RegisterSample { id, buffer } => CommandModel::RegisterSample {
                id: *id,
                frames: buffer@,
            },
            AudioCommand::Trigger(params) => CommandModel::Trigger(params@),
            AudioCommand::StartRecording { sample_id } => CommandModel::StartRecording {
                sample_id: *sample_id,
            },
            AudioCommand::StopRecording => CommandModel::StopRecording,
            AudioCommand::SetPlaybackPosition { sample_id, position } => {
                CommandModel::SetPlaybackPosition { sample_id: *sample_id, position: *position }
            },
            AudioCommand::StopAllVoices => CommandModel::StopAllVoices,
        }
    }
}

impl Clone for TriggerParams {
    fn clone(&self) -> (copy: TriggerParams)
        ensures
            copy@ == self@,
    {
        let mut effect_chain: Vec<EffectSpec> = Vec::new();
        let mut i: usize = 0;
        while i < self.effect_chain.len()
            invariant
                i <= self.effect_chain.len(),
                effect_chain@ == self.effect_chain@.subrange(0, i as int),
            decreases self.effect_chain.len() - i,
        {
            effect_chain.push(self.effect_chain[i]);
            assert(effect_chain@ =~= self.effect_chain@.subrange(0, i + 1));
            i += 1;
        }
        assert(effect_chain@ =~= self.effect_chain@);
        TriggerParams {
            sample_id: self.sample_id,
            trim_start: self.trim_start,
            length: self.length,
            gain: self.gain,
            pitch: self.pitch,
            effect_chain,
            reverse: self.reverse,
            stutter_period_samples: self.stutter_period_samples,
        }
    }
}

impl Clone for AudioCommand {
    fn clone(&self) -> (copy: AudioCommand)
        ensures
            copy@ == self@,
    {
        match self {
            AudioCommand::RegisterSample { id, buffer } => AudioCommand::RegisterSample {
                id: *id,
                buffer: buffer.clone(),
            },
            AudioCommand::Trigger(params) => AudioCommand::Trigger(params.clone()),
            AudioCommand::StartRecording { sample_id } => AudioCommand::StartRecording {
                sample_id: *sample_id,
            },
            AudioCommand::StopRecording => AudioCommand::StopRecording,
            AudioCommand::SetPlaybackPosition { sample_id, position } => {
                AudioCommand::SetPlaybackPosition { sample_id: *sample_id, position: *position }
            },
            AudioCommand::StopAllVoices => AudioCommand::StopAllVoices,
        }
    }
}

} // verus!
