//! The control side of the queues: where commands are sent from and
//! completed recordings are taken.

use std::collections::HashMap;
use vstd::prelude::*;
use crate::command::{AudioCommand, CommandModel};
use crate::engine::{registry_of, try_next, try_offer, CompletedRecording};
use crate::frame::StereoFrame;
use crate::sample_buffer::SampleBuffer;

verus! {

/// The control thread's end of the command and completion queues. It keeps a
/// copy of every sample it registers, so that a timeline can be bounced
/// without asking the engine.
pub struct ControlPort {
    tx: crossbeam_channel::Sender<AudioCommand>,
    completed_rx: crossbeam_channel::Receiver<CompletedRecording>,
    sample_registry: HashMap<u64, SampleBuffer>,
}

impl ControlPort {
    /// The frames of every sample registered through this port.
    pub closed spec fn registry(self) -> Map<u64, Seq<StereoFrame>> {
        registry_of(self.sample_registry@)
    }

    /// A port on the given queues, with nothing registered.
    pub fn new(
        tx: crossbeam_channel::Sender<AudioCommand>,
        completed_rx: crossbeam_channel::Receiver<CompletedRecording>,
    ) -> (port: ControlPort)
        ensures
            port.registry() == Map::<u64, Seq<StereoFrame>>::empty(),
    {
        let port = ControlPort { tx, completed_rx, sample_registry: HashMap::new() };
        assert(port.registry() =~= Map::<u64, Seq<StereoFrame>>::empty());
        port
    }

    /// Sends a command to the engine. A full queue drops it. A registered
    /// sample is copied into the port's own registry first, whether or not
    /// the queue takes the command.
    pub fn send(&mut self, cmd: AudioCommand)
        ensures
            final(self).registry() == match cmd@ {
                CommandModel::RegisterSample { id, frames } => old(self).registry().insert(
                    id.0,
                    frames,
                ),
                _ => old(self).registry(),
            },
    {
        broadcast use vstd::std_specs::hash::group_hash_axioms;

        match &cmd {
            AudioCommand::RegisterSample { id, buffer } => {
                self.sample_registry.insert(id.0, buffer.clone());
                assert(self.registry() =~= old(self).registry().insert(id.0, buffer@));
            },
            _ => {},
        }
        try_offer(&self.tx, cmd);
    }

    /// The samples registered through this port.
    pub fn samples(&self) -> (samples: &HashMap<u64, SampleBuffer>)
        ensures
            registry_of(samples@) == self.registry(),
    {
        &self.sample_registry
    }

    /// Takes a completed recording, if one is waiting.
    pub fn poll_completed_recording(&self) -> Option<CompletedRecording> {
        try_next(&self.completed_rx)
    }
}

/// The device after `current` among `count` devices, going round.
pub open spec fn device_after(current: usize, count: usize) -> usize {
    ((current + 1) % (count as int)) as usize
}

/// The index of the device to switch to from `current`, among `count`
/// devices.
#[verifier::when_used_as_spec(device_after)]
pub fn next_device_index(current: usize, count: usize) -> (next: usize)
    requires
        count > 0,
    ensures
        next == device_after(current, count),
        next < count,
{
    let within = current % count;
    proof {
        let q = current as int / count as int;
        vstd::arithmetic::div_mod::lemma_fundamental_div_mod(current as int, count as int);
        assert(count * q == q * count) by (nonlinear_arith);
        if within + 1 == count {
            assert(current + 1 == (q + 1) * count + 0) by (nonlinear_arith)
                requires
                    current == q * count + within,
                    within + 1 == count,
            ;
            vstd::arithmetic::div_mod::lemma_fundamental_div_mod_converse(
                current + 1,
                count as int,
                q + 1,
                0,
            );
        } else {
            vstd::arithmetic::div_mod::lemma_fundamental_div_mod_converse(
                current + 1,
                count as int,
                q,
                within + 1,
            );
        }
    }
    if within + 1 == count {
        0
    } else {
        within + 1
    }
}

/// The index of the first of `names` that equals `wanted`, or zero if none
/// does.
pub fn position_or_first(names: &Vec<String>, wanted: &String) -> (index: usize)
    ensures
        forall|i: int| 0 <= i < index ==> names@[i]@ != wanted@,
        (index < names@.len() && names@[index as int]@ == wanted@) || (index == 0 && forall|
            i: int,
        |
            0 <= i < names@.len() ==> names@[i]@ != wanted@),
{
    let mut i: usize = 0;
    while i < names.len()
        invariant
            i <= names.len(),
            forall|j: int| 0 <= j < i ==> names@[j]@ != wanted@,
        decreases names.len() - i,
    {
        if names[i] == *wanted {
            return i;
        }
        i += 1;
    }
    0
}

} // verus!
