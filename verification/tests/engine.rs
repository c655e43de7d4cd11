use std::collections::HashMap;

use pocketty::bounce::bounce_offline;
use pocketty::command::{AudioCommand, TriggerParams};
use pocketty::control::{next_device_index, position_or_first, ControlPort};
use pocketty::effect::EffectSpec;
use pocketty::engine::{
    fill_silence, CompletedRecording, Engine, COMMAND_QUEUE_CAPACITY, COMPLETED_QUEUE_CAPACITY,
    INPUT_QUEUE_CAPACITY, TEMP_BUF_CAP,
};
use pocketty::frame::StereoFrame;
use pocketty::math::SampleMath;
use pocketty::recording::{FinishedRecording, PRE_ROLL_FRAMES};
use pocketty::sample_buffer::SampleBuffer;
use pocketty::sample_id::SampleId;

struct Fpu;

impl SampleMath for Fpu {
    fn sum(&self, a: u32, b: u32) -> u32 {
        (f32::from_bits(a) + f32::from_bits(b)).to_bits()
    }
    fn difference(&self, a: u32, b: u32) -> u32 {
        (f32::from_bits(a) - f32::from_bits(b)).to_bits()
    }
    fn product(&self, a: u32, b: u32) -> u32 {
        (f32::from_bits(a) * f32::from_bits(b)).to_bits()
    }
    fn quotient(&self, a: u32, b: u32) -> u32 {
        (f32::from_bits(a) / f32::from_bits(b)).to_bits()
    }
    fn remainder(&self, a: u32, b: u32) -> u32 {
        (f32::from_bits(a) % f32::from_bits(b)).to_bits()
    }
    fn round(&self, x: u32) -> u32 {
        f32::from_bits(x).round().to_bits()
    }
    fn tanh(&self, x: u32) -> u32 {
        f32::from_bits(x).tanh().to_bits()
    }
    fn ln(&self, x: u32) -> u32 {
        f32::from_bits(x).ln().to_bits()
    }
    fn powf(&self, base: u32, exponent: u32) -> u32 {
        f32::from_bits(base).powf(f32::from_bits(exponent)).to_bits()
    }
    fn from_count(&self, n: usize) -> u32 {
        (n as f32).to_bits()
    }
    fn to_index(&self, x: u32) -> usize {
        f32::from_bits(x) as usize
    }
}

fn b(x: f32) -> u32 {
    x.to_bits()
}

fn f(x: u32) -> f32 {
    f32::from_bits(x)
}

fn frame(left: f32, right: f32) -> StereoFrame {
    StereoFrame { left: b(left), right: b(right) }
}

fn constant(n: usize, value: f32) -> SampleBuffer {
    SampleBuffer::from_frames(vec![frame(value, value); n])
}

fn quiet_chunk(start: usize, len: usize) -> Vec<StereoFrame> {
    (start..start + len).map(|n| frame(n as f32 * 1.0e-6, 0.0)).collect()
}

fn trigger(id: u64, length: usize) -> TriggerParams {
    TriggerParams {
        sample_id: SampleId(id),
        trim_start: 0,
        length,
        gain: b(1.0),
        pitch: b(1.0),
        effect_chain: vec![],
        reverse: false,
        stutter_period_samples: None,
    }
}

fn register(engine: &mut Engine, id: u64, buffer: SampleBuffer) {
    engine.handle_cmd(AudioCommand::RegisterSample { id: SampleId(id), buffer }, &Fpu);
}

fn noise_block(n: usize) -> Vec<StereoFrame> {
    vec![frame(9.0, -9.0); n]
}

fn is_silent(block: &[StereoFrame]) -> bool {
    block.iter().all(|fr| *fr == StereoFrame::zero())
}

#[test]
fn queue_sizes() {
    assert_eq!(TEMP_BUF_CAP, 8192);
    assert_eq!(COMMAND_QUEUE_CAPACITY, 1024);
    assert_eq!(INPUT_QUEUE_CAPACITY, 2048);
    assert_eq!(COMPLETED_QUEUE_CAPACITY, 16);
}

#[test]
fn new_engine_is_empty_and_renders_silence() {
    let mut engine = Engine::new();
    assert_eq!(engine.voice_count(), 0);
    assert!(!engine.is_capturing());
    assert!(engine.sample(SampleId(0)).is_none());
    let mut out = noise_block(64);
    engine.render_block(&mut out, &Fpu);
    assert_eq!(out.len(), 64);
    assert!(is_silent(&out));
}

#[test]
fn fill_silence_clears_a_block() {
    let mut out = noise_block(5);
    fill_silence(&mut out);
    assert!(is_silent(&out));
    assert_eq!(out.len(), 5);
}

#[test]
fn register_sample_upserts() {
    let mut engine = Engine::new();
    register(&mut engine, 7, constant(3, 0.5));
    assert!(engine.is_registered(SampleId(7)));
    assert!(!engine.is_registered(SampleId(8)));
    assert_eq!(engine.sample(SampleId(7)).unwrap().data, vec![frame(0.5, 0.5); 3]);
    register(&mut engine, 7, constant(2, 0.25));
    assert_eq!(engine.sample(SampleId(7)).unwrap().data, vec![frame(0.25, 0.25); 2]);
}

#[test]
fn trigger_on_unregistered_sample_is_a_no_op() {
    let mut engine = Engine::new();
    register(&mut engine, 1, constant(100, 0.5));
    engine.handle_cmd(AudioCommand::Trigger(trigger(2, 100)), &Fpu);
    assert_eq!(engine.voice_count(), 0);
    let mut out = noise_block(16);
    engine.render_block(&mut out, &Fpu);
    assert!(is_silent(&out));
}

#[test]
fn trigger_spawns_a_voice_with_its_parameters() {
    let mut engine = Engine::new();
    register(&mut engine, 1, constant(100, 0.5));
    let mut params = trigger(1, 40);
    params.trim_start = 10;
    params.gain = b(0.7);
    params.pitch = b(1.25);
    params.stutter_period_samples = Some(12);
    engine.handle_cmd(AudioCommand::Trigger(params), &Fpu);
    assert_eq!(engine.voice_count(), 1);
    let v = engine.voice(0).unwrap();
    assert!(v.active);
    assert_eq!(v.trim_start, 10);
    assert_eq!(v.length, 40);
    assert_eq!(v.gain, b(0.7));
    assert_eq!(v.pitch, b(1.25));
    assert_eq!(v.stutter_period, Some(12));
    assert_eq!(v.pos, 0);
    assert_eq!(v.frames_rendered, 0);
    assert!(engine.voice(1).is_none());
}

#[test]
fn trim_start_past_the_end_is_pruned_on_first_render() {
    let mut engine = Engine::new();
    register(&mut engine, 1, constant(100, 0.5));
    let mut params = trigger(1, 50);
    params.trim_start = 100;
    engine.handle_cmd(AudioCommand::Trigger(params), &Fpu);
    assert_eq!(engine.voice_count(), 1);
    let mut out = noise_block(32);
    engine.render_block(&mut out, &Fpu);
    assert_eq!(engine.voice_count(), 0);
    assert!(is_silent(&out));
}

#[test]
fn a_voice_that_writes_nothing_adds_nothing() {
    let mut engine = Engine::new();
    register(&mut engine, 1, constant(4, 1.0));
    register(&mut engine, 2, constant(4000, 0.5));
    engine.handle_cmd(AudioCommand::Trigger(trigger(2, 4000)), &Fpu);
    let mut past_end = trigger(1, 4);
    past_end.trim_start = 4;
    past_end.effect_chain =
        vec![EffectSpec::Distortion { drive: b(1.0) }, EffectSpec::Bitcrusher { levels: 4 }];
    engine.handle_cmd(AudioCommand::Trigger(past_end), &Fpu);
    let mut out = noise_block(8);
    engine.render_block(&mut out, &Fpu);
    assert!(out.iter().all(|fr| *fr == frame(0.5, 0.5)));
    assert_eq!(engine.voice_count(), 1);
}

#[test]
fn scratch_block_serves_blocks_of_any_length_in_turn() {
    let mut engine = Engine::new();
    register(&mut engine, 1, constant(100_000, 0.5));
    engine.handle_cmd(AudioCommand::Trigger(trigger(1, 100_000)), &Fpu);
    for n in [16usize, TEMP_BUF_CAP + 10, 3, TEMP_BUF_CAP, 1] {
        let mut out = noise_block(n);
        engine.render_block(&mut out, &Fpu);
        assert_eq!(out.len(), n);
        assert!(out.iter().all(|fr| f(fr.left) == 0.5));
    }
}

#[test]
fn silent_sample_renders_exactly_n_zero_frames() {
    let n = 500;
    let mut engine = Engine::new();
    register(&mut engine, 1, constant(n, 0.0));
    engine.handle_cmd(AudioCommand::Trigger(trigger(1, n)), &Fpu);
    let mut out = noise_block(n);
    engine.render_block(&mut out, &Fpu);
    assert_eq!(out.len(), n);
    for fr in &out {
        assert_eq!(fr.left, 0);
        assert_eq!(fr.right, 0);
    }
    assert_eq!(engine.voice(0).unwrap().frames_rendered, n);
    let mut more = noise_block(8);
    engine.render_block(&mut more, &Fpu);
    assert_eq!(engine.voice_count(), 0);
    assert!(is_silent(&more));
}

#[test]
fn voices_are_mixed_by_addition() {
    let mut engine = Engine::new();
    register(&mut engine, 1, constant(4000, 0.5));
    register(&mut engine, 2, constant(4000, 0.125));
    engine.handle_cmd(AudioCommand::Trigger(trigger(1, 4000)), &Fpu);
    engine.handle_cmd(AudioCommand::Trigger(trigger(2, 4000)), &Fpu);
    engine.handle_cmd(AudioCommand::Trigger(trigger(2, 4000)), &Fpu);
    let mut out = noise_block(10);
    engine.render_block(&mut out, &Fpu);
    for fr in &out {
        assert_eq!(f(fr.left), 0.75);
        assert_eq!(f(fr.right), 0.75);
    }
    assert_eq!(engine.voice_count(), 3);
}

#[test]
fn effect_chain_runs_on_the_voice_alone() {
    let mut engine = Engine::new();
    register(&mut engine, 1, constant(4000, 0.3));
    register(&mut engine, 2, constant(4000, 0.3));
    let mut crushed = trigger(1, 4000);
    crushed.effect_chain = vec![EffectSpec::Bitcrusher { levels: 5 }];
    engine.handle_cmd(AudioCommand::Trigger(crushed), &Fpu);
    engine.handle_cmd(AudioCommand::Trigger(trigger(2, 4000)), &Fpu);
    let mut out = noise_block(4);
    engine.render_block(&mut out, &Fpu);
    assert_eq!(f(out[0].left), 0.5 + 0.3);
}

#[test]
fn block_longer_than_the_scratch_buffer() {
    let n = TEMP_BUF_CAP + 100;
    let mut engine = Engine::new();
    register(&mut engine, 1, constant(2 * n, 0.5));
    engine.handle_cmd(AudioCommand::Trigger(trigger(1, 2 * n)), &Fpu);
    let mut out = noise_block(n);
    engine.render_block(&mut out, &Fpu);
    assert!(out.iter().all(|fr| f(fr.left) == 0.5));
    let mut small = noise_block(3);
    engine.render_block(&mut small, &Fpu);
    assert!(small.iter().all(|fr| f(fr.left) == 0.5));
}

#[test]
fn empty_block_changes_nothing() {
    let mut engine = Engine::new();
    register(&mut engine, 1, constant(10, 0.5));
    engine.handle_cmd(AudioCommand::Trigger(trigger(1, 10)), &Fpu);
    engine.handle_cmd(AudioCommand::StopAllVoices, &Fpu);
    let mut out: Vec<StereoFrame> = vec![];
    engine.render_block(&mut out, &Fpu);
    assert_eq!(engine.voice_count(), 1);
    assert!(out.is_empty());
}

#[test]
fn stop_all_voices_twice_is_idempotent() {
    let mut engine = Engine::new();
    register(&mut engine, 1, constant(1000, 0.5));
    engine.handle_cmd(AudioCommand::Trigger(trigger(1, 1000)), &Fpu);
    engine.handle_cmd(AudioCommand::Trigger(trigger(1, 500)), &Fpu);
    engine.handle_cmd(AudioCommand::StopAllVoices, &Fpu);
    let once: Vec<_> = (0..2).map(|i| engine.voice(i).unwrap()).collect();
    assert_eq!(engine.voice_count(), 2);
    assert!(once.iter().all(|v| !v.active));
    engine.handle_cmd(AudioCommand::StopAllVoices, &Fpu);
    assert_eq!(engine.voice_count(), 2);
    for (i, v) in once.iter().enumerate() {
        let again = engine.voice(i).unwrap();
        assert!(!again.active);
        assert_eq!(again.length, v.length);
        assert_eq!(again.pos, v.pos);
    }
    let mut out = noise_block(16);
    engine.render_block(&mut out, &Fpu);
    assert!(is_silent(&out));
    assert_eq!(engine.voice_count(), 0);
    engine.handle_cmd(AudioCommand::StopAllVoices, &Fpu);
    engine.handle_cmd(AudioCommand::StopAllVoices, &Fpu);
    assert_eq!(engine.voice_count(), 0);
}

#[test]
fn stopped_voices_are_pruned_in_order() {
    let mut engine = Engine::new();
    register(&mut engine, 1, constant(1000, 0.5));
    for length in [5usize, 900, 7, 800, 3] {
        engine.handle_cmd(AudioCommand::Trigger(trigger(1, length)), &Fpu);
    }
    let mut out = noise_block(20);
    engine.render_block(&mut out, &Fpu);
    assert_eq!(engine.voice_count(), 2);
    assert_eq!(engine.voice(0).unwrap().length, 900);
    assert_eq!(engine.voice(1).unwrap().length, 800);
}

#[test]
fn set_playback_position_moves_the_latest_active_voice() {
    let mut engine = Engine::new();
    register(&mut engine, 1, constant(1000, 0.5));
    register(&mut engine, 2, constant(1000, 0.5));
    engine.handle_cmd(AudioCommand::Trigger(trigger(1, 100)), &Fpu);
    engine.handle_cmd(AudioCommand::Trigger(trigger(1, 200)), &Fpu);
    engine.handle_cmd(AudioCommand::Trigger(trigger(2, 300)), &Fpu);
    engine.handle_cmd(
        AudioCommand::SetPlaybackPosition { sample_id: SampleId(1), position: b(42.0) },
        &Fpu,
    );
    assert_eq!(f(engine.voice(0).unwrap().pos), 0.0);
    assert_eq!(f(engine.voice(1).unwrap().pos), 42.0);
    assert_eq!(f(engine.voice(2).unwrap().pos), 0.0);
    engine.handle_cmd(
        AudioCommand::SetPlaybackPosition { sample_id: SampleId(1), position: b(5000.0) },
        &Fpu,
    );
    assert_eq!(f(engine.voice(1).unwrap().pos), 199.0);
    engine.handle_cmd(
        AudioCommand::SetPlaybackPosition { sample_id: SampleId(3), position: b(7.0) },
        &Fpu,
    );
    assert_eq!(f(engine.voice(0).unwrap().pos), 0.0);
    assert_eq!(f(engine.voice(2).unwrap().pos), 0.0);
}

#[test]
fn set_playback_position_skips_stopped_voices() {
    let mut engine = Engine::new();
    register(&mut engine, 1, constant(1000, 0.5));
    engine.handle_cmd(AudioCommand::Trigger(trigger(1, 100)), &Fpu);
    engine.handle_cmd(AudioCommand::StopAllVoices, &Fpu);
    engine.handle_cmd(
        AudioCommand::SetPlaybackPosition { sample_id: SampleId(1), position: b(42.0) },
        &Fpu,
    );
    assert_eq!(f(engine.voice(0).unwrap().pos), 0.0);
}

#[test]
fn stop_recording_while_idle_does_nothing() {
    let mut engine = Engine::new();
    engine.handle_cmd(AudioCommand::StopRecording, &Fpu);
    assert!(engine.sample(SampleId(0)).is_none());
    assert!(!engine.is_capturing());
}

#[test]
fn armed_recording_that_never_triggers_registers_one_silent_frame() {
    let (completed_tx, completed_rx) = crossbeam_channel::bounded::<CompletedRecording>(16);
    let mut engine = Engine::new();
    engine.set_completed_tx(completed_tx);
    engine.handle_cmd(AudioCommand::StartRecording { sample_id: SampleId(5) }, &Fpu);
    engine.feed_input(&vec![quiet_chunk(0, 200)]);
    assert!(!engine.is_capturing());
    engine.handle_cmd(AudioCommand::StopRecording, &Fpu);
    assert_eq!(engine.sample(SampleId(5)).unwrap().data, vec![StereoFrame::zero()]);
    assert!(completed_rx.try_recv().is_err());
}

#[test]
fn recording_scenario_through_the_queues() {
    let (input_tx, input_rx) = crossbeam_channel::bounded::<Vec<StereoFrame>>(2048);
    let (completed_tx, completed_rx) = crossbeam_channel::bounded::<CompletedRecording>(16);
    let mut engine = Engine::new();
    engine.set_input_rx(input_rx);
    engine.set_completed_tx(completed_tx);
    engine.handle_cmd(AudioCommand::StartRecording { sample_id: SampleId(11) }, &Fpu);

    let mut heard: Vec<StereoFrame> = Vec::new();
    for c in 0..10 {
        let chunk = quiet_chunk(c * 700, 700);
        heard.extend_from_slice(&chunk);
        input_tx.try_send(chunk).unwrap();
        if c % 3 == 0 {
            engine.drain_input();
        }
    }
    engine.drain_input();
    assert!(!engine.is_capturing());

    let mut crossing = quiet_chunk(7000, 32);
    crossing[5] = frame(0.0, -0.3);
    let later_a = quiet_chunk(8000, 10);
    let later_b = vec![frame(0.9, 0.9); 3];
    input_tx.try_send(crossing.clone()).unwrap();
    input_tx.try_send(later_a.clone()).unwrap();
    engine.drain_input();
    assert!(engine.is_capturing());
    input_tx.try_send(later_b.clone()).unwrap();
    engine.drain_input();
    engine.drain_input();

    heard.extend_from_slice(&crossing[..5]);
    let mut expected: Vec<StereoFrame> = heard[heard.len() - PRE_ROLL_FRAMES..].to_vec();
    expected.extend_from_slice(&crossing[5..]);
    expected.extend_from_slice(&later_a);
    expected.extend_from_slice(&later_b);

    engine.handle_cmd(AudioCommand::StopRecording, &Fpu);
    assert!(!engine.is_capturing());
    assert_eq!(engine.sample(SampleId(11)).unwrap().data, expected);
    let completed = completed_rx.try_recv().unwrap();
    assert_eq!(completed.sample_id, SampleId(11));
    assert_eq!(completed.buffer.data, expected);
    assert!(completed_rx.try_recv().is_err());
}

#[test]
fn drain_input_without_a_queue_does_nothing() {
    let mut engine = Engine::new();
    engine.handle_cmd(AudioCommand::StartRecording { sample_id: SampleId(1) }, &Fpu);
    engine.drain_input();
    assert!(!engine.is_capturing());
}

#[test]
fn start_recording_rearms_whatever_the_state() {
    let mut engine = Engine::new();
    engine.handle_cmd(AudioCommand::StartRecording { sample_id: SampleId(1) }, &Fpu);
    engine.feed_input(&vec![vec![frame(0.9, 0.9); 4]]);
    assert!(engine.is_capturing());
    engine.handle_cmd(AudioCommand::StartRecording { sample_id: SampleId(2) }, &Fpu);
    assert!(!engine.is_capturing());
    engine.handle_cmd(AudioCommand::StopRecording, &Fpu);
    assert!(engine.sample(SampleId(1)).is_none());
    assert_eq!(engine.sample(SampleId(2)).unwrap().data, vec![StereoFrame::zero()]);
}

#[test]
fn full_completion_queue_drops_the_recording_but_still_registers() {
    let (completed_tx, completed_rx) = crossbeam_channel::bounded::<CompletedRecording>(1);
    let mut engine = Engine::new();
    engine.set_completed_tx(completed_tx);
    for id in [1u64, 2] {
        engine.handle_cmd(AudioCommand::StartRecording { sample_id: SampleId(id) }, &Fpu);
        engine.feed_input(&vec![vec![frame(0.9, 0.9); 4]]);
        engine.handle_cmd(AudioCommand::StopRecording, &Fpu);
    }
    assert!(engine.is_registered(SampleId(1)));
    assert!(engine.is_registered(SampleId(2)));
    assert_eq!(completed_rx.try_recv().unwrap().sample_id, SampleId(1));
    assert!(completed_rx.try_recv().is_err());
}

#[test]
fn handle_all_applies_in_order() {
    let mut engine = Engine::new();
    let cmds = vec![
        AudioCommand::Trigger(trigger(1, 10)),
        AudioCommand::RegisterSample { id: SampleId(1), buffer: constant(100, 0.5) },
        AudioCommand::Trigger(trigger(1, 20)),
        AudioCommand::StopAllVoices,
        AudioCommand::Trigger(trigger(1, 30)),
    ];
    engine.handle_all(&cmds, &Fpu);
    assert_eq!(engine.voice_count(), 2);
    assert_eq!(engine.voice(0).unwrap().length, 20);
    assert!(!engine.voice(0).unwrap().active);
    assert_eq!(engine.voice(1).unwrap().length, 30);
    assert!(engine.voice(1).unwrap().active);
}

#[test]
fn process_block_applies_commands_before_rendering() {
    let (tx, rx) = crossbeam_channel::bounded::<AudioCommand>(1024);
    let mut engine = Engine::new();
    tx.try_send(AudioCommand::RegisterSample { id: SampleId(1), buffer: constant(4000, 0.5) })
        .unwrap();
    tx.try_send(AudioCommand::Trigger(trigger(1, 4000))).unwrap();
    let mut out = noise_block(8);
    engine.process_block(&rx, &mut out, &Fpu);
    assert!(out.iter().all(|fr| f(fr.left) == 0.5));
    assert_eq!(engine.voice_count(), 1);
    tx.try_send(AudioCommand::StopAllVoices).unwrap();
    let mut next = noise_block(8);
    engine.process_block(&rx, &mut next, &Fpu);
    assert!(is_silent(&next));
    assert_eq!(engine.voice_count(), 0);
    let mut idle = noise_block(8);
    engine.process_block(&rx, &mut idle, &Fpu);
    assert!(is_silent(&idle));
}

#[test]
fn bounce_yields_steps_times_frames() {
    let mut samples: HashMap<u64, SampleBuffer> = HashMap::new();
    samples.insert(1, constant(10_000, 0.5));
    samples.insert(2, constant(10, 0.25));
    for (n_steps, frames_per_step) in [(16usize, 100usize), (1, 1), (0, 50), (4, 0), (3, 777)] {
        let steps: Vec<Vec<AudioCommand>> = (0..n_steps)
            .map(|s| {
                if s % 2 == 0 {
                    vec![AudioCommand::Trigger(trigger(1, 10_000))]
                } else {
                    vec![AudioCommand::Trigger(trigger(2, 10)), AudioCommand::StopAllVoices]
                }
            })
            .collect();
        let bounced = bounce_offline(&samples, &steps, frames_per_step, &Fpu);
        assert_eq!(bounced.len(), n_steps * frames_per_step);
    }
}

#[test]
fn bounce_truncates_a_voice_at_the_pattern_boundary() {
    let mut samples: HashMap<u64, SampleBuffer> = HashMap::new();
    samples.insert(1, constant(10_000, 0.5));
    let steps = vec![vec![], vec![AudioCommand::Trigger(trigger(1, 10_000))], vec![]];
    let bounced = bounce_offline(&samples, &steps, 50, &Fpu);
    assert_eq!(bounced.len(), 150);
    assert!(is_silent(&bounced.data[..50]));
    assert!(bounced.data[50..].iter().all(|fr| f(fr.left) == 0.5));
}

#[test]
fn bounce_without_triggers_is_silent() {
    let mut samples: HashMap<u64, SampleBuffer> = HashMap::new();
    samples.insert(1, constant(100, 0.5));
    let steps = vec![
        vec![AudioCommand::StopAllVoices],
        vec![AudioCommand::SetPlaybackPosition { sample_id: SampleId(1), position: b(3.0) }],
    ];
    let bounced = bounce_offline(&samples, &steps, 20, &Fpu);
    assert_eq!(bounced.len(), 40);
    assert!(is_silent(&bounced.data));
}

#[test]
fn bounce_leaves_the_given_samples_alone() {
    let mut samples: HashMap<u64, SampleBuffer> = HashMap::new();
    samples.insert(1, constant(100, 0.5));
    let steps = vec![vec![AudioCommand::RegisterSample {
        id: SampleId(1),
        buffer: constant(1, 0.0),
    }]];
    let _ = bounce_offline(&samples, &steps, 20, &Fpu);
    assert_eq!(samples[&1].len(), 100);
}

#[test]
fn control_port_mirrors_registered_samples_and_forwards() {
    let (tx, rx) = crossbeam_channel::bounded::<AudioCommand>(2);
    let (completed_tx, completed_rx) = crossbeam_channel::bounded::<CompletedRecording>(16);
    let mut port = ControlPort::new(tx, completed_rx);
    assert!(port.samples().is_empty());
    port.send(AudioCommand::RegisterSample { id: SampleId(4), buffer: constant(3, 0.5) });
    port.send(AudioCommand::StopAllVoices);
    port.send(AudioCommand::RegisterSample { id: SampleId(5), buffer: constant(2, 0.5) });
    assert_eq!(port.samples().len(), 2);
    assert_eq!(port.samples()[&4].len(), 3);
    assert_eq!(port.samples()[&5].len(), 2);
    assert!(matches!(rx.try_recv().unwrap(), AudioCommand::RegisterSample { .. }));
    assert!(matches!(rx.try_recv().unwrap(), AudioCommand::StopAllVoices));
    assert!(rx.try_recv().is_err());

    assert!(port.poll_completed_recording().is_none());
    completed_tx
        .try_send(CompletedRecording { sample_id: SampleId(9), buffer: constant(1, 0.0) })
        .unwrap();
    assert_eq!(port.poll_completed_recording().unwrap().sample_id, SampleId(9));
    assert!(port.poll_completed_recording().is_none());
}

#[test]
fn device_index_goes_round() {
    assert_eq!(next_device_index(0, 3), 1);
    assert_eq!(next_device_index(1, 3), 2);
    assert_eq!(next_device_index(2, 3), 0);
    assert_eq!(next_device_index(0, 1), 0);
    assert_eq!(next_device_index(17, 3), 0);
    assert_eq!(next_device_index(4, 3), 2);
    assert_eq!(next_device_index(usize::MAX, 3), (usize::MAX % 3 + 1) % 3);
}

#[test]
fn position_or_first_finds_the_name() {
    let names = vec!["a".to_string(), "b".to_string(), "c".to_string(), "b".to_string()];
    assert_eq!(position_or_first(&names, &"b".to_string()), 1);
    assert_eq!(position_or_first(&names, &"a".to_string()), 0);
    assert_eq!(position_or_first(&names, &"zz".to_string()), 0);
    assert_eq!(position_or_first(&vec![], &"a".to_string()), 0);
}

#[test]
fn a_completed_recording_carries_the_frames_of_the_capture() {
    let finished = FinishedRecording {
        sample_id: SampleId(31),
        buffer: constant(3, 0.25),
        captured: true,
    };
    let completed = CompletedRecording::of(&finished);
    assert_eq!(completed.sample_id, SampleId(31));
    assert_eq!(completed.buffer.data, finished.buffer.data);
    assert_eq!(completed.buffer.data.len(), 3);
}
