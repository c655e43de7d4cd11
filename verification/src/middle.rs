//! The sequencer: it keeps the project and the transport, turns input
//! events into changes of both, and says which commands the engine is to
//! get.

use vstd::prelude::*;
use crate::binary32;
use crate::command::{AudioCommand, CommandModel, TriggerParams};
use crate::effect::EffectSpec;
use crate::math::{
    is_count, is_difference, is_index, is_ln, is_powf, is_product, is_quotient, is_sum,
    SampleMath,
};
use crate::pipeline::{
    HeldButtons, Pattern, ProjectModel, ProjectState, SoundModel, SoundSlot, Step, Track,
};
use crate::sample_id::{following, next_sample_id, SampleId, SampleIdCounter};
use crate::sample_buffer::{wav_loaded, LoadError, SampleBuffer, WavData};
use crate::shared::{
    DisplayState, DisplayText, InputEvent, LedState, ParamPage, NUM_PADS, NUM_PATTERNS,
    NUM_SOUNDS, STEPS_PER_PATTERN,
};

verus! {

/// How long FX may be held, in microseconds, for its release to count as a
/// tap.
pub const FX_TAP_THRESHOLD_MICROS: u64 = 200_000;

/// Bit pattern of 44100, the rate at which stutter periods are counted.
pub const SAMPLE_RATE: u32 = 0x472C_4400;

/// Bit pattern of 15000000: the microseconds of a sixteenth note at one
/// beat per minute.
pub const STEP_MICROS_AT_ONE_BPM: u32 = 0x4B64_E1C0;

/// Bit pattern of 60.
pub const SIXTY: u32 = 0x4270_0000;

/// Bit pattern of 240.
pub const TWO_HUNDRED_FORTY: u32 = 0x4370_0000;

/// Bit pattern of 180, the tempo range that a full knob turn covers.
pub const BPM_SPAN: u32 = 0x4334_0000;

/// Bit pattern of 2.
pub const TWO: u32 = 0x4000_0000;

/// Bit pattern of one half.
pub const HALF: u32 = 0x3F00_0000;

/// Bit pattern of 1.5, the pitch range that a full knob turn covers.
pub const PITCH_SPAN: u32 = 0x3FC0_0000;

/// Bit pattern of 4.
pub const FOUR: u32 = 0x4080_0000;

/// Bit pattern of 8.
pub const EIGHT: u32 = 0x4100_0000;

/// Bit pattern of 12, the semitones of an octave.
pub const TWELVE: u32 = 0x4140_0000;

/// Bit pattern of 16, the full master volume.
pub const SIXTEEN: u32 = 0x4180_0000;

/// Bit pattern of 0.3, the drive of the light distortion.
pub const DRIVE_LIGHT: u32 = 0x3E99_999A;

/// Bit pattern of 0.6, the drive of the medium distortion.
pub const DRIVE_MEDIUM: u32 = 0x3F19_999A;

/// Bit pattern of 80, a tempo preset.
pub const BPM_SLOW: u32 = 0x42A0_0000;

/// Bit pattern of 120, a tempo preset.
pub const BPM_MEDIUM: u32 = 0x42F0_0000;

/// Bit pattern of 140, a tempo preset.
pub const BPM_FAST: u32 = 0x430C_0000;

/// Bit pattern of 20, the lowest filter cutoff, in hertz.
pub const CUTOFF_MIN: u32 = 0x41A0_0000;

/// Bit pattern of 20000, the highest filter cutoff, in hertz.
pub const CUTOFF_MAX: u32 = 0x469C_4000;

/// Bit pattern of 1.1, the factor of one knob step up on the cutoff.
pub const CUTOFF_UP: u32 = 0x3F8C_CCCD;

/// Bit pattern of 0.9, the factor of one knob step down on the cutoff.
pub const CUTOFF_DOWN: u32 = 0x3F66_6666;

/// Bit pattern of 0.2, the share of a knob turn that the coarse scratch
/// moves by.
pub const SCRATCH_COARSE: u32 = 0x3E4C_CCCD;

/// Bit pattern of 0.05, the share of a knob turn that the fine scratch moves
/// by.
pub const SCRATCH_FINE: u32 = 0x3D4C_CCCD;

/// Bit pattern of 1000, the ratio of the highest filter cutoff to the
/// lowest.
pub const CUTOFF_RATIO: u32 = 0x447A_0000;

/// The effect chain that the effect numbered `fx` puts on a voice: 1 to 3
/// distort lightly, moderately and heavily; 4 to 6 crush to 256, 32 and 8
/// levels; the others put nothing on the chain.
pub open spec fn effect_chain_for(fx: Option<u8>) -> Seq<EffectSpec> {
    if fx == Some(1u8) {
        seq![EffectSpec::Distortion { drive: DRIVE_LIGHT }]
    } else if fx == Some(2u8) {
        seq![EffectSpec::Distortion { drive: DRIVE_MEDIUM }]
    } else if fx == Some(3u8) {
        seq![EffectSpec::Distortion { drive: binary32::ONE }]
    } else if fx == Some(4u8) {
        seq![EffectSpec::Bitcrusher { levels: 256 }]
    } else if fx == Some(5u8) {
        seq![EffectSpec::Bitcrusher { levels: 32 }]
    } else if fx == Some(6u8) {
        seq![EffectSpec::Bitcrusher { levels: 8 }]
    } else {
        Seq::empty()
    }
}

/// The effect chain of the effect numbered `fx`.
pub fn build_effect_chain(fx: Option<u8>) -> (chain: Vec<EffectSpec>)
    ensures
        chain@ == effect_chain_for(fx),
{
    let mut chain: Vec<EffectSpec> = Vec::new();
    match fx {
        Some(1) => chain.push(EffectSpec::Distortion { drive: DRIVE_LIGHT }),
        Some(2) => chain.push(EffectSpec::Distortion { drive: DRIVE_MEDIUM }),
        Some(3) => chain.push(EffectSpec::Distortion { drive: binary32::ONE }),
        Some(4) => chain.push(EffectSpec::Bitcrusher { levels: 256 }),
        Some(5) => chain.push(EffectSpec::Bitcrusher { levels: 32 }),
        Some(6) => chain.push(EffectSpec::Bitcrusher { levels: 8 }),
        _ => {},
    }
    assert(chain@ =~= effect_chain_for(fx));
    chain
}

/// The factor that the effect numbered `fx` puts on the pitch: 7 plays an
/// octave up, 8 an octave down.
pub open spec fn pitch_factor_for(fx: Option<u8>) -> u32 {
    if fx == Some(7u8) {
        TWO
    } else if fx == Some(8u8) {
        HALF
    } else {
        binary32::ONE
    }
}

/// Whether `period` is the stutter period that the effect numbered `fx`
/// gives a voice at the tempo `bpm`: that of a sixteenth note under effect
/// 9, of a thirty-second under effect 10, and none under any other.
pub open spec fn trigger_stutter<M: SampleMath>(
    math: &M,
    bpm: u32,
    fx: Option<u8>,
    period: Option<u32>,
) -> bool {
    if fx == Some(9u8) {
        period.is_some() && stutter_period(math, bpm, FOUR, period.unwrap())
    } else if fx == Some(10u8) {
        period.is_some() && stutter_period(math, bpm, EIGHT, period.unwrap())
    } else {
        period.is_none()
    }
}

/// How the effect numbered `fx` changes a trigger: whether the voice plays
/// in reverse (15), its stutter period in frames (9 for a sixteenth note,
/// 10 for a thirty-second, at the tempo `bpm`), and the factor on its pitch.
pub fn derive_trigger_mods_from_fx<M: SampleMath>(fx: Option<u8>, bpm: u32, math: &M) -> (mods: (
    bool,
    Option<u32>,
    u32,
))
    ensures
        mods.0 == (fx == Some(15u8)),
        trigger_stutter(math, bpm, fx, mods.1),
        mods.2 == pitch_factor_for(fx),
{
    let reverse = match fx {
        Some(15) => true,
        _ => false,
    };
    let stutter_period_samples = match fx {
        Some(9) => Some(stutter_frames(bpm, FOUR, math)),
        Some(10) => Some(stutter_frames(bpm, EIGHT, math)),
        _ => None,
    };
    let pitch_mult = match fx {
        Some(7) => TWO,
        Some(8) => HALF,
        _ => binary32::ONE,
    };
    (reverse, stutter_period_samples, pitch_mult)
}

/// Whether `period` is a value that `math` gives for the frames of one
/// `division`-th of a beat at the tempo `bpm`: the whole part of
/// `60 / (bpm * division) * 44100`, and the largest period where that is
/// beyond it.
pub open spec fn stutter_period<M: SampleMath>(
    math: &M,
    bpm: u32,
    division: u32,
    period: u32,
) -> bool {
    exists|beat: u32, secs: u32, frames: u32, whole: usize|
        {
            &&& #[trigger] is_product(math, bpm, division, beat)
            &&& #[trigger] is_quotient(math, SIXTY, beat, secs)
            &&& #[trigger] is_product(math, secs, SAMPLE_RATE, frames)
            &&& #[trigger] is_index(math, frames, whole)
            &&& period == if whole > u32::MAX {
                u32::MAX
            } else {
                whole as u32
            }
        }
}

/// The frames of one `division`-th of a beat at the tempo `bpm`.
fn stutter_frames<M: SampleMath>(bpm: u32, division: u32, math: &M) -> (period: u32)
    ensures
        stutter_period(math, bpm, division, period),
{
    let beat = math.product(bpm, division);
    let secs = math.quotient(SIXTY, beat);
    let frames = math.product(secs, SAMPLE_RATE);
    let whole = math.to_index(frames);
    assert(is_product(math, bpm, division, beat) && is_quotient(math, SIXTY, beat, secs)
        && is_product(math, secs, SAMPLE_RATE, frames) && is_index(math, frames, whole));
    if whole > u32::MAX as usize {
        u32::MAX
    } else {
        whole as u32
    }
}

/// How many steps of the major scale pad `pad` lies above the lowest pad.
/// The bottom row is the lowest and each row rises from left to right; a
/// number that names no pad counts as the lowest.
pub open spec fn scale_degree(pad: u8) -> nat {
    if pad < 16 {
        ((3 - pad / 4) * 4 + pad % 4) as nat
    } else {
        0
    }
}

/// The semitones that the `degree`-th step of the major scale lies above
/// its root, over two octaves.
pub open spec fn major_semitones(degree: nat) -> nat {
    let within = degree % 7;
    let octaves = degree / 7;
    (octaves * 12 + if within == 0 {
        0nat
    } else if within == 1 {
        2nat
    } else if within == 2 {
        4nat
    } else if within == 3 {
        5nat
    } else if within == 4 {
        7nat
    } else if within == 5 {
        9nat
    } else {
        11nat
    }) as nat
}

/// The semitones that pad `pad` plays above the sound's own pitch.
pub fn pad_semitones(pad: u8) -> (semitones: u8)
    ensures
        semitones == major_semitones(scale_degree(pad)),
        semitones <= 26,
{
    let degree: u8 = if pad < 16 {
        (3 - pad / 4) * 4 + pad % 4
    } else {
        0
    };
    let within = degree % 7;
    let octaves = degree / 7;
    let offset: u8 = if within == 0 {
        0
    } else if within == 1 {
        2
    } else if within == 2 {
        4
    } else if within == 3 {
        5
    } else if within == 4 {
        7
    } else if within == 5 {
        9
    } else {
        11
    };
    octaves * 12 + offset
}

/// Whether `pitch` is a value that `math` gives for the factor on the pitch
/// that plays pad `pad` on the major scale: two to the power of its
/// semitones over twelve.
pub open spec fn pad_pitch<M: SampleMath>(math: &M, pad: u8, pitch: u32) -> bool {
    exists|semitones: u32, octaves: u32|
        {
            &&& #[trigger] is_count(math, major_semitones(scale_degree(pad)) as usize, semitones)
            &&& #[trigger] is_quotient(math, semitones, TWELVE, octaves)
            &&& is_powf(math, TWO, octaves, pitch)
        }
}

/// The factor on the pitch that plays pad `pad` on the major scale: two to
/// the power of its semitones over twelve.
fn pad_to_major_scale_pitch<M: SampleMath>(pad_index: u8, math: &M) -> (pitch: u32)
    ensures
        pad_pitch(math, pad_index, pitch),
{
    let semitones = math.from_count(pad_semitones(pad_index) as usize);
    let octaves = math.quotient(semitones, TWELVE);
    assert(is_count(math, major_semitones(scale_degree(pad_index)) as usize, semitones)
        && is_quotient(math, semitones, TWELVE, octaves));
    math.powf(TWO, octaves)
}

/// The step after `current`, going round the pattern.
pub open spec fn step_after(current: u8) -> u8 {
    if current >= STEPS_PER_PATTERN - 1 {
        0
    } else {
        (current + 1) as u8
    }
}

/// Whether `micros` is a value that `math` gives for the duration of one
/// step at the tempo `bpm`, in microseconds: the whole part of
/// `15000000 / bpm`, a quarter of a beat.
pub open spec fn step_duration<M: SampleMath>(math: &M, bpm: u32, micros: u64) -> bool {
    exists|exact: u32, whole: usize|
        {
            &&& #[trigger] is_quotient(math, STEP_MICROS_AT_ONE_BPM, bpm, exact)
            &&& #[trigger] is_index(math, exact, whole)
            &&& micros == whole
        }
}

/// The duration of one step at the tempo `bpm`, in microseconds: a quarter
/// of a beat.
fn step_micros<M: SampleMath>(bpm: u32, math: &M) -> (micros: u64)
    ensures
        step_duration(math, bpm, micros),
{
    let exact = math.quotient(STEP_MICROS_AT_ONE_BPM, bpm);
    let whole = math.to_index(exact);
    assert(is_quotient(math, STEP_MICROS_AT_ONE_BPM, bpm, exact) && is_index(math, exact, whole));
    whole as u64
}

/// The duration of a step under the six-eight feel: four thirds of `base`
/// for an even step and two thirds for an odd one.
pub open spec fn shuffled(base: u64, even: bool) -> u64 {
    let scaled = if even {
        base * 4 / 3
    } else {
        base * 2 / 3
    };
    if scaled > u64::MAX {
        u64::MAX
    } else {
        scaled as u64
    }
}

/// The duration of a step under the six-eight feel.
#[verifier::when_used_as_spec(shuffled)]
pub fn shuffle(base: u64, even: bool) -> (duration: u64)
    ensures
        duration == shuffled(base, even),
{
    let wide: u128 = if even {
        (base as u128) * 4 / 3
    } else {
        (base as u128) * 2 / 3
    };
    if wide > u64::MAX as u128 {
        u64::MAX
    } else {
        wide as u64
    }
}

/// The held buttons as plain values.
pub ghost struct HeldModel {
    pub sound: bool,
    pub pattern: bool,
    pub record: bool,
    pub fx: bool,
    pub bpm: bool,
    pub write_held: bool,
    pub grid: Seq<bool>,
}

/// The held buttons as plain values.
pub open spec fn held_model(held: HeldButtons) -> HeldModel {
    HeldModel {
        sound: held.sound,
        pattern: held.pattern,
        record: held.record,
        fx: held.fx,
        bpm: held.bpm,
        write_held: held.write_held,
        grid: held.grid@,
    }
}

/// The sequencer.
pub struct Middle {
    state: ProjectState,
    held: HeldButtons,
    playing: bool,
    write_mode: bool,
    current_step: u8,
    step_accumulator: u64,
    chain_position: usize,
    param_page: ParamPage,
    fx_down_at: Option<u64>,
    active_rt_effect: Option<u8>,
    scratch_position: u32,
    ids: SampleIdCounter,
}

/// The sequencer as plain values.
pub ghost struct MiddleModel {
    pub project: ProjectModel,
    pub held: HeldModel,
    pub playing: bool,
    /// Whether pads toggle steps rather than play.
    pub write_mode: bool,
    /// The step that sounded last.
    pub current_step: u8,
    /// The time since the last step, in microseconds.
    pub step_accumulator: u64,
    /// Where in the pattern chain the transport is.
    pub chain_position: usize,
    pub param_page: ParamPage,
    /// When FX went down, in microseconds, while it is down.
    pub fx_down_at: Option<u64>,
    /// The effect that is held down, 1 to 15.
    pub active_rt_effect: Option<u8>,
    /// Where the scratch effect stands in the sound, from 0 to 1, as a
    /// binary32 bit pattern.
    pub scratch_position: u32,
    /// The number that the next sample identity will carry.
    pub next_id: u64,
}

impl MiddleModel {
    /// The sequencer at rest over a project: nothing held, stopped, on the
    /// tone page.
    pub open spec fn at_rest(project: ProjectModel) -> MiddleModel {
        MiddleModel {
            project,
            held: HeldModel {
                sound: false,
                pattern: false,
                record: false,
                fx: false,
                bpm: false,
                write_held: false,
                grid: Seq::new(NUM_SOUNDS as nat, |i: int| false),
            },
            playing: false,
            write_mode: false,
            current_step: 0,
            step_accumulator: 0,
            chain_position: 0,
            param_page: ParamPage::Tone,
            fx_down_at: None,
            active_rt_effect: None,
            scratch_position: 0,
            next_id: 0,
        }
    }

    /// Whether every index names something that exists.
    pub open spec fn in_range(self) -> bool {
        &&& self.project.in_range()
        &&& self.current_step < STEPS_PER_PATTERN
        &&& self.project.pattern_chain.len() > 0 ==> self.chain_position
            < self.project.pattern_chain.len()
        &&& self.project.pattern_chain.len() == 0 ==> self.chain_position == 0
    }

    /// The step of sound `sound` at position `si` of pattern `pi`.
    pub open spec fn step_at(self, pi: int, sound: int, si: int) -> Step {
        self.project.patterns[pi][sound][si]
    }

    /// The selected sound.
    pub open spec fn sound(self) -> SoundModel {
        self.project.sounds[self.project.selected_sound as int]
    }
}

/// Whether `volume` is a value that `math` gives for the share of full
/// volume that the master volume stands for: `master_volume / 16`.
pub open spec fn is_volume<M: SampleMath>(math: &M, master_volume: u8, volume: u32) -> bool {
    exists|count: u32| #[trigger]
        is_count(math, master_volume as usize, count) && is_quotient(
            math,
            count,
            SIXTEEN,
            volume,
        )
}

/// Whether `gain` is a value that `math` gives for the gain of a trigger:
/// `base` times the master volume's share of full volume.
pub open spec fn trigger_gain<M: SampleMath>(
    math: &M,
    master_volume: u8,
    base: u32,
    gain: u32,
) -> bool {
    exists|volume: u32| #[trigger]
        is_volume(math, master_volume, volume) && is_product(math, base, volume, gain)
}

/// Whether `pitch` is a value that `math` gives for the pitch of a trigger:
/// `base`, times the pad's factor where a pad is played, times the factor of
/// the effect numbered `fx`.
pub open spec fn trigger_pitch<M: SampleMath>(
    math: &M,
    base: u32,
    pad: Option<u32>,
    fx: Option<u8>,
    pitch: u32,
) -> bool {
    match pad {
        None => is_product(math, base, pitch_factor_for(fx), pitch),
        Some(factor) => exists|raised: u32| #[trigger]
            is_product(math, base, factor, raised) && is_product(
                math,
                raised,
                pitch_factor_for(fx),
                pitch,
            ),
    }
}

/// Whether `cmd` triggers `sound` under the effect numbered `fx`: it names
/// the sound's sample and window, carries the effect's chain, plays in
/// reverse under effect 15 and stutters under effects 9 and 10; its gain is
/// `base_gain` at the master volume, and its pitch is `base_pitch` times the
/// factors of the pad and of the effect.
pub open spec fn plays<M: SampleMath>(
    math: &M,
    master_volume: u8,
    bpm: u32,
    sound: SoundModel,
    base_gain: u32,
    base_pitch: u32,
    pad: Option<u32>,
    fx: Option<u8>,
    cmd: CommandModel,
) -> bool {
    cmd matches CommandModel::Trigger(params) && {
        &&& Some(params.sample_id) == sound.sample_id
        &&& params.trim_start == sound.trim_start
        &&& params.length == sound.length
        &&& params.effect_chain == effect_chain_for(fx)
        &&& params.reverse == (fx == Some(15u8))
        &&& trigger_stutter(math, bpm, fx, params.stutter_period_samples)
        &&& trigger_gain(math, master_volume, base_gain, params.gain)
        &&& trigger_pitch(math, base_pitch, pad, fx, params.pitch)
    }
}

/// The gain that a step plays a sound at, before the master volume: its
/// gain lock or, without one, the sound's gain.
pub open spec fn step_gain(step: Step, sound: SoundModel) -> u32 {
    match step.gain_lock {
        Some(locked) => locked,
        None => sound.gain,
    }
}

/// The pitch that a step plays a sound at, before any effect: its pitch lock
/// or, without one, the sound's pitch.
pub open spec fn step_pitch(step: Step, sound: SoundModel) -> u32 {
    match step.pitch_lock {
        Some(locked) => locked,
        None => sound.pitch,
    }
}

/// The effect that sounds on a step: the one held down, or else the one
/// saved on the step.
pub open spec fn effect_on(held_down: Option<u8>, step: Step) -> Option<u8> {
    if held_down.is_some() {
        held_down
    } else {
        step.effect
    }
}

/// Whether `commands` are the triggers of step `si` of pattern `pi` for the
/// sounds below `upto`, in the order of the sounds: one for each sound whose
/// step is active and whose slot is loaded.
pub open spec fn triggers_upto<M: SampleMath>(
    math: &M,
    m: MiddleModel,
    pi: int,
    si: int,
    upto: nat,
    commands: Seq<CommandModel>,
) -> bool
    decreases upto,
{
    if upto == 0 {
        commands.len() == 0
    } else {
        let k = upto - 1;
        let step = m.step_at(pi, k, si);
        if step.active && m.project.sounds[k].sample_id.is_some() {
            &&& commands.len() > 0
            &&& triggers_upto(math, m, pi, si, k as nat, commands.drop_last())
            &&& plays(
                math,
                m.project.master_volume,
                m.project.bpm,
                m.project.sounds[k],
                step_gain(step, m.project.sounds[k]),
                step_pitch(step, m.project.sounds[k]),
                None,
                effect_on(m.active_rt_effect, step),
                commands.last(),
            )
        } else {
            triggers_upto(math, m, pi, si, k as nat, commands)
        }
    }
}

/// Whether step `si` of pattern `pi` sends the transport back to the start
/// of the pattern: effect 14 is held down, or saved on an active step.
pub open spec fn retriggers(m: MiddleModel, pi: int, si: int) -> bool {
    m.active_rt_effect == Some(14u8) || exists|k: int|
        0 <= k < NUM_SOUNDS && (#[trigger] m.step_at(pi, k, si)).active && m.step_at(
            pi,
            k,
            si,
        ).effect == Some(14u8)
}

/// Whether advancing the transport by one step leads from `before` to
/// `after` and gives `commands`. The step moves on; at the start of a
/// pattern a chain, if there is one, moves on too and selects its next
/// pattern. Each loaded sound with an active step is triggered. A
/// retriggering step leaves the transport on the last step, so that the
/// pattern starts over.
pub open spec fn stepped<M: SampleMath>(
    math: &M,
    before: MiddleModel,
    after: MiddleModel,
    commands: Seq<CommandModel>,
) -> bool {
    let si = step_after(before.current_step);
    let chain = before.project.pattern_chain;
    let wraps = si == 0 && chain.len() > 0;
    let position = if wraps {
        ((before.chain_position + 1) % (chain.len() as int)) as usize
    } else {
        before.chain_position
    };
    let pi = if wraps {
        chain[position as int]
    } else {
        before.project.selected_pattern
    };
    &&& after == (MiddleModel {
        current_step: if retriggers(before, pi as int, si as int) {
            (STEPS_PER_PATTERN - 1) as u8
        } else {
            si
        },
        chain_position: position,
        project: ProjectModel { selected_pattern: pi, ..before.project },
        ..before
    })
    &&& triggers_upto(math, before, pi as int, si as int, NUM_SOUNDS as nat, commands)
}

/// Whether advancing the transport by `steps` steps leads from `before` to
/// `after` and gives `commands`: the commands of the earlier steps followed
/// by those of the last.
pub open spec fn stepped_times<M: SampleMath>(
    math: &M,
    before: MiddleModel,
    steps: nat,
    after: MiddleModel,
    commands: Seq<CommandModel>,
) -> bool
    decreases steps,
{
    if steps == 0 {
        after == before && commands.len() == 0
    } else {
        exists|mid: MiddleModel, split: int|
            {
                &&& 0 <= split <= commands.len()
                &&& stepped_times(
                    math,
                    before,
                    (steps - 1) as nat,
                    mid,
                    commands.subrange(0, split),
                )
                &&& #[trigger] stepped(
                    math,
                    mid,
                    after,
                    commands.subrange(split, commands.len() as int),
                )
            }
    }
}

/// The commands as plain values, in order.
pub open spec fn command_models(commands: Seq<AudioCommand>) -> Seq<CommandModel> {
    commands.map_values(|cmd: AudioCommand| cmd@)
}

/// The share of full volume that the master volume stands for.
fn volume_of<M: SampleMath>(master_volume: u8, math: &M) -> (volume: u32)
    ensures
        is_volume(math, master_volume, volume),
{
    let count = math.from_count(master_volume as usize);
    assert(is_count(math, master_volume as usize, count));
    math.quotient(count, SIXTEEN)
}

impl View for Middle {
    type V = MiddleModel;

    closed spec fn view(&self) -> MiddleModel {
        MiddleModel {
            project: self.state@,
            held: held_model(self.held),
            playing: self.playing,
            write_mode: self.write_mode,
            current_step: self.current_step,
            step_accumulator: self.step_accumulator,
            chain_position: self.chain_position,
            param_page: self.param_page,
            fx_down_at: self.fx_down_at,
            active_rt_effect: self.active_rt_effect,
            scratch_position: self.scratch_position,
            next_id: self.ids.upcoming(),
        }
    }
}

impl Middle {
    #[verifier::type_invariant]
    spec fn well_formed(self) -> bool {
        self@.in_range()
    }

    /// A sequencer at rest over a fresh project.
    pub fn new() -> (middle: Middle)
        ensures
            middle@ == MiddleModel::at_rest(ProjectModel::fresh()),
    {
        Middle::with_state(ProjectState::default())
    }

    /// A sequencer at rest over the given project.
    pub fn with_state(state: ProjectState) -> (middle: Middle)
        requires
            state@.in_range(),
        ensures
            middle@ == MiddleModel::at_rest(state@),
    {
        let middle = Middle {
            state,
            held: HeldButtons::default(),
            playing: false,
            write_mode: false,
            current_step: 0,
            step_accumulator: 0,
            chain_position: 0,
            param_page: ParamPage::Tone,
            fx_down_at: None,
            active_rt_effect: None,
            scratch_position: binary32::ZERO,
            ids: SampleIdCounter::new(),
        };
        assert(middle@.held.grid =~= Seq::new(NUM_SOUNDS as nat, |i: int| false));
        middle
    }

    /// The project.
    pub fn state(&self) -> (state: &ProjectState)
        ensures
            state@ == self@.project,
            state@.in_range(),
    {
        proof {
            use_type_invariant(self);
        }
        &self.state
    }

    /// The command that plays the sound in slot `slot`, if the slot is
    /// loaded: at the sound's pitch times `pitch_override_mult`, where one
    /// is given, under the effect that is held down and at the master
    /// volume.
    pub fn trigger_sound_with_pitch<M: SampleMath>(
        &self,
        slot: u8,
        pitch_override_mult: Option<u32>,
        math: &M,
    ) -> (commands: Vec<AudioCommand>)
        requires
            slot < NUM_SOUNDS,
        ensures
            self@.project.sounds[slot as int].sample_id.is_none() ==> commands@.len() == 0,
            self@.project.sounds[slot as int].sample_id.is_some() ==> commands@.len() == 1
                && plays(
                math,
                self@.project.master_volume,
                self@.project.bpm,
                self@.project.sounds[slot as int],
                self@.project.sounds[slot as int].gain,
                self@.project.sounds[slot as int].pitch,
                pitch_override_mult,
                self@.active_rt_effect,
                commands@[0]@,
            ),
    {
        let mut commands: Vec<AudioCommand> = Vec::new();
        let sound = &self.state.sounds[slot as usize];
        let sample_id = match sound.sample_id {
            Some(id) => id,
            None => {
                return commands;
            },
        };
        let volume = volume_of(self.state.master_volume, math);
        let gain = math.product(sound.gain, volume);
        assert(trigger_gain(math, self@.project.master_volume, sound.gain, gain));
        let fx = self.active_rt_effect;
        let effect_chain = build_effect_chain(fx);
        let (reverse, stutter_period_samples, pitch_mult) = derive_trigger_mods_from_fx(
            fx,
            self.state.bpm,
            math,
        );
        let pitch = match pitch_override_mult {
            Some(m) => {
                let raised = math.product(sound.pitch, m);
                assert(is_product(math, sound.pitch, m, raised));
                math.product(raised, pitch_mult)
            },
            None => math.product(sound.pitch, pitch_mult),
        };
        assert(trigger_pitch(math, sound.pitch, pitch_override_mult, fx, pitch));
        commands.push(
            AudioCommand::Trigger(
                TriggerParams {
                    sample_id,
                    trim_start: sound.trim_start,
                    length: sound.length,
                    gain,
                    pitch,
                    effect_chain,
                    reverse,
                    stutter_period_samples,
                },
            ),
        );
        commands
    }

    /// The command that plays the sound in slot `slot` at its own pitch.
    pub fn trigger_sound<M: SampleMath>(&self, slot: u8, math: &M) -> (commands: Vec<AudioCommand>)
        requires
            slot < NUM_SOUNDS,
        ensures
            self@.project.sounds[slot as int].sample_id.is_none() ==> commands@.len() == 0,
            self@.project.sounds[slot as int].sample_id.is_some() ==> commands@.len() == 1
                && plays(
                math,
                self@.project.master_volume,
                self@.project.bpm,
                self@.project.sounds[slot as int],
                self@.project.sounds[slot as int].gain,
                self@.project.sounds[slot as int].pitch,
                None,
                self@.active_rt_effect,
                commands@[0]@,
            ),
    {
        self.trigger_sound_with_pitch(slot, None, math)
    }

    /// Advances the transport by one step and gives the triggers of the
    /// step it arrives at.
    pub fn advance_step<M: SampleMath>(&mut self, math: &M) -> (commands: Vec<AudioCommand>)
        ensures
            stepped(math, old(self)@, final(self)@, command_models(commands@)),
    {
        proof {
            use_type_invariant(&*self);
        }
        let ghost before = self@;
        let si: u8 = if self.current_step as usize >= STEPS_PER_PATTERN - 1 {
            0
        } else {
            self.current_step + 1
        };
        self.current_step = si;
        if si == 0 && self.state.pattern_chain.len() > 0 {
            let position = (self.chain_position + 1) % self.state.pattern_chain.len();
            let chained = self.state.pattern_chain[position];
            self.chain_position = position;
            self.state.selected_pattern = chained;
        }
        let pi = self.state.selected_pattern as usize;
        let step_index = si as usize;
        let volume = volume_of(self.state.master_volume, math);

        let mut commands: Vec<AudioCommand> = Vec::new();
        let mut retrigger = match self.active_rt_effect {
            Some(14) => true,
            _ => false,
        };
        let mut k: usize = 0;
        assert(command_models(commands@) =~= Seq::<CommandModel>::empty());
        while k < NUM_SOUNDS
            invariant
                k <= NUM_SOUNDS,
                pi < NUM_PATTERNS,
                step_index < STEPS_PER_PATTERN,
                pi == self.state.selected_pattern,
                self.state.patterns@.len() == NUM_PATTERNS,
                self@ == (MiddleModel {
                    current_step: si,
                    chain_position: self.chain_position,
                    project: ProjectModel {
                        selected_pattern: self.state.selected_pattern,
                        ..before.project
                    },
                    ..before
                }),
                is_volume(math, before.project.master_volume, volume),
                triggers_upto(
                    math,
                    before,
                    pi as int,
                    step_index as int,
                    k as nat,
                    command_models(commands@),
                ),
                retrigger == (before.active_rt_effect == Some(14u8) || exists|j: int|
                    0 <= j < k && (#[trigger] before.step_at(
                        pi as int,
                        j,
                        step_index as int,
                    )).active && before.step_at(pi as int, j, step_index as int).effect == Some(
                        14u8,
                    )),
            decreases NUM_SOUNDS - k,
        {
            let step = self.state.patterns[pi].tracks[k].steps[step_index];
            assert(step == before.step_at(pi as int, k as int, step_index as int));
            let ghost so_far = command_models(commands@);
            if step.active {
                match step.effect {
                    Some(14) => {
                        retrigger = true;
                    },
                    _ => {},
                }
                let sound = &self.state.sounds[k];
                assert(sound@ == before.project.sounds[k as int]);
                match sound.sample_id {
                    Some(sample_id) => {
                        let base_gain = match step.gain_lock {
                            Some(locked) => locked,
                            None => sound.gain,
                        };
                        let base_pitch = match step.pitch_lock {
                            Some(locked) => locked,
                            None => sound.pitch,
                        };
                        let fx = match self.active_rt_effect {
                            Some(held_down) => Some(held_down),
                            None => step.effect,
                        };
                        let effect_chain = build_effect_chain(fx);
                        let (reverse, stutter_period_samples, pitch_mult) =
                            derive_trigger_mods_from_fx(fx, self.state.bpm, math);
                        let gain = math.product(base_gain, volume);
                        let pitch = math.product(base_pitch, pitch_mult);
                        assert(trigger_gain(math, before.project.master_volume, base_gain, gain));
                        assert(base_gain == step_gain(step, before.project.sounds[k as int]));
                        assert(base_pitch == step_pitch(step, before.project.sounds[k as int]));
                        let cmd = AudioCommand::Trigger(
                            TriggerParams {
                                sample_id,
                                trim_start: sound.trim_start,
                                length: sound.length,
                                gain,
                                pitch,
                                effect_chain,
                                reverse,
                                stutter_period_samples,
                            },
                        );
                        commands.push(cmd);
                        proof {
                            let now = command_models(commands@);
                            assert(now.drop_last() =~= so_far);
                            assert(now.last() == cmd@);
                        }
                    },
                    None => {},
                }
            }
            k += 1;
        }
        if retrigger {
            self.current_step = (STEPS_PER_PATTERN - 1) as u8;
        }
        commands
    }

    /// Lets `elapsed_micros` microseconds pass. A stopped transport does
    /// nothing. A playing one adds the time to what has passed since the
    /// last step and advances by one step for every whole step's duration in
    /// the sum. The duration is a quarter of a beat at the project's tempo;
    /// while effect 13 is held down it is taken as [`shuffled`] says, by
    /// whether the step that sounded last is even.
    pub fn tick<M: SampleMath>(&mut self, elapsed_micros: u64, math: &M) -> (commands: Vec<
        AudioCommand,
    >)
        ensures
            !old(self)@.playing ==> final(self)@ == old(self)@ && commands@.len() == 0,
            old(self)@.playing ==> exists|duration: u64|
                #[trigger] ticked(
                    math,
                    old(self)@,
                    elapsed_micros,
                    duration,
                    final(self)@,
                    command_models(commands@),
                ),
    {
        proof {
            use_type_invariant(&*self);
        }
        let mut commands: Vec<AudioCommand> = Vec::new();
        if !self.playing {
            return commands;
        }
        let ghost before = self@;
        let total = if elapsed_micros > u64::MAX - self.step_accumulator {
            u64::MAX
        } else {
            self.step_accumulator + elapsed_micros
        };
        let base = step_micros(self.state.bpm, math);
        let duration = match self.active_rt_effect {
            Some(13) => shuffle(base, self.current_step % 2 == 0),
            _ => base,
        };
        assert(step_duration(math, before.project.bpm, base));
        assert(tick_duration(math, before, duration));
        if duration == 0 {
            self.step_accumulator = total;
            assert(ticked(math, before, elapsed_micros, duration, self@, command_models(commands@)));
            return commands;
        }
        let steps = total / duration;
        self.step_accumulator = total % duration;
        let ghost start = self@;
        let mut done: u64 = 0;
        assert(command_models(commands@) =~= Seq::<CommandModel>::empty());
        while done < steps
            invariant
                done <= steps,
                stepped_times(math, start, done as nat, self@, command_models(commands@)),
            decreases steps - done,
        {
            let ghost earlier = command_models(commands@);
            let ghost mid = self@;
            let mut more = self.advance_step(math);
            let ghost last = command_models(more@);
            commands.append(&mut more);
            proof {
                let all = command_models(commands@);
                assert(all =~= earlier + last);
                assert(all.subrange(0, earlier.len() as int) =~= earlier);
                assert(all.subrange(earlier.len() as int, all.len() as int) =~= last);
            }
            done += 1;
        }
        proof {
            assert(start == (MiddleModel { step_accumulator: self@.step_accumulator, ..before }))
                by {
                lemma_steps_keep_time(
                    math,
                    start,
                    steps as nat,
                    self@,
                    command_models(commands@),
                );
            }
            assert(ticked(math, before, elapsed_micros, duration, self@, command_models(commands@)));
        }
        commands
    }
}

/// The time that has passed since the last step once `elapsed` more
/// microseconds have: the sum, held at the largest number when it would be
/// beyond it.
pub open spec fn accumulated(since: u64, elapsed: u64) -> u64 {
    if since + elapsed > u64::MAX {
        u64::MAX
    } else {
        (since + elapsed) as u64
    }
}

/// Whether `duration` is how long the steps of one tick last, in
/// microseconds: a quarter of a beat at the project's tempo or, while effect
/// 13 is held down, that time as [`shuffled`] says, by whether the step that
/// sounded last is even.
pub open spec fn tick_duration<M: SampleMath>(math: &M, before: MiddleModel, duration: u64) -> bool {
    exists|base: u64| #[trigger]
        step_duration(math, before.project.bpm, base) && duration == if before.active_rt_effect
            == Some(13u8) {
            shuffled(base, before.current_step % 2 == 0)
        } else {
            base
        }
}

/// Whether a playing transport whose steps last `duration` microseconds
/// gets from `before` to `after`, giving `commands`, when `elapsed`
/// microseconds pass. With a duration of zero only the time is added up.
/// Otherwise the transport advances once for every whole duration in the
/// time added up, and keeps the rest.
pub open spec fn ticked<M: SampleMath>(
    math: &M,
    before: MiddleModel,
    elapsed: u64,
    duration: u64,
    after: MiddleModel,
    commands: Seq<CommandModel>,
) -> bool {
    let total = accumulated(before.step_accumulator, elapsed);
    &&& tick_duration(math, before, duration)
    &&& if duration == 0 {
        after == (MiddleModel { step_accumulator: total, ..before }) && commands.len() == 0
    } else {
        &&& after.step_accumulator == total % duration
        &&& stepped_times(
            math,
            MiddleModel { step_accumulator: after.step_accumulator, ..before },
            (total / duration) as nat,
            after,
            commands,
        )
    }
}

/// Advancing the transport does not change the time since the last step.
pub proof fn lemma_steps_keep_time<M: SampleMath>(
    math: &M,
    before: MiddleModel,
    steps: nat,
    after: MiddleModel,
    commands: Seq<CommandModel>,
)
    requires
        stepped_times(math, before, steps, after, commands),
    ensures
        after.step_accumulator == before.step_accumulator,
    decreases steps,
{
    if steps > 0 {
        let (mid, split) = choose|mid: MiddleModel, split: int|
            {
                &&& 0 <= split <= commands.len()
                &&& stepped_times(
                    math,
                    before,
                    (steps - 1) as nat,
                    mid,
                    commands.subrange(0, split),
                )
                &&& #[trigger] stepped(
                    math,
                    mid,
                    after,
                    commands.subrange(split, commands.len() as int),
                )
            };
        lemma_steps_keep_time(math, before, (steps - 1) as nat, mid, commands.subrange(0, split));
    }
}

/// Whether `r` is a value that `math` gives for `value` moved by `delta`
/// and held within `[lo, hi]`.
pub open spec fn nudged<M: SampleMath>(
    math: &M,
    value: u32,
    delta: u32,
    lo: u32,
    hi: u32,
    r: u32,
) -> bool {
    exists|moved: u32| #[trigger]
        is_sum(math, value, delta, moved) && r == binary32::clamped(moved, lo, hi)
}

/// Whether `r` is a value that `math` gives for `value` moved by `delta`
/// times `span` and held within `[lo, hi]`.
pub open spec fn scaled_nudged<M: SampleMath>(
    math: &M,
    value: u32,
    delta: u32,
    span: u32,
    lo: u32,
    hi: u32,
    r: u32,
) -> bool {
    exists|step: u32, moved: u32|
        {
            &&& #[trigger] is_product(math, delta, span, step)
            &&& #[trigger] is_sum(math, value, step, moved)
            &&& r == binary32::clamped(moved, lo, hi)
        }
}

/// Moves `value` by `delta` and holds it within `[lo, hi]`.
fn nudge<M: SampleMath>(value: u32, delta: u32, lo: u32, hi: u32, math: &M) -> (r: u32)
    requires
        binary32::at_most(lo, hi),
    ensures
        nudged(math, value, delta, lo, hi, r),
{
    let moved = math.sum(value, delta);
    assert(is_sum(math, value, delta, moved));
    binary32::clamp(moved, lo, hi)
}

/// Moves `value` by `delta` times `span` and holds it within `[lo, hi]`.
fn scaled_nudge<M: SampleMath>(value: u32, delta: u32, span: u32, lo: u32, hi: u32, math: &M) -> (r:
    u32)
    requires
        binary32::at_most(lo, hi),
    ensures
        scaled_nudged(math, value, delta, span, lo, hi, r),
{
    let step = math.product(delta, span);
    let moved = math.sum(value, step);
    assert(is_product(math, delta, span, step) && is_sum(math, value, step, moved));
    binary32::clamp(moved, lo, hi)
}

impl MiddleModel {
    /// This state with `sound` in slot `slot`.
    pub open spec fn with_sound(self, slot: int, sound: SoundModel) -> MiddleModel {
        MiddleModel {
            project: ProjectModel { sounds: self.project.sounds.update(slot, sound), ..self.project },
            ..self
        }
    }

    /// This state with `step` at position `si` of sound `sound` in pattern
    /// `pi`.
    pub open spec fn with_step(self, pi: int, sound: int, si: int, step: Step) -> MiddleModel {
        MiddleModel {
            project: ProjectModel {
                patterns: self.project.patterns.update(
                    pi,
                    self.project.patterns[pi].update(
                        sound,
                        self.project.patterns[pi][sound].update(si, step),
                    ),
                ),
                ..self.project
            },
            ..self
        }
    }

    /// This state with the given buttons held.
    pub open spec fn with_held(self, held: HeldModel) -> MiddleModel {
        MiddleModel { held, ..self }
    }

    /// The step of the selected sound at position `si` of the selected
    /// pattern.
    pub open spec fn selected_step(self, si: int) -> Step {
        self.step_at(
            self.project.selected_pattern as int,
            self.project.selected_sound as int,
            si,
        )
    }

    /// This state with `step` at position `si` of the selected sound in the
    /// selected pattern.
    pub open spec fn with_selected_step(self, si: int, step: Step) -> MiddleModel {
        self.with_step(
            self.project.selected_pattern as int,
            self.project.selected_sound as int,
            si,
            step,
        )
    }

    /// This state with `sound` in the selected slot.
    pub open spec fn with_selected_sound(self, sound: SoundModel) -> MiddleModel {
        self.with_sound(self.project.selected_sound as int, sound)
    }
}

/// The swing moves by the knob's turn and stays within [0, 1].
pub open spec fn swing_adjusted<M: SampleMath>(
    math: &M,
    before: MiddleModel,
    delta: u32,
    after: MiddleModel,
) -> bool {
    &&& after == (MiddleModel {
        project: ProjectModel { swing: after.project.swing, ..before.project },
        ..before
    })
    &&& nudged(
        math,
        before.project.swing,
        delta,
        binary32::ZERO,
        binary32::ONE,
        after.project.swing,
    )
}

/// The tempo moves by 180 BPM for a full turn and stays within [60, 240].
pub open spec fn bpm_adjusted<M: SampleMath>(
    math: &M,
    before: MiddleModel,
    delta: u32,
    after: MiddleModel,
) -> bool {
    &&& after == (MiddleModel {
        project: ProjectModel { bpm: after.project.bpm, ..before.project },
        ..before
    })
    &&& scaled_nudged(
        math,
        before.project.bpm,
        delta,
        BPM_SPAN,
        SIXTY,
        TWO_HUNDRED_FORTY,
        after.project.bpm,
    )
}

/// The pitch that a lock on the step at position `si` starts from: the lock
/// the step has or, without one, the selected sound's pitch.
pub open spec fn pitch_to_lock(before: MiddleModel, si: int) -> u32 {
    match before.selected_step(si).pitch_lock {
        Some(locked) => locked,
        None => before.sound().pitch,
    }
}

/// The gain that a lock on the step at position `si` starts from: the lock
/// the step has or, without one, the selected sound's gain.
pub open spec fn gain_to_lock(before: MiddleModel, si: int) -> u32 {
    match before.selected_step(si).gain_lock {
        Some(locked) => locked,
        None => before.sound().gain,
    }
}

/// The step at position `si` of the selected sound gets a pitch lock: what
/// it starts from, moved by 1.5 for a full turn and held within [0.5, 2].
pub open spec fn pitch_locked<M: SampleMath>(
    math: &M,
    before: MiddleModel,
    si: int,
    delta: u32,
    after: MiddleModel,
) -> bool {
    &&& after.selected_step(si).pitch_lock.is_some()
    &&& after == before.with_selected_step(
        si,
        Step { pitch_lock: after.selected_step(si).pitch_lock, ..before.selected_step(si) },
    )
    &&& scaled_nudged(
        math,
        pitch_to_lock(before, si),
        delta,
        PITCH_SPAN,
        HALF,
        TWO,
        after.selected_step(si).pitch_lock.unwrap(),
    )
}

/// The step at position `si` of the selected sound gets a gain lock: what
/// it starts from, moved by the knob's turn and held within [0, 1].
pub open spec fn gain_locked<M: SampleMath>(
    math: &M,
    before: MiddleModel,
    si: int,
    delta: u32,
    after: MiddleModel,
) -> bool {
    &&& after.selected_step(si).gain_lock.is_some()
    &&& after == before.with_selected_step(
        si,
        Step { gain_lock: after.selected_step(si).gain_lock, ..before.selected_step(si) },
    )
    &&& nudged(
        math,
        gain_to_lock(before, si),
        delta,
        binary32::ZERO,
        binary32::ONE,
        after.selected_step(si).gain_lock.unwrap(),
    )
}

/// The selected sound's pitch moves by 1.5 for a full turn and stays within
/// [0.5, 2].
pub open spec fn pitch_adjusted<M: SampleMath>(
    math: &M,
    before: MiddleModel,
    delta: u32,
    after: MiddleModel,
) -> bool {
    &&& after == before.with_selected_sound(
        SoundModel { pitch: after.sound().pitch, ..before.sound() },
    )
    &&& scaled_nudged(
        math,
        before.sound().pitch,
        delta,
        PITCH_SPAN,
        HALF,
        TWO,
        after.sound().pitch,
    )
}

/// The selected sound's gain moves by the knob's turn and stays within
/// [0, 1].
pub open spec fn gain_adjusted<M: SampleMath>(
    math: &M,
    before: MiddleModel,
    delta: u32,
    after: MiddleModel,
) -> bool {
    &&& after == before.with_selected_sound(
        SoundModel { gain: after.sound().gain, ..before.sound() },
    )
    &&& nudged(
        math,
        before.sound().gain,
        delta,
        binary32::ZERO,
        binary32::ONE,
        after.sound().gain,
    )
}

/// The factor that a knob turn puts on the filter cutoff: a tenth up for a
/// turn up, a tenth down for any other.
pub open spec fn cutoff_factor(delta: u32) -> u32 {
    if binary32::less(binary32::ZERO, delta) {
        CUTOFF_UP
    } else {
        CUTOFF_DOWN
    }
}

/// The selected sound's filter cutoff moves by a tenth and stays within
/// [20, 20000].
pub open spec fn cutoff_adjusted<M: SampleMath>(
    math: &M,
    before: MiddleModel,
    delta: u32,
    after: MiddleModel,
) -> bool {
    &&& after == before.with_selected_sound(
        SoundModel { filter_cutoff: after.sound().filter_cutoff, ..before.sound() },
    )
    &&& exists|scaled: u32| #[trigger]
        is_product(math, before.sound().filter_cutoff, cutoff_factor(delta), scaled)
            && after.sound().filter_cutoff == binary32::clamped(scaled, CUTOFF_MIN, CUTOFF_MAX)
}

/// The selected sound's filter resonance moves by the knob's turn and stays
/// within [0, 1].
pub open spec fn resonance_adjusted<M: SampleMath>(
    math: &M,
    before: MiddleModel,
    delta: u32,
    after: MiddleModel,
) -> bool {
    &&& after == before.with_selected_sound(
        SoundModel { filter_resonance: after.sound().filter_resonance, ..before.sound() },
    )
    &&& nudged(
        math,
        before.sound().filter_resonance,
        delta,
        binary32::ZERO,
        binary32::ONE,
        after.sound().filter_resonance,
    )
}

/// The last frame of a buffer of `buffer_len` frames, or zero for an empty
/// one.
pub open spec fn last_frame(buffer_len: usize) -> usize {
    if buffer_len == 0 {
        0
    } else {
        (buffer_len - 1) as usize
    }
}

/// A sound whose window starts `amount` frames later, or earlier, than it
/// did. The start stays within the buffer, and the window is cut to what
/// lies after the start.
pub open spec fn trim_start_moved(sound: SoundModel, forward: bool, amount: usize) -> SoundModel {
    let last = last_frame(sound.buffer_len);
    let start = if forward {
        if sound.trim_start + amount >= last {
            last
        } else {
            (sound.trim_start + amount) as usize
        }
    } else {
        if amount >= sound.trim_start {
            0
        } else {
            (sound.trim_start - amount) as usize
        }
    };
    let remaining = if sound.buffer_len > start {
        (sound.buffer_len - start) as usize
    } else {
        0
    };
    SoundModel {
        trim_start: start,
        length: if sound.length <= remaining {
            sound.length
        } else {
            remaining
        },
        ..sound
    }
}

/// A sound whose window is `amount` frames longer, or shorter, than it was.
/// The window ends within the buffer, and a shortened window keeps at least
/// one frame.
pub open spec fn trim_length_moved(sound: SoundModel, longer: bool, amount: usize) -> SoundModel {
    let most = if sound.buffer_len > sound.trim_start {
        (sound.buffer_len - sound.trim_start) as usize
    } else {
        0
    };
    SoundModel {
        length: if longer {
            if sound.length + amount >= most {
                most
            } else {
                (sound.length + amount) as usize
            }
        } else {
            if amount >= sound.length || sound.length - amount < 1 {
                1
            } else {
                (sound.length - amount) as usize
            }
        },
        ..sound
    }
}

/// Whether `amount` is a value that `math` gives for the frames that a knob
/// turn of `delta` moves a trim setting with `range` frames of room: the
/// whole part of `range` times the magnitude of `delta`, or of one where
/// that is less.
pub open spec fn trim_step<M: SampleMath>(math: &M, range: usize, delta: u32, amount: usize) -> bool {
    exists|room: u32, share: u32|
        {
            &&& #[trigger] is_count(math, range, room)
            &&& #[trigger] is_product(math, room, binary32::magnitude_of(delta), share)
            &&& is_index(math, binary32::greater(share, binary32::ONE), amount)
        }
}

/// The frames of a sound's buffer from the start of its window on.
pub open spec fn room_after(sound: SoundModel) -> usize {
    if sound.buffer_len > sound.trim_start {
        (sound.buffer_len - sound.trim_start) as usize
    } else {
        0
    }
}

/// The window of the selected sound starts later for a turn up and earlier
/// for any other, by the share of the buffer that the turn stands for.
pub open spec fn trim_start_adjusted<M: SampleMath>(
    math: &M,
    before: MiddleModel,
    delta: u32,
    after: MiddleModel,
) -> bool {
    exists|amount: usize| #[trigger]
        trim_step(math, last_frame(before.sound().buffer_len), delta, amount) && after
            == before.with_selected_sound(
            trim_start_moved(before.sound(), binary32::less(binary32::ZERO, delta), amount),
        )
}

/// The window of the selected sound gets longer for a turn up and shorter
/// for any other, by the share of the room after its start that the turn
/// stands for.
pub open spec fn trim_length_adjusted<M: SampleMath>(
    math: &M,
    before: MiddleModel,
    delta: u32,
    after: MiddleModel,
) -> bool {
    exists|amount: usize| #[trigger]
        trim_step(math, room_after(before.sound()), delta, amount) && after
            == before.with_selected_sound(
            trim_length_moved(before.sound(), binary32::less(binary32::ZERO, delta), amount),
        )
}

/// The effect numbered `fx` is held down and, in write mode, saved on the
/// current step of the selected sound.
pub open spec fn effect_set(before: MiddleModel, fx: u8) -> MiddleModel {
    let held_down = MiddleModel { active_rt_effect: Some(fx), ..before };
    if before.write_mode {
        held_down.with_selected_step(
            before.current_step as int,
            Step { effect: Some(fx), ..before.selected_step(before.current_step as int) },
        )
    } else {
        held_down
    }
}

/// A pattern without an effect on position `si` of any of its tracks.
pub open spec fn effects_cleared(pattern: Seq<Seq<Step>>, si: int) -> Seq<Seq<Step>> {
    Seq::new(
        pattern.len(),
        |k: int| pattern[k].update(si, Step { effect: None, ..pattern[k][si] }),
    )
}

/// No effect is held down and, in write mode, none is saved on the current
/// step of any sound.
pub open spec fn effect_cleared(before: MiddleModel) -> MiddleModel {
    let released = MiddleModel { active_rt_effect: None, ..before };
    let pi = before.project.selected_pattern as int;
    if before.write_mode {
        MiddleModel {
            project: ProjectModel {
                patterns: before.project.patterns.update(
                    pi,
                    effects_cleared(before.project.patterns[pi], before.current_step as int),
                ),
                ..before.project
            },
            ..released
        }
    } else {
        released
    }
}

/// The step at position `si` of the selected sound flips between on and
/// off.
pub open spec fn step_toggled(before: MiddleModel, si: int) -> MiddleModel {
    before.with_selected_step(
        si,
        Step { active: !before.selected_step(si).active, ..before.selected_step(si) },
    )
}

impl Middle {
    /// Puts `step` at position `si` of the selected sound in the selected
    /// pattern.
    fn set_selected_step(&mut self, si: usize, step: Step)
        requires
            si < STEPS_PER_PATTERN,
        ensures
            final(self)@ == old(self)@.with_selected_step(si as int, step),
    {
        proof {
            use_type_invariant(&*self);
        }
        let pi = self.state.selected_pattern as usize;
        let sound = self.state.selected_sound as usize;
        self.state.patterns[pi].tracks[sound].steps[si] = step;
        proof {
            let want = old(self)@.with_selected_step(si as int, step);
            assert(self@.project.patterns =~~= want.project.patterns);
            assert(self@.project.sounds =~= want.project.sounds);
        }
    }

    /// The step of the selected sound at position `si` of the selected
    /// pattern.
    fn selected_step(&self, si: usize) -> (step: Step)
        requires
            si < STEPS_PER_PATTERN,
        ensures
            step == self@.selected_step(si as int),
    {
        proof {
            use_type_invariant(self);
        }
        let pi = self.state.selected_pattern as usize;
        let sound = self.state.selected_sound as usize;
        self.state.patterns[pi].tracks[sound].steps[si]
    }

    /// Moves the swing by `delta`.
    fn adjust_swing<M: SampleMath>(&mut self, delta: u32, math: &M)
        ensures
            swing_adjusted(math, old(self)@, delta, final(self)@),
    {
        proof {
            use_type_invariant(&*self);
        }
        self.state.swing = nudge(self.state.swing, delta, binary32::ZERO, binary32::ONE, math);
        proof {
            assert(self@.project.patterns =~= old(self)@.project.patterns);
            assert(self@.project.sounds =~= old(self)@.project.sounds);
        }
    }

    /// Moves the tempo by `delta` of a full turn.
    fn adjust_bpm<M: SampleMath>(&mut self, delta: u32, math: &M)
        ensures
            bpm_adjusted(math, old(self)@, delta, final(self)@),
    {
        proof {
            use_type_invariant(&*self);
        }
        self.state.bpm = scaled_nudge(
            self.state.bpm,
            delta,
            BPM_SPAN,
            SIXTY,
            TWO_HUNDRED_FORTY,
            math,
        );
        proof {
            assert(self@.project.patterns =~= old(self)@.project.patterns);
            assert(self@.project.sounds =~= old(self)@.project.sounds);
        }
    }

    /// Locks the pitch of the step at position `si` of the selected sound,
    /// `delta` of a full turn away from the lock it has or, without one,
    /// from the sound's pitch.
    fn lock_step_pitch<M: SampleMath>(&mut self, si: usize, delta: u32, math: &M)
        requires
            si < STEPS_PER_PATTERN,
        ensures
            pitch_locked(math, old(self)@, si as int, delta, final(self)@),
    {
        proof {
            use_type_invariant(&*self);
        }
        let step = self.selected_step(si);
        let current = match step.pitch_lock {
            Some(locked) => locked,
            None => self.state.sounds[self.state.selected_sound as usize].pitch,
        };
        let locked = scaled_nudge(current, delta, PITCH_SPAN, HALF, TWO, math);
        self.set_selected_step(si, Step { pitch_lock: Some(locked), ..step });
    }

    /// Locks the gain of the step at position `si` of the selected sound,
    /// `delta` away from the lock it has or, without one, from the sound's
    /// gain.
    fn lock_step_gain<M: SampleMath>(&mut self, si: usize, delta: u32, math: &M)
        requires
            si < STEPS_PER_PATTERN,
        ensures
            gain_locked(math, old(self)@, si as int, delta, final(self)@),
    {
        proof {
            use_type_invariant(&*self);
        }
        let step = self.selected_step(si);
        let current = match step.gain_lock {
            Some(locked) => locked,
            None => self.state.sounds[self.state.selected_sound as usize].gain,
        };
        let locked = nudge(current, delta, binary32::ZERO, binary32::ONE, math);
        self.set_selected_step(si, Step { gain_lock: Some(locked), ..step });
    }

    /// Moves the selected sound's pitch by `delta` of a full turn.
    fn adjust_pitch<M: SampleMath>(&mut self, delta: u32, math: &M)
        ensures
            pitch_adjusted(math, old(self)@, delta, final(self)@),
    {
        proof {
            use_type_invariant(&*self);
        }
        let slot = self.state.selected_sound as usize;
        let pitch = scaled_nudge(
            self.state.sounds[slot].pitch,
            delta,
            PITCH_SPAN,
            HALF,
            TWO,
            math,
        );
        self.state.sounds[slot].pitch = pitch;
        proof {
            let want = old(self)@.with_selected_sound(
                SoundModel { pitch, ..old(self)@.sound() },
            );
            assert(self@.project.sounds =~= want.project.sounds);
            assert(self@.project.patterns =~= want.project.patterns);
        }
    }

    /// Moves the selected sound's gain by `delta`.
    fn adjust_gain<M: SampleMath>(&mut self, delta: u32, math: &M)
        ensures
            gain_adjusted(math, old(self)@, delta, final(self)@),
    {
        proof {
            use_type_invariant(&*self);
        }
        let slot = self.state.selected_sound as usize;
        let gain = nudge(
            self.state.sounds[slot].gain,
            delta,
            binary32::ZERO,
            binary32::ONE,
            math,
        );
        self.state.sounds[slot].gain = gain;
        proof {
            let want = old(self)@.with_selected_sound(SoundModel { gain, ..old(self)@.sound() });
            assert(self@.project.sounds =~= want.project.sounds);
            assert(self@.project.patterns =~= want.project.patterns);
        }
    }

    /// Moves the selected sound's filter cutoff up by a tenth for a turn
    /// up, down by a tenth for any other.
    fn adjust_filter_cutoff<M: SampleMath>(&mut self, delta: u32, math: &M)
        ensures
            cutoff_adjusted(math, old(self)@, delta, final(self)@),
    {
        proof {
            use_type_invariant(&*self);
        }
        let slot = self.state.selected_sound as usize;
        let factor = if binary32::lt(binary32::ZERO, delta) {
            CUTOFF_UP
        } else {
            CUTOFF_DOWN
        };
        let scaled = math.product(self.state.sounds[slot].filter_cutoff, factor);
        let filter_cutoff = binary32::clamp(scaled, CUTOFF_MIN, CUTOFF_MAX);
        assert(is_product(math, old(self)@.sound().filter_cutoff, cutoff_factor(delta), scaled));
        self.state.sounds[slot].filter_cutoff = filter_cutoff;
        proof {
            let want = old(self)@.with_selected_sound(
                SoundModel { filter_cutoff, ..old(self)@.sound() },
            );
            assert(self@.project.sounds =~= want.project.sounds);
            assert(self@.project.patterns =~= want.project.patterns);
        }
    }

    /// Moves the selected sound's filter resonance by `delta`.
    fn adjust_filter_resonance<M: SampleMath>(&mut self, delta: u32, math: &M)
        ensures
            resonance_adjusted(math, old(self)@, delta, final(self)@),
    {
        proof {
            use_type_invariant(&*self);
        }
        let slot = self.state.selected_sound as usize;
        let filter_resonance = nudge(
            self.state.sounds[slot].filter_resonance,
            delta,
            binary32::ZERO,
            binary32::ONE,
            math,
        );
        self.state.sounds[slot].filter_resonance = filter_resonance;
        proof {
            let want = old(self)@.with_selected_sound(
                SoundModel { filter_resonance, ..old(self)@.sound() },
            );
            assert(self@.project.sounds =~= want.project.sounds);
            assert(self@.project.patterns =~= want.project.patterns);
        }
    }

    /// The frames that a knob turn of `delta` moves a trim setting with
    /// `range` frames of room: that share of the room, and one frame at
    /// least.
    fn trim_amount<M: SampleMath>(range: usize, delta: u32, math: &M) -> (amount: usize)
        ensures
            trim_step(math, range, delta, amount),
    {
        let room = math.from_count(range);
        let share = math.product(room, binary32::magnitude(delta));
        assert(is_count(math, range, room) && is_product(
            math,
            room,
            binary32::magnitude_of(delta),
            share,
        ));
        math.to_index(binary32::max(share, binary32::ONE))
    }

    /// Moves the start of the selected sound's window.
    fn adjust_trim_start<M: SampleMath>(&mut self, delta: u32, math: &M)
        ensures
            trim_start_adjusted(math, old(self)@, delta, final(self)@),
    {
        proof {
            use_type_invariant(&*self);
        }
        let slot = self.state.selected_sound as usize;
        let buffer_len = self.state.sounds[slot].buffer_len;
        let trim_start = self.state.sounds[slot].trim_start;
        let length = self.state.sounds[slot].length;
        let last = if buffer_len == 0 {
            0
        } else {
            buffer_len - 1
        };
        let amount = Middle::trim_amount(last, delta, math);
        let forward = binary32::lt(binary32::ZERO, delta);
        let start = if forward {
            if amount >= last || trim_start >= last - amount {
                last
            } else {
                trim_start + amount
            }
        } else {
            if amount >= trim_start {
                0
            } else {
                trim_start - amount
            }
        };
        let remaining = if buffer_len > start {
            buffer_len - start
        } else {
            0
        };
        self.state.sounds[slot].trim_start = start;
        self.state.sounds[slot].length = if length <= remaining {
            length
        } else {
            remaining
        };
        proof {
            assert(last == last_frame(old(self)@.sound().buffer_len));
            assert(trim_step(math, last_frame(old(self)@.sound().buffer_len), delta, amount));
            let moved = trim_start_moved(old(self)@.sound(), forward, amount);
            let want = old(self)@.with_selected_sound(moved);
            assert(self@.project.sounds =~= want.project.sounds);
            assert(self@.project.patterns =~= want.project.patterns);
        }
    }

    /// Moves the length of the selected sound's window.
    fn adjust_trim_length<M: SampleMath>(&mut self, delta: u32, math: &M)
        ensures
            trim_length_adjusted(math, old(self)@, delta, final(self)@),
    {
        proof {
            use_type_invariant(&*self);
        }
        let slot = self.state.selected_sound as usize;
        let buffer_len = self.state.sounds[slot].buffer_len;
        let trim_start = self.state.sounds[slot].trim_start;
        let length = self.state.sounds[slot].length;
        let most = if buffer_len > trim_start {
            buffer_len - trim_start
        } else {
            0
        };
        let amount = Middle::trim_amount(most, delta, math);
        let longer = binary32::lt(binary32::ZERO, delta);
        self.state.sounds[slot].length = if longer {
            if amount >= most || length >= most - amount {
                most
            } else {
                length + amount
            }
        } else {
            if amount >= length || length - amount < 1 {
                1
            } else {
                length - amount
            }
        };
        proof {
            assert(most == room_after(old(self)@.sound()));
            assert(trim_step(math, room_after(old(self)@.sound()), delta, amount));
            let moved = trim_length_moved(old(self)@.sound(), longer, amount);
            let want = old(self)@.with_selected_sound(moved);
            assert(self@.project.sounds =~= want.project.sounds);
            assert(self@.project.patterns =~= want.project.patterns);
        }
    }
}

/// Whether `commands` play the selected sound under the effect that is held
/// down, at the factor `pad` on its pitch where a pad is played: one trigger
/// if the slot is loaded, nothing if it is not.
pub open spec fn sound_played<M: SampleMath>(
    math: &M,
    before: MiddleModel,
    pad: Option<u32>,
    commands: Seq<CommandModel>,
) -> bool {
    if before.sound().sample_id.is_some() {
        commands.len() == 1 && plays(
            math,
            before.project.master_volume,
            before.project.bpm,
            before.sound(),
            before.sound().gain,
            before.sound().pitch,
            pad,
            before.active_rt_effect,
            commands[0],
        )
    } else {
        commands.len() == 0
    }
}

/// Whether `q` is the step that a note played now is recorded on: the step
/// after the one that sounded last if half a step's duration or more has
/// passed since, else that step itself.
pub open spec fn quantized<M: SampleMath>(math: &M, before: MiddleModel, q: int) -> bool {
    exists|duration: u64| #[trigger]
        step_duration(math, before.project.bpm, duration) && q == if before.step_accumulator
            >= duration - duration / 2 {
            step_after(before.current_step) as int
        } else {
            before.current_step as int
        }
}

/// A note played live is recorded: the step it is nearest to is switched
/// on, and the selected sound is played.
pub open spec fn live_recorded<M: SampleMath>(
    math: &M,
    before: MiddleModel,
    after: MiddleModel,
    commands: Seq<CommandModel>,
) -> bool {
    &&& exists|q: int| #[trigger]
        quantized(math, before, q) && after == before.with_selected_step(
            q,
            Step { active: true, ..before.selected_step(q) },
        )
    &&& sound_played(math, before, None, commands)
}

/// Pad `n` played live with write held is recorded with its pitch: the step
/// it is nearest to is switched on and locked to the pad's pitch, and the
/// selected sound is played at that pitch.
pub open spec fn live_recorded_at_pitch<M: SampleMath>(
    math: &M,
    before: MiddleModel,
    n: u8,
    after: MiddleModel,
    commands: Seq<CommandModel>,
) -> bool {
    exists|q: int, factor: u32|
        {
            &&& #[trigger] quantized(math, before, q)
            &&& #[trigger] pad_pitch(math, n, factor)
            &&& after == before.with_selected_step(
                q,
                Step { active: true, pitch_lock: Some(factor), ..before.selected_step(q) },
            )
            &&& sound_played(math, before, Some(factor), commands)
        }
}

/// Pad `n` is played: the selected sound sounds at the pad's pitch.
pub open spec fn pad_played<M: SampleMath>(
    math: &M,
    before: MiddleModel,
    n: u8,
    commands: Seq<CommandModel>,
) -> bool {
    exists|factor: u32| #[trigger]
        pad_pitch(math, n, factor) && sound_played(math, before, Some(factor), commands)
}

/// Record goes down. With pattern held, the selected pattern is cleared.
/// Otherwise, unless sound is held, a recording into the selected slot
/// starts: the slot gets a fresh identity and an unbounded window, and the
/// engine is told to arm.
pub open spec fn record_pressed(
    before: MiddleModel,
    after: MiddleModel,
    commands: Seq<CommandModel>,
) -> bool {
    let held = before.with_held(HeldModel { record: true, ..before.held });
    if before.held.pattern {
        &&& commands.len() == 0
        &&& after == (MiddleModel {
            project: ProjectModel {
                patterns: before.project.patterns.update(
                    before.project.selected_pattern as int,
                    crate::pipeline::blank_pattern(),
                ),
                ..before.project
            },
            ..held
        })
    } else if !before.held.sound {
        let id = SampleId(before.next_id);
        &&& commands == seq![CommandModel::StartRecording { sample_id: id }]
        &&& after == (MiddleModel { next_id: following(before.next_id), ..held })
            .with_selected_sound(
            SoundModel {
                sample_id: Some(id),
                sample_path: "(recording)"@,
                trim_start: 0,
                buffer_len: 0,
                length: usize::MAX,
                ..before.sound()
            },
        )
    } else {
        commands.len() == 0 && after == held
    }
}

/// Whether FX that went down at `at` and comes up at `now` was tapped
/// rather than held.
pub open spec fn tapped(at: u64, now: u64) -> bool {
    now < at || now - at < FX_TAP_THRESHOLD_MICROS
}

/// FX comes up: no effect is held down any more, and a tap turns the page.
pub open spec fn fx_released(before: MiddleModel, now: u64) -> MiddleModel {
    MiddleModel {
        held: HeldModel { fx: false, ..before.held },
        active_rt_effect: None,
        fx_down_at: None,
        param_page: if before.fx_down_at.is_some() && tapped(before.fx_down_at.unwrap(), now) {
            before.param_page.successor()
        } else {
            before.param_page
        },
        ..before
    }
}

/// The tempo preset after a tempo whose whole part is `whole`: below 100
/// BPM it is 120, from 100 to 129 it is 140, and from 130 on it is 80.
pub open spec fn preset_after(whole: usize) -> u32 {
    if whole <= 99 {
        BPM_MEDIUM
    } else if whole <= 129 {
        BPM_FAST
    } else {
        BPM_SLOW
    }
}

/// BPM comes up: the tempo goes to the preset after it.
pub open spec fn bpm_released<M: SampleMath>(
    math: &M,
    before: MiddleModel,
    after: MiddleModel,
) -> bool {
    &&& after == (MiddleModel {
        held: HeldModel { bpm: false, ..before.held },
        project: ProjectModel { bpm: after.project.bpm, ..before.project },
        ..before
    })
    &&& exists|whole: usize| #[trigger]
        is_index(math, before.project.bpm, whole) && after.project.bpm == preset_after(whole)
}

/// The share of a knob turn that a scratch effect moves by: a fifth for the
/// coarse one, numbered 11, and a twentieth for the fine one.
pub open spec fn scratch_scale(fx: Option<u8>) -> u32 {
    if fx == Some(11u8) {
        SCRATCH_COARSE
    } else {
        SCRATCH_FINE
    }
}

/// Knob A turns by `delta`. While a scratch effect (11 or 12) is held down
/// over a loaded sound, the scratch position moves and the engine is told
/// where to play. Otherwise the knob sets the swing while BPM is held, locks
/// the current step's pitch while write is held and the transport plays,
/// and else works on the page: pitch, filter cutoff or trim start.
pub open spec fn knob_a_turned<M: SampleMath>(
    math: &M,
    before: MiddleModel,
    delta: u32,
    after: MiddleModel,
    commands: Seq<CommandModel>,
) -> bool {
    if (before.active_rt_effect == Some(11u8) || before.active_rt_effect == Some(12u8))
        && before.sound().sample_id.is_some() {
        &&& after == (MiddleModel { scratch_position: after.scratch_position, ..before })
        &&& scaled_nudged(
            math,
            before.scratch_position,
            delta,
            scratch_scale(before.active_rt_effect),
            binary32::ZERO,
            binary32::ONE,
            after.scratch_position,
        )
        &&& commands.len() == 1
        &&& commands[0] matches CommandModel::SetPlaybackPosition { sample_id, position }
        &&& Some(sample_id) == before.sound().sample_id
        &&& exists|frames: u32| #[trigger]
            is_count(math, before.sound().length, frames) && is_product(
                math,
                after.scratch_position,
                frames,
                position,
            )
    } else {
        &&& commands.len() == 0
        &&& if before.held.bpm {
            swing_adjusted(math, before, delta, after)
        } else if before.held.write_held && before.playing {
            pitch_locked(math, before, before.current_step as int, delta, after)
        } else {
            match before.param_page {
                ParamPage::Tone => pitch_adjusted(math, before, delta, after),
                ParamPage::Filter => cutoff_adjusted(math, before, delta, after),
                ParamPage::Trim => trim_start_adjusted(math, before, delta, after),
            }
        }
    }
}

/// Knob B turns by `delta`: it sets the tempo while BPM is held, locks the
/// current step's gain while write is held and the transport plays, and
/// else works on the page: gain, filter resonance or trim length.
pub open spec fn knob_b_turned<M: SampleMath>(
    math: &M,
    before: MiddleModel,
    delta: u32,
    after: MiddleModel,
    commands: Seq<CommandModel>,
) -> bool {
    &&& commands.len() == 0
    &&& if before.held.bpm {
        bpm_adjusted(math, before, delta, after)
    } else if before.held.write_held && before.playing {
        gain_locked(math, before, before.current_step as int, delta, after)
    } else {
        match before.param_page {
            ParamPage::Tone => gain_adjusted(math, before, delta, after),
            ParamPage::Filter => resonance_adjusted(math, before, delta, after),
            ParamPage::Trim => trim_length_adjusted(math, before, delta, after),
        }
    }
}

/// Pad `n` goes down. A number that names no pad does nothing. Otherwise
/// the pad is held, and then: with sound held it selects a sound; with
/// pattern held it chains a pattern while playing and selects one while
/// stopped; with BPM held it sets the volume; with FX held while playing it
/// sets an effect, or clears it on the last pad; with record held it does
/// nothing more; in write mode while stopped it toggles a step; with write
/// held while playing it records the pad live; and else it plays the
/// selected sound at the pad's pitch.
pub open spec fn grid_pressed<M: SampleMath>(
    math: &M,
    before: MiddleModel,
    n: u8,
    after: MiddleModel,
    commands: Seq<CommandModel>,
) -> bool {
    if n >= NUM_PADS {
        after == before && commands.len() == 0
    } else {
        let held = before.with_held(
            HeldModel { grid: before.held.grid.update(n as int, true), ..before.held },
        );
        if before.held.sound {
            commands.len() == 0 && after == (MiddleModel {
                project: ProjectModel { selected_sound: n, ..held.project },
                ..held
            })
        } else if before.held.pattern {
            commands.len() == 0 && after == if before.playing {
                MiddleModel {
                    project: ProjectModel {
                        pattern_chain: held.project.pattern_chain.push(n),
                        ..held.project
                    },
                    ..held
                }
            } else {
                MiddleModel { project: ProjectModel { selected_pattern: n, ..held.project }, ..held }
            }
        } else if before.held.bpm {
            commands.len() == 0 && after == (MiddleModel {
                project: ProjectModel { master_volume: (n + 1) as u8, ..held.project },
                ..held
            })
        } else if before.held.fx && before.playing {
            commands.len() == 0 && after == if n == 15 {
                effect_cleared(held)
            } else {
                effect_set(held, (n + 1) as u8)
            }
        } else if before.held.record {
            commands.len() == 0 && after == held
        } else if before.write_mode && !before.playing {
            commands.len() == 0 && after == step_toggled(held, n as int)
        } else if before.held.write_held && before.playing {
            live_recorded_at_pitch(math, held, n, after, commands)
        } else {
            after == held && pad_played(math, held, n, commands)
        }
    }
}

/// Whether the numbers that the event carries name something that exists:
/// a sound, a pattern or a step.
pub open spec fn event_in_range(event: InputEvent) -> bool {
    match event {
        InputEvent::SelectSound(n) => n < NUM_SOUNDS,
        InputEvent::SelectPattern(n) => n < NUM_PATTERNS,
        InputEvent::ChainPattern(n) => n < NUM_PATTERNS,
        InputEvent::ToggleStep(n) => n < STEPS_PER_PATTERN,
        InputEvent::LockStepPitchAt { step, .. } => step < STEPS_PER_PATTERN,
        InputEvent::LockStepGainAt { step, .. } => step < STEPS_PER_PATTERN,
        _ => true,
    }
}

/// Whether the numbers that the event carries name something that exists.
#[verifier::when_used_as_spec(event_in_range)]
pub fn is_event_in_range(event: InputEvent) -> (r: bool)
    ensures
        r == event_in_range(event),
{
    match event {
        InputEvent::SelectSound(n) => (n as usize) < NUM_SOUNDS,
        InputEvent::SelectPattern(n) => (n as usize) < NUM_PATTERNS,
        InputEvent::ChainPattern(n) => (n as usize) < NUM_PATTERNS,
        InputEvent::ToggleStep(n) => (n as usize) < STEPS_PER_PATTERN,
        InputEvent::LockStepPitchAt { step, .. } => (step as usize) < STEPS_PER_PATTERN,
        InputEvent::LockStepGainAt { step, .. } => (step as usize) < STEPS_PER_PATTERN,
        _ => true,
    }
}

/// Whether a sequencer in state `before` that gets `event` at time `now`,
/// in microseconds, may be in state `after` and give `commands`.
pub open spec fn responded<M: SampleMath>(
    math: &M,
    before: MiddleModel,
    event: InputEvent,
    now: u64,
    after: MiddleModel,
    commands: Seq<CommandModel>,
) -> bool {
    let held = before.held;
    let none = commands.len() == 0;
    match event {
        InputEvent::SoundDown => none && after == before.with_held(
            HeldModel { sound: true, ..held },
        ),
        InputEvent::SoundUp => none && after == before.with_held(
            HeldModel { sound: false, ..held },
        ),
        InputEvent::PatternDown => none && after == before.with_held(
            HeldModel { pattern: true, ..held },
        ),
        InputEvent::PatternUp => none && after == before.with_held(
            HeldModel { pattern: false, ..held },
        ),
        InputEvent::WriteDown => none && after == (MiddleModel {
            held: HeldModel { write_held: true, ..held },
            write_mode: if before.playing {
                before.write_mode
            } else {
                !before.write_mode
            },
            ..before
        }),
        InputEvent::WriteUp => none && after == before.with_held(
            HeldModel { write_held: false, ..held },
        ),
        InputEvent::PlayPress => none && after == if before.playing {
            MiddleModel { playing: false, ..before }
        } else {
            MiddleModel {
                playing: true,
                current_step: 0,
                step_accumulator: 0,
                chain_position: 0,
                ..before
            }
        },
        InputEvent::RecordDown => record_pressed(before, after, commands),
        InputEvent::RecordUp => commands == seq![CommandModel::StopRecording] && after
            == before.with_held(HeldModel { record: false, ..held }),
        InputEvent::FxDown => none && after == (MiddleModel {
            held: HeldModel { fx: true, ..held },
            fx_down_at: Some(now),
            ..before
        }),
        InputEvent::FxUp => none && after == fx_released(before, now),
        InputEvent::BpmDown => none && after == before.with_held(
            HeldModel { bpm: true, ..held },
        ),
        InputEvent::BpmUp => none && bpm_released(math, before, after),
        InputEvent::ClearTrack => none && after == (MiddleModel {
            project: ProjectModel {
                patterns: before.project.patterns.update(
                    before.project.selected_pattern as int,
                    before.project.patterns[before.project.selected_pattern as int].update(
                        before.project.selected_sound as int,
                        crate::pipeline::blank_track(),
                    ),
                ),
                ..before.project
            },
            ..before
        }),
        InputEvent::KnobTurnA(delta) => knob_a_turned(math, before, delta, after, commands),
        InputEvent::KnobTurnB(delta) => knob_b_turned(math, before, delta, after, commands),
        InputEvent::GridDown(n) => grid_pressed(math, before, n, after, commands),
        InputEvent::GridUp(n) => none && after == if n < NUM_PADS {
            before.with_held(HeldModel { grid: held.grid.update(n as int, false), ..held })
        } else {
            before
        },
        InputEvent::SelectSound(n) => none && after == (MiddleModel {
            project: ProjectModel { selected_sound: n, ..before.project },
            ..before
        }),
        InputEvent::SelectPattern(n) => none && after == (MiddleModel {
            project: ProjectModel { selected_pattern: n, ..before.project },
            ..before
        }),
        InputEvent::ChainPattern(n) => none && after == (MiddleModel {
            project: ProjectModel {
                pattern_chain: before.project.pattern_chain.push(n),
                ..before.project
            },
            ..before
        }),
        InputEvent::SetVolume(n) => none && after == (MiddleModel {
            project: ProjectModel { master_volume: n, ..before.project },
            ..before
        }),
        InputEvent::ToggleStep(n) => none && after == step_toggled(before, n as int),
        InputEvent::LiveRecordStep(_) => live_recorded(math, before, after, commands),
        InputEvent::SetRealtimeEffect(fx) => none && after == effect_set(before, fx),
        InputEvent::ClearRealtimeEffect => none && after == effect_cleared(before),
        InputEvent::DeleteSound => none && after == before.with_selected_sound(
            SoundModel::empty(),
        ),
        InputEvent::TriggerPad(n) => after == before && pad_played(math, before, n, commands),
        InputEvent::AdjustSwing(delta) => none && swing_adjusted(math, before, delta, after),
        InputEvent::AdjustBpm(delta) => none && bpm_adjusted(math, before, delta, after),
        InputEvent::PitchLockStep(delta) => none && pitch_locked(
            math,
            before,
            before.current_step as int,
            delta,
            after,
        ),
        InputEvent::GainLockStep(delta) => none && gain_locked(
            math,
            before,
            before.current_step as int,
            delta,
            after,
        ),
        InputEvent::LockStepPitchAt { step, delta } => none && pitch_locked(
            math,
            before,
            step as int,
            delta,
            after,
        ),
        InputEvent::LockStepGainAt { step, delta } => none && gain_locked(
            math,
            before,
            step as int,
            delta,
            after,
        ),
        InputEvent::AdjustPitch(delta) => none && pitch_adjusted(math, before, delta, after),
        InputEvent::AdjustGain(delta) => none && gain_adjusted(math, before, delta, after),
        InputEvent::AdjustFilterCutoff(delta) => none && cutoff_adjusted(
            math,
            before,
            delta,
            after,
        ),
        InputEvent::AdjustFilterResonance(delta) => none && resonance_adjusted(
            math,
            before,
            delta,
            after,
        ),
        InputEvent::AdjustTrimStart(delta) => none && trim_start_adjusted(
            math,
            before,
            delta,
            after,
        ),
        InputEvent::AdjustTrimLength(delta) => none && trim_length_adjusted(
            math,
            before,
            delta,
            after,
        ),
        InputEvent::Quit => none && after == before,
    }
}

impl Middle {
    /// Moves the tempo to the next preset: below 100 BPM to 120, from 100
    /// to 129 to 140, and from 130 on to 80.
    fn cycle_bpm_preset<M: SampleMath>(&mut self, math: &M)
        ensures
            final(self)@ == (MiddleModel {
                project: ProjectModel { bpm: final(self)@.project.bpm, ..old(self)@.project },
                ..old(self)@
            }),
            exists|whole: usize| #[trigger]
                is_index(math, old(self)@.project.bpm, whole) && final(self)@.project.bpm
                    == preset_after(whole),
    {
        proof {
            use_type_invariant(&*self);
        }
        let whole = math.to_index(self.state.bpm);
        assert(is_index(math, old(self)@.project.bpm, whole));
        self.state.bpm = if whole <= 99 {
            BPM_MEDIUM
        } else if whole <= 129 {
            BPM_FAST
        } else {
            BPM_SLOW
        };
        proof {
            assert(self@.project.patterns =~= old(self)@.project.patterns);
            assert(self@.project.sounds =~= old(self)@.project.sounds);
        }
    }

    /// The step that a note played now is recorded on: the step after the
    /// one that sounded last if half a step or more has passed since, else
    /// that step itself.
    fn quantize_to_nearest_step<M: SampleMath>(&self, math: &M) -> (q: usize)
        ensures
            quantized(math, self@, q as int),
            q < STEPS_PER_PATTERN,
    {
        proof {
            use_type_invariant(self);
        }
        let duration = step_micros(self.state.bpm, math);
        assert(step_duration(math, self@.project.bpm, duration));
        let late = self.step_accumulator >= duration - duration / 2;
        if late {
            if self.current_step as usize >= STEPS_PER_PATTERN - 1 {
                0
            } else {
                self.current_step as usize + 1
            }
        } else {
            self.current_step as usize
        }
    }

    /// Holds the effect numbered `fx` down and, in write mode, saves it on
    /// the current step of the selected sound.
    fn set_realtime_effect(&mut self, fx: u8)
        ensures
            final(self)@ == effect_set(old(self)@, fx),
    {
        proof {
            use_type_invariant(&*self);
        }
        self.active_rt_effect = Some(fx);
        if self.write_mode {
            let si = self.current_step as usize;
            let step = self.selected_step(si);
            self.set_selected_step(si, Step { effect: Some(fx), ..step });
        }
    }

    /// Lets the held effect go and, in write mode, takes the effect off the
    /// current step of every sound.
    fn clear_realtime_effect(&mut self)
        ensures
            final(self)@ == effect_cleared(old(self)@),
    {
        proof {
            use_type_invariant(&*self);
        }
        self.active_rt_effect = None;
        if self.write_mode {
            let pi = self.state.selected_pattern as usize;
            let si = self.current_step as usize;
            let ghost before = self.state.patterns[pi as int]@;
            let mut k: usize = 0;
            while k < NUM_SOUNDS
                invariant
                    k <= NUM_SOUNDS,
                    pi < NUM_PATTERNS,
                    si < STEPS_PER_PATTERN,
                    self.state.patterns@.len() == NUM_PATTERNS,
                    old(self)@.project.patterns.len() == NUM_PATTERNS,
                    pi == old(self)@.project.selected_pattern,
                    si == old(self)@.current_step,
                    before == old(self)@.project.patterns[pi as int],
                    self@ == (MiddleModel {
                        project: ProjectModel {
                            patterns: self@.project.patterns,
                            ..old(self)@.project
                        },
                        active_rt_effect: None,
                        ..old(self)@
                    }),
                    forall|p: int|
                        0 <= p < NUM_PATTERNS && p != pi ==> self@.project.patterns[p] == old(
                            self,
                        )@.project.patterns[p],
                    forall|j: int|
                        0 <= j < k ==> self@.project.patterns[pi as int][j] == before[j].update(
                            si as int,
                            Step { effect: None, ..before[j][si as int] },
                        ),
                    forall|j: int|
                        k <= j < NUM_SOUNDS ==> self@.project.patterns[pi as int][j] == before[j],
                decreases NUM_SOUNDS - k,
            {
                proof {
                    use_type_invariant(&*self);
                }
                let ghost prev = self@.project.patterns;
                self.state.patterns[pi].tracks[k].steps[si].effect = None;
                proof {
                    assert(self@.project.sounds =~= old(self)@.project.sounds);
                    assert(self@.project.patterns[pi as int][k as int] =~= before[k as int].update(
                        si as int,
                        Step { effect: None, ..before[k as int][si as int] },
                    ));
                    assert forall|j: int| 0 <= j < NUM_SOUNDS && j != k implies self@.project.patterns[pi as int][j]
                        == prev[pi as int][j] by {
                        assert(self@.project.patterns[pi as int][j] =~= prev[pi as int][j]);
                    }
                    assert forall|p: int| 0 <= p < NUM_PATTERNS && p != pi implies self@.project.patterns[p]
                        == prev[p] by {
                        assert(self@.project.patterns[p] =~~= prev[p]);
                    }
                    assert forall|j: int| 0 <= j <= k implies self@.project.patterns[pi as int][j]
                        == before[j].update(
                        si as int,
                        Step { effect: None, ..before[j][si as int] },
                    ) by {
                        if j < k {
                            assert(prev[pi as int][j] == before[j].update(
                                si as int,
                                Step { effect: None, ..before[j][si as int] },
                            ));
                        }
                    }
                    assert forall|j: int| k < j < NUM_SOUNDS implies self@.project.patterns[pi as int][j]
                        == before[j] by {
                        assert(prev[pi as int][j] == before[j]);
                    }
                }
                k += 1;
            }
            proof {
                let want = effect_cleared(old(self)@);
                assert(self@.project.patterns[pi as int] =~= effects_cleared(before, si as int));
                assert(self@.project.patterns =~= want.project.patterns);
            }
        }
    }

    /// Flips the step at position `si` of the selected sound between on and
    /// off.
    fn toggle_step(&mut self, si: usize)
        requires
            si < STEPS_PER_PATTERN,
        ensures
            final(self)@ == step_toggled(old(self)@, si as int),
    {
        let step = self.selected_step(si);
        self.set_selected_step(si, Step { active: !step.active, ..step });
    }

    /// Record goes down.
    fn on_record_down(&mut self) -> (commands: Vec<AudioCommand>)
        ensures
            record_pressed(old(self)@, final(self)@, command_models(commands@)),
    {
        proof {
            use_type_invariant(&*self);
        }
        let mut commands: Vec<AudioCommand> = Vec::new();
        self.held.record = true;
        if self.held.pattern {
            let pi = self.state.selected_pattern as usize;
            self.state.patterns[pi] = Pattern::default();
            proof {
                assert(self@.project.sounds =~= old(self)@.project.sounds);
                assert(self@.project.patterns =~= old(self)@.project.patterns.update(
                    pi as int,
                    crate::pipeline::blank_pattern(),
                ));
                assert(command_models(commands@) =~= Seq::<CommandModel>::empty());
            }
            return commands;
        }
        if !self.held.sound {
            let mut ids = SampleIdCounter::new();
            std::mem::swap(&mut ids, &mut self.ids);
            let sid = next_sample_id(&mut ids);
            self.ids = ids;
            let slot = self.state.selected_sound as usize;
            let ghost sound = self.state.sounds[slot as int]@;
            self.state.sounds[slot].sample_id = Some(sid);
            self.state.sounds[slot].sample_path = "(recording)".to_owned();
            self.state.sounds[slot].trim_start = 0;
            self.state.sounds[slot].buffer_len = 0;
            self.state.sounds[slot].length = usize::MAX;
            commands.push(AudioCommand::StartRecording { sample_id: sid });
            proof {
                let held = old(self)@.with_held(HeldModel { record: true, ..old(self)@.held });
                let want = (MiddleModel { next_id: following(old(self)@.next_id), ..held })
                    .with_selected_sound(
                    SoundModel {
                        sample_id: Some(sid),
                        sample_path: "(recording)"@,
                        trim_start: 0,
                        buffer_len: 0,
                        length: usize::MAX,
                        ..sound
                    },
                );
                assert(self@.project.sounds =~= want.project.sounds);
                assert(self@.project.patterns =~= want.project.patterns);
                assert(command_models(commands@) =~= seq![
                    CommandModel::StartRecording { sample_id: sid },
                ]);
            }
            return commands;
        }
        assert(command_models(commands@) =~= Seq::<CommandModel>::empty());
        commands
    }

    /// Knob A turns by `delta`.
    fn on_knob_a<M: SampleMath>(&mut self, delta: u32, math: &M) -> (commands: Vec<AudioCommand>)
        ensures
            knob_a_turned(math, old(self)@, delta, final(self)@, command_models(commands@)),
    {
        proof {
            use_type_invariant(&*self);
        }
        let mut commands: Vec<AudioCommand> = Vec::new();
        assert(command_models(commands@) =~= Seq::<CommandModel>::empty());
        let scale = match self.active_rt_effect {
            Some(11) => Some(SCRATCH_COARSE),
            Some(12) => Some(SCRATCH_FINE),
            _ => None,
        };
        match scale {
            Some(scale) => {
                let slot = self.state.selected_sound as usize;
                match self.state.sounds[slot].sample_id {
                    Some(sample_id) => {
                        let length = self.state.sounds[slot].length;
                        self.scratch_position = scaled_nudge(
                            self.scratch_position,
                            delta,
                            scale,
                            binary32::ZERO,
                            binary32::ONE,
                            math,
                        );
                        let frames = math.from_count(length);
                        let position = math.product(self.scratch_position, frames);
                        assert(is_count(math, old(self)@.sound().length, frames));
                        assert(scale == scratch_scale(old(self)@.active_rt_effect));
                        let cmd = AudioCommand::SetPlaybackPosition { sample_id, position };
                        commands.push(cmd);
                        proof {
                            assert(command_models(commands@) =~= seq![cmd@]);
                        }
                        return commands;
                    },
                    None => {},
                }
            },
            None => {},
        }
        if self.held.bpm {
            self.adjust_swing(delta, math);
        } else if self.held.write_held && self.playing {
            self.lock_step_pitch(self.current_step as usize, delta, math);
        } else {
            match self.param_page {
                ParamPage::Tone => self.adjust_pitch(delta, math),
                ParamPage::Filter => self.adjust_filter_cutoff(delta, math),
                ParamPage::Trim => self.adjust_trim_start(delta, math),
            }
        }
        commands
    }

    /// Knob B turns by `delta`.
    fn on_knob_b<M: SampleMath>(&mut self, delta: u32, math: &M) -> (commands: Vec<AudioCommand>)
        ensures
            knob_b_turned(math, old(self)@, delta, final(self)@, command_models(commands@)),
    {
        proof {
            use_type_invariant(&*self);
        }
        let commands: Vec<AudioCommand> = Vec::new();
        assert(command_models(commands@) =~= Seq::<CommandModel>::empty());
        if self.held.bpm {
            self.adjust_bpm(delta, math);
        } else if self.held.write_held && self.playing {
            self.lock_step_gain(self.current_step as usize, delta, math);
        } else {
            match self.param_page {
                ParamPage::Tone => self.adjust_gain(delta, math),
                ParamPage::Filter => self.adjust_filter_resonance(delta, math),
                ParamPage::Trim => self.adjust_trim_length(delta, math),
            }
        }
        commands
    }
}

impl Middle {
    /// Appends pattern `n` to the chain.
    fn chain_pattern(&mut self, n: u8)
        requires
            n < NUM_PATTERNS,
        ensures
            final(self)@ == (MiddleModel {
                project: ProjectModel {
                    pattern_chain: old(self)@.project.pattern_chain.push(n),
                    ..old(self)@.project
                },
                ..old(self)@
            }),
    {
        proof {
            use_type_invariant(&*self);
        }
        let position = self.chain_position;
        self.chain_position = 0;
        let mut chain: Vec<u8> = Vec::new();
        std::mem::swap(&mut chain, &mut self.state.pattern_chain);
        chain.push(n);
        assert forall|i: int| 0 <= i < chain@.len() implies #[trigger] chain@[i] < NUM_PATTERNS by {
            if i < chain@.len() - 1 {
                assert(chain@[i] == old(self)@.project.pattern_chain[i]);
            }
        }
        self.state.pattern_chain = chain;
        self.chain_position = position;
        proof {
            assert(self@.project.patterns =~= old(self)@.project.patterns);
            assert(self@.project.sounds =~= old(self)@.project.sounds);
        }
    }

    /// Pad `n` goes down.
    fn on_grid_down<M: SampleMath>(&mut self, n: u8, math: &M) -> (commands: Vec<AudioCommand>)
        ensures
            grid_pressed(math, old(self)@, n, final(self)@, command_models(commands@)),
    {
        proof {
            use_type_invariant(&*self);
        }
        let commands: Vec<AudioCommand> = Vec::new();
        assert(command_models(commands@) =~= Seq::<CommandModel>::empty());
        let idx = n as usize;
        if idx >= NUM_PADS {
            return commands;
        }
        self.held.grid[idx] = true;
        let ghost held = self@;
        assert(held == old(self)@.with_held(
            HeldModel { grid: old(self)@.held.grid.update(n as int, true), ..old(self)@.held },
        ));
        if self.held.sound {
            self.state.selected_sound = n;
            proof {
                assert(self@.project.patterns =~= held.project.patterns);
                assert(self@.project.sounds =~= held.project.sounds);
            }
            return commands;
        }
        if self.held.pattern {
            if self.playing {
                self.chain_pattern(n);
            } else {
                self.state.selected_pattern = n;
            }
            proof {
                assert(self@.project.patterns =~= held.project.patterns);
                assert(self@.project.sounds =~= held.project.sounds);
            }
            return commands;
        }
        if self.held.bpm {
            self.state.master_volume = n + 1;
            proof {
                assert(self@.project.patterns =~= held.project.patterns);
                assert(self@.project.sounds =~= held.project.sounds);
            }
            return commands;
        }
        if self.held.fx && self.playing {
            if n == 15 {
                self.clear_realtime_effect();
            } else {
                self.set_realtime_effect(n + 1);
            }
            return commands;
        }
        if self.held.record {
            return commands;
        }
        if self.write_mode && !self.playing {
            self.toggle_step(idx);
            return commands;
        }
        let pitch_mult = pad_to_major_scale_pitch(n, math);
        if self.held.write_held && self.playing {
            let q = self.quantize_to_nearest_step(math);
            let step = self.selected_step(q);
            self.set_selected_step(q, Step { active: true, pitch_lock: Some(pitch_mult), ..step });
            assert(quantized(math, held, q as int));
            assert(pad_pitch(math, n, pitch_mult));
            return self.trigger_sound_with_pitch(self.state.selected_sound, Some(pitch_mult), math);
        }
        self.trigger_sound_with_pitch(self.state.selected_sound, Some(pitch_mult), math)
    }

    /// A button goes down or comes up and nothing else happens.
    fn on_button<M: SampleMath>(&mut self, event: InputEvent, now: u64, math: &M)
        requires
            event is SoundDown || event is SoundUp || event is PatternDown || event is PatternUp
                || event is WriteDown || event is WriteUp || event is BpmDown || event is FxDown
                || event is FxUp || event is GridUp || event is PlayPress || event is Quit,
        ensures
            responded(math, old(self)@, event, now, final(self)@, Seq::empty()),
    {
        proof {
            use_type_invariant(&*self);
        }
        match event {
            InputEvent::SoundDown => {
                self.held.sound = true;
            },
            InputEvent::SoundUp => {
                self.held.sound = false;
            },
            InputEvent::PatternDown => {
                self.held.pattern = true;
            },
            InputEvent::PatternUp => {
                self.held.pattern = false;
            },
            InputEvent::WriteDown => {
                self.held.write_held = true;
                if !self.playing {
                    self.write_mode = !self.write_mode;
                }
            },
            InputEvent::WriteUp => {
                self.held.write_held = false;
            },
            InputEvent::BpmDown => {
                self.held.bpm = true;
            },
            InputEvent::FxDown => {
                self.held.fx = true;
                self.fx_down_at = Some(now);
            },
            InputEvent::FxUp => {
                self.held.fx = false;
                self.active_rt_effect = None;
                let tap = match self.fx_down_at {
                    Some(at) => now < at || now - at < FX_TAP_THRESHOLD_MICROS,
                    None => false,
                };
                self.fx_down_at = None;
                if tap {
                    self.param_page = self.param_page.next();
                }
            },
            InputEvent::GridUp(n) => {
                if (n as usize) < NUM_PADS {
                    self.held.grid[n as usize] = false;
                }
            },
            InputEvent::PlayPress => {
                self.playing = !self.playing;
                if self.playing {
                    self.current_step = 0;
                    self.step_accumulator = 0;
                    self.chain_position = 0;
                }
            },
            _ => {},
        }
    }

    /// Something is selected, cleared or deleted in the project.
    fn on_edit<M: SampleMath>(&mut self, event: InputEvent, now: u64, math: &M)
        requires
            event_in_range(event),
            event is SelectSound || event is SelectPattern || event is ChainPattern
                || event is SetVolume || event is ClearTrack || event is DeleteSound,
        ensures
            responded(math, old(self)@, event, now, final(self)@, Seq::empty()),
    {
        proof {
            use_type_invariant(&*self);
        }
        match event {
            InputEvent::SelectSound(n) => {
                self.state.selected_sound = n;
                proof {
                    assert(self@.project.patterns =~= old(self)@.project.patterns);
                    assert(self@.project.sounds =~= old(self)@.project.sounds);
                }
            },
            InputEvent::SelectPattern(n) => {
                self.state.selected_pattern = n;
                proof {
                    assert(self@.project.patterns =~= old(self)@.project.patterns);
                    assert(self@.project.sounds =~= old(self)@.project.sounds);
                }
            },
            InputEvent::ChainPattern(n) => {
                self.chain_pattern(n);
            },
            InputEvent::SetVolume(n) => {
                self.state.master_volume = n;
                proof {
                    assert(self@.project.patterns =~= old(self)@.project.patterns);
                    assert(self@.project.sounds =~= old(self)@.project.sounds);
                }
            },
            InputEvent::ClearTrack => {
                let pi = self.state.selected_pattern as usize;
                let sound = self.state.selected_sound as usize;
                self.state.patterns[pi].tracks[sound] = Track::default();
                proof {
                    assert(self@.project.sounds =~= old(self)@.project.sounds);
                    assert(self@.project.patterns =~~= old(self)@.project.patterns.update(
                        pi as int,
                        old(self)@.project.patterns[pi as int].update(
                            sound as int,
                            crate::pipeline::blank_track(),
                        ),
                    ));
                }
            },
            InputEvent::DeleteSound => {
                let slot = self.state.selected_sound as usize;
                self.state.sounds[slot] = SoundSlot::default();
                proof {
                    let want = old(self)@.with_selected_sound(SoundModel::empty());
                    assert(self@.project.sounds =~= want.project.sounds);
                    assert(self@.project.patterns =~= want.project.patterns);
                }
            },
            _ => {},
        }
    }

    /// A knob turn that the control surface has already resolved.
    fn on_adjust<M: SampleMath>(&mut self, event: InputEvent, now: u64, math: &M)
        requires
            event_in_range(event),
            event is AdjustSwing || event is AdjustBpm || event is PitchLockStep
                || event is GainLockStep || event is LockStepPitchAt || event is LockStepGainAt
                || event is AdjustPitch || event is AdjustGain || event is AdjustFilterCutoff
                || event is AdjustFilterResonance || event is AdjustTrimStart
                || event is AdjustTrimLength,
        ensures
            responded(math, old(self)@, event, now, final(self)@, Seq::empty()),
    {
        proof {
            use_type_invariant(&*self);
        }
        match event {
            InputEvent::AdjustSwing(delta) => self.adjust_swing(delta, math),
            InputEvent::AdjustBpm(delta) => self.adjust_bpm(delta, math),
            InputEvent::PitchLockStep(delta) => self.lock_step_pitch(
                self.current_step as usize,
                delta,
                math,
            ),
            InputEvent::GainLockStep(delta) => self.lock_step_gain(
                self.current_step as usize,
                delta,
                math,
            ),
            InputEvent::LockStepPitchAt { step, delta } => self.lock_step_pitch(
                step as usize,
                delta,
                math,
            ),
            InputEvent::LockStepGainAt { step, delta } => self.lock_step_gain(
                step as usize,
                delta,
                math,
            ),
            InputEvent::AdjustPitch(delta) => self.adjust_pitch(delta, math),
            InputEvent::AdjustGain(delta) => self.adjust_gain(delta, math),
            InputEvent::AdjustFilterCutoff(delta) => self.adjust_filter_cutoff(delta, math),
            InputEvent::AdjustFilterResonance(delta) => self.adjust_filter_resonance(delta, math),
            InputEvent::AdjustTrimStart(delta) => self.adjust_trim_start(delta, math),
            InputEvent::AdjustTrimLength(delta) => self.adjust_trim_length(delta, math),
            _ => {},
        }
    }

    /// A note is played live in write mode: the step it is nearest to is
    /// switched on, and the selected sound is played.
    fn on_live_record<M: SampleMath>(&mut self, math: &M) -> (commands: Vec<AudioCommand>)
        ensures
            live_recorded(math, old(self)@, final(self)@, command_models(commands@)),
    {
        proof {
            use_type_invariant(&*self);
        }
        let q = self.quantize_to_nearest_step(math);
        let step = self.selected_step(q);
        self.set_selected_step(q, Step { active: true, ..step });
        assert(quantized(math, old(self)@, q as int));
        self.trigger_sound(self.state.selected_sound, math)
    }

    /// Takes an input event at time `now`, in microseconds on any clock
    /// that does not run backwards, and gives the commands that the engine
    /// is to get for it.
    pub fn handle_input<M: SampleMath>(&mut self, event: InputEvent, now: u64, math: &M) -> (commands:
        Vec<AudioCommand>)
        requires
            event_in_range(event),
        ensures
            responded(math, old(self)@, event, now, final(self)@, command_models(commands@)),
    {
        proof {
            use_type_invariant(&*self);
        }
        let mut commands: Vec<AudioCommand> = Vec::new();
        assert(command_models(commands@) =~= Seq::<CommandModel>::empty());
        match event {
            InputEvent::SoundDown
            | InputEvent::SoundUp
            | InputEvent::PatternDown
            | InputEvent::PatternUp
            | InputEvent::WriteDown
            | InputEvent::WriteUp
            | InputEvent::BpmDown
            | InputEvent::FxDown
            | InputEvent::FxUp
            | InputEvent::GridUp(_)
            | InputEvent::PlayPress
            | InputEvent::Quit => {
                self.on_button(event, now, math);
            },
            InputEvent::SelectSound(_)
            | InputEvent::SelectPattern(_)
            | InputEvent::ChainPattern(_)
            | InputEvent::SetVolume(_)
            | InputEvent::ClearTrack
            | InputEvent::DeleteSound => {
                self.on_edit(event, now, math);
            },
            InputEvent::AdjustSwing(_)
            | InputEvent::AdjustBpm(_)
            | InputEvent::PitchLockStep(_)
            | InputEvent::GainLockStep(_)
            | InputEvent::LockStepPitchAt { .. }
            | InputEvent::LockStepGainAt { .. }
            | InputEvent::AdjustPitch(_)
            | InputEvent::AdjustGain(_)
            | InputEvent::AdjustFilterCutoff(_)
            | InputEvent::AdjustFilterResonance(_)
            | InputEvent::AdjustTrimStart(_)
            | InputEvent::AdjustTrimLength(_) => {
                self.on_adjust(event, now, math);
            },
            InputEvent::RecordDown => {
                return self.on_record_down();
            },
            InputEvent::RecordUp => {
                self.held.record = false;
                commands.push(AudioCommand::StopRecording);
                assert(command_models(commands@) =~= seq![CommandModel::StopRecording]);
            },
            InputEvent::BpmUp => {
                self.held.bpm = false;
                self.cycle_bpm_preset(math);
            },
            InputEvent::KnobTurnA(delta) => {
                return self.on_knob_a(delta, math);
            },
            InputEvent::KnobTurnB(delta) => {
                return self.on_knob_b(delta, math);
            },
            InputEvent::GridDown(n) => {
                return self.on_grid_down(n, math);
            },
            InputEvent::ToggleStep(n) => {
                self.toggle_step(n as usize);
            },
            InputEvent::LiveRecordStep(_) => {
                return self.on_live_record(math);
            },
            InputEvent::SetRealtimeEffect(fx) => {
                self.set_realtime_effect(fx);
            },
            InputEvent::ClearRealtimeEffect => {
                self.clear_realtime_effect();
            },
            InputEvent::TriggerPad(n) => {
                let pitch = pad_to_major_scale_pitch(n, math);
                return self.trigger_sound_with_pitch(self.state.selected_sound, Some(pitch), math);
            },
        }
        commands
    }
}

/// How the LED of pad `i` is lit. While sound or pattern is held, the
/// selected one is lit; while BPM is held, as many pads as the volume says;
/// while FX is held, all of them; otherwise the active steps of the selected
/// sound. The step that is playing blinks, whatever else is shown.
pub open spec fn led_at(m: MiddleModel, i: int) -> LedState {
    if m.playing && i == m.current_step {
        LedState::Blink
    } else if m.held.sound {
        if i == m.project.selected_sound {
            LedState::OnMedium
        } else {
            LedState::Off
        }
    } else if m.held.pattern {
        if i == m.project.selected_pattern {
            LedState::OnMedium
        } else {
            LedState::Off
        }
    } else if m.held.bpm {
        if i < m.project.master_volume {
            LedState::OnMedium
        } else {
            LedState::Off
        }
    } else if m.held.fx {
        LedState::OnMedium
    } else if m.selected_step(i).active {
        LedState::OnMedium
    } else {
        LedState::Off
    }
}

/// What the text line says: the volume while BPM is held, else the selected
/// sound while sound is held, else the selected pattern while pattern is
/// held, else the tempo.
pub open spec fn text_of(m: MiddleModel) -> DisplayText {
    if m.held.bpm {
        DisplayText::Volume(m.project.master_volume)
    } else if m.held.sound {
        DisplayText::Sound((m.project.selected_sound + 1) as u8)
    } else if m.held.pattern {
        DisplayText::Pattern((m.project.selected_pattern + 1) as u8)
    } else {
        DisplayText::Bpm(m.project.bpm)
    }
}

/// Whether `a` and `b` are the positions, as `math` gives them, at which the
/// two knobs stand for `sound` on `page`: the pitch over its span and the
/// gain; the cutoff on its logarithmic scale and the resonance; the start and
/// the length of the window as parts of the sample, or the two ends of the
/// scale for a sound without a sample.
pub open spec fn knobs_show<M: SampleMath>(
    math: &M,
    sound: SoundModel,
    page: ParamPage,
    a: u32,
    b: u32,
) -> bool {
    match page {
        ParamPage::Tone => {
            &&& b == sound.gain
            &&& exists|offset: u32|
                {
                    &&& #[trigger] is_difference(math, sound.pitch, HALF, offset)
                    &&& #[trigger] is_quotient(math, offset, PITCH_SPAN, a)
                }
        },
        ParamPage::Filter => {
            &&& b == sound.filter_resonance
            &&& exists|ratio: u32, log: u32, span: u32, turned: u32|
                {
                    &&& #[trigger] is_quotient(math, sound.filter_cutoff, CUTOFF_MIN, ratio)
                    &&& #[trigger] is_ln(math, ratio, log)
                    &&& #[trigger] is_ln(math, CUTOFF_RATIO, span)
                    &&& #[trigger] is_quotient(math, log, span, turned)
                    &&& a == binary32::clamped(turned, binary32::ZERO, binary32::ONE)
                }
        },
        ParamPage::Trim => if sound.buffer_len > 0 {
            exists|whole: u32, start: u32, length: u32|
                {
                    &&& #[trigger] is_count(math, sound.buffer_len, whole)
                    &&& #[trigger] is_count(math, sound.trim_start, start)
                    &&& #[trigger] is_count(math, sound.length, length)
                    &&& #[trigger] is_quotient(math, start, whole, a)
                    &&& #[trigger] is_quotient(math, length, whole, b)
                }
        } else {
            a == binary32::ZERO && b == binary32::ONE
        },
    }
}

/// Where the two knobs stand for `sound` on `page`.
fn knob_positions<M: SampleMath>(sound: &SoundSlot, page: ParamPage, math: &M) -> (knobs: (
    u32,
    u32,
))
    ensures
        knobs_show(math, sound@, page, knobs.0, knobs.1),
{
    match page {
        ParamPage::Tone => {
            let offset = math.difference(sound.pitch, HALF);
            let turned = math.quotient(offset, PITCH_SPAN);
            assert(is_difference(math, sound@.pitch, HALF, offset) && is_quotient(
                math,
                offset,
                PITCH_SPAN,
                turned,
            ));
            (turned, sound.gain)
        },
        ParamPage::Filter => {
            let ratio = math.quotient(sound.filter_cutoff, CUTOFF_MIN);
            let log = math.ln(ratio);
            let span = math.ln(CUTOFF_RATIO);
            let turned = math.quotient(log, span);
            assert(is_quotient(math, sound@.filter_cutoff, CUTOFF_MIN, ratio) && is_ln(
                math,
                ratio,
                log,
            ) && is_ln(math, CUTOFF_RATIO, span) && is_quotient(math, log, span, turned));
            (binary32::clamp(turned, binary32::ZERO, binary32::ONE), sound.filter_resonance)
        },
        ParamPage::Trim => if sound.buffer_len > 0 {
            let whole = math.from_count(sound.buffer_len);
            let start = math.from_count(sound.trim_start);
            let length = math.from_count(sound.length);
            let a = math.quotient(start, whole);
            let b = math.quotient(length, whole);
            assert(is_count(math, sound@.buffer_len, whole) && is_count(
                math,
                sound@.trim_start,
                start,
            ) && is_count(math, sound@.length, length) && is_quotient(math, start, whole, a)
                && is_quotient(math, length, whole, b));
            (a, b)
        } else {
            (binary32::ZERO, binary32::ONE)
        },
    }
}

/// Whether `display` shows the state `m`, the knobs standing where `math`
/// puts them.
pub open spec fn shows<M: SampleMath>(math: &M, m: MiddleModel, display: DisplayState) -> bool {
    &&& forall|i: int| 0 <= i < STEPS_PER_PATTERN ==> display.leds[i] == led_at(m, i)
    &&& display.playing_step == if m.playing {
        Some(m.current_step)
    } else {
        None
    }
    &&& display.write_mode == m.write_mode
    &&& display.playing == m.playing
    &&& display.param_page == m.param_page
    &&& display.selected_sound == m.project.selected_sound
    &&& display.selected_pattern == m.project.selected_pattern
    &&& display.bpm == m.project.bpm
    &&& display.display_text == text_of(m)
    &&& display.knob_a_label@ == m.param_page.labels().0
    &&& display.knob_b_label@ == m.param_page.labels().1
    &&& knobs_show(math, m.sound(), m.param_page, display.knob_a_value, display.knob_b_value)
}

/// Why a finished recording cannot be put into a slot.
#[derive(Clone, Copy, Debug, PartialEq, Eq, Structural)]
pub enum RecordingError {
    /// No slot is waiting for the sample.
    NoSlot,
}

impl RecordingError {
    /// What the error says to the user.
    pub open spec fn text(self) -> Seq<char> {
        "no slot found for recorded sample_id"@
    }

    /// A line for the user.
    pub fn message(&self) -> (line: &'static str)
        ensures
            line@ == self.text(),
    {
        "no slot found for recorded sample_id"
    }
}

/// The first slot below `upto` that holds the sample `id`, or -1.
pub open spec fn first_slot_of(sounds: Seq<SoundModel>, id: SampleId, upto: int) -> int
    decreases upto,
{
    if upto <= 0 {
        -1
    } else if first_slot_of(sounds, id, upto - 1) >= 0 {
        first_slot_of(sounds, id, upto - 1)
    } else if sounds[upto - 1].sample_id == Some(id) {
        upto - 1
    } else {
        -1
    }
}

impl Middle {
    /// What the screen is to show.
    pub fn display_state<M: SampleMath>(&self, math: &M) -> (display: DisplayState)
        ensures
            shows(math, self@, display),
    {
        proof {
            use_type_invariant(self);
        }
        let (knob_a_label, knob_b_label) = self.param_page.knob_labels();
        let pi = self.state.selected_pattern as usize;
        let slot = self.state.selected_sound as usize;
        let mut leds = [LedState::Off; STEPS_PER_PATTERN];
        let mut i: usize = 0;
        while i < STEPS_PER_PATTERN
            invariant
                i <= STEPS_PER_PATTERN,
                pi == self@.project.selected_pattern,
                slot == self@.project.selected_sound,
                pi < NUM_PATTERNS,
                slot < NUM_SOUNDS,
                self.state.patterns@.len() == NUM_PATTERNS,
                forall|j: int| 0 <= j < i ==> leds[j] == led_at(self@, j),
            decreases STEPS_PER_PATTERN - i,
        {
            let led = if self.playing && i == self.current_step as usize {
                LedState::Blink
            } else if self.held.sound {
                if i == slot {
                    LedState::OnMedium
                } else {
                    LedState::Off
                }
            } else if self.held.pattern {
                if i == pi {
                    LedState::OnMedium
                } else {
                    LedState::Off
                }
            } else if self.held.bpm {
                if i < self.state.master_volume as usize {
                    LedState::OnMedium
                } else {
                    LedState::Off
                }
            } else if self.held.fx {
                LedState::OnMedium
            } else if self.state.patterns[pi].tracks[slot].steps[i].active {
                LedState::OnMedium
            } else {
                LedState::Off
            };
            leds[i] = led;
            i += 1;
        }
        let sound = &self.state.sounds[slot];
        let (knob_a_value, knob_b_value) = knob_positions(sound, self.param_page, math);
        let display_text = if self.held.bpm {
            DisplayText::Volume(self.state.master_volume)
        } else if self.held.sound {
            DisplayText::Sound(self.state.selected_sound + 1)
        } else if self.held.pattern {
            DisplayText::Pattern(self.state.selected_pattern + 1)
        } else {
            DisplayText::Bpm(self.state.bpm)
        };
        DisplayState {
            leds,
            playing_step: if self.playing {
                Some(self.current_step)
            } else {
                None
            },
            write_mode: self.write_mode,
            playing: self.playing,
            param_page: self.param_page,
            selected_sound: self.state.selected_sound,
            selected_pattern: self.state.selected_pattern,
            bpm: self.state.bpm,
            display_text,
            knob_a_label,
            knob_b_label,
            knob_a_value,
            knob_b_value,
        }
    }

    /// Loads a decoded WAV file into slot `slot`: the slot gets a fresh
    /// identity and a window over the whole sample, and the engine is to
    /// register the frames of the file, brought to `target_rate`, under
    /// that identity. A file that cannot be loaded uses up an identity and
    /// changes nothing else.
    pub fn load_sample_into_slot<M: SampleMath>(
        &mut self,
        slot: u8,
        path: String,
        wav: &WavData,
        target_rate: u32,
        math: &M,
    ) -> (loaded: Result<AudioCommand, LoadError>)
        requires
            slot < NUM_SOUNDS,
        ensures
            match loaded {
                Ok(cmd) => {
                    &&& wav.load_failure(target_rate, 2).is_none()
                    &&& cmd@ matches CommandModel::RegisterSample { id, frames }
                    &&& id == SampleId(old(self)@.next_id)
                    &&& wav_loaded(math, *wav, target_rate, frames)
                    &&& final(self)@ == (MiddleModel {
                        next_id: following(old(self)@.next_id),
                        ..old(self)@
                    }).with_sound(
                        slot as int,
                        SoundModel {
                            sample_path: path@,
                            sample_id: Some(id),
                            buffer_len: frames.len() as usize,
                            trim_start: 0,
                            length: frames.len() as usize,
                            ..old(self)@.project.sounds[slot as int]
                        },
                    )
                },
                Err(e) => {
                    &&& wav.load_failure(target_rate, 2) == Some(e)
                    &&& final(self)@ == (MiddleModel {
                        next_id: following(old(self)@.next_id),
                        ..old(self)@
                    })
                },
            },
    {
        proof {
            use_type_invariant(&*self);
        }
        let mut ids = SampleIdCounter::new();
        std::mem::swap(&mut ids, &mut self.ids);
        let sample_id = next_sample_id(&mut ids);
        self.ids = ids;
        let buffer = match SampleBuffer::load_wav(wav, target_rate, 2, math) {
            Ok(buffer) => buffer,
            Err(e) => {
                return Err(e);
            },
        };
        let len = buffer.len();
        let index = slot as usize;
        self.state.sounds[index].sample_path = path;
        self.state.sounds[index].sample_id = Some(sample_id);
        self.state.sounds[index].buffer_len = len;
        self.state.sounds[index].trim_start = 0;
        self.state.sounds[index].length = len;
        proof {
            let want = (MiddleModel { next_id: following(old(self)@.next_id), ..old(self)@ })
                .with_sound(
                slot as int,
                SoundModel {
                    sample_path: path@,
                    sample_id: Some(sample_id),
                    buffer_len: len,
                    trim_start: 0,
                    length: len,
                    ..old(self)@.project.sounds[slot as int]
                },
            );
            assert(self@.project.sounds =~= want.project.sounds);
            assert(self@.project.patterns =~= want.project.patterns);
        }
        Ok(AudioCommand::RegisterSample { id: sample_id, buffer })
    }

    /// Empties slot `slot`. A number that names no slot does nothing.
    pub fn clear_slot(&mut self, slot: u8)
        ensures
            final(self)@ == if slot < NUM_SOUNDS {
                old(self)@.with_sound(slot as int, SoundModel::empty())
            } else {
                old(self)@
            },
    {
        proof {
            use_type_invariant(&*self);
        }
        if (slot as usize) < NUM_SOUNDS {
            self.state.sounds[slot as usize] = SoundSlot::default();
            proof {
                let want = old(self)@.with_sound(slot as int, SoundModel::empty());
                assert(self@.project.sounds =~= want.project.sounds);
                assert(self@.project.patterns =~= want.project.patterns);
            }
        }
    }

    /// The slot that waits for the recording `sample_id`: the first that
    /// holds this identity.
    pub fn recording_slot(&self, sample_id: SampleId) -> (slot: Option<usize>)
        ensures
            match slot {
                Some(index) => index == first_slot_of(
                    self@.project.sounds,
                    sample_id,
                    NUM_SOUNDS as int,
                ) && index < NUM_SOUNDS,
                None => first_slot_of(self@.project.sounds, sample_id, NUM_SOUNDS as int) < 0,
            },
    {
        let mut i: usize = 0;
        while i < NUM_SOUNDS
            invariant
                i <= NUM_SOUNDS,
                first_slot_of(self@.project.sounds, sample_id, i as int) < 0,
            decreases NUM_SOUNDS - i,
        {
            let wanted = match self.state.sounds[i].sample_id {
                Some(id) => id.0 == sample_id.0,
                None => false,
            };
            if wanted {
                proof {
                    lemma_first_slot_stays(
                        self@.project.sounds,
                        sample_id,
                        i as int + 1,
                        NUM_SOUNDS as int,
                    );
                }
                return Some(i);
            }
            i += 1;
        }
        None
    }

    /// Takes note that the recording `sample_id`, of `buffer_len` frames,
    /// has been saved at `wav_path`: the slot that waits for it gets the
    /// path and a window over the whole recording.
    pub fn on_recording_complete(
        &mut self,
        sample_id: SampleId,
        buffer_len: usize,
        wav_path: String,
    ) -> (saved: Result<usize, RecordingError>)
        ensures
            match saved {
                Ok(slot) => {
                    &&& slot == first_slot_of(
                        old(self)@.project.sounds,
                        sample_id,
                        NUM_SOUNDS as int,
                    )
                    &&& slot < NUM_SOUNDS
                    &&& final(self)@ == old(self)@.with_sound(
                        slot as int,
                        SoundModel {
                            sample_path: wav_path@,
                            buffer_len,
                            trim_start: 0,
                            length: buffer_len,
                            ..old(self)@.project.sounds[slot as int]
                        },
                    )
                },
                Err(_) => {
                    &&& first_slot_of(old(self)@.project.sounds, sample_id, NUM_SOUNDS as int) < 0
                    &&& final(self)@ == old(self)@
                },
            },
    {
        proof {
            use_type_invariant(&*self);
        }
        let slot = match self.recording_slot(sample_id) {
            Some(slot) => slot,
            None => {
                return Err(RecordingError::NoSlot);
            },
        };
        self.state.sounds[slot].sample_path = wav_path;
        self.state.sounds[slot].buffer_len = buffer_len;
        self.state.sounds[slot].trim_start = 0;
        self.state.sounds[slot].length = buffer_len;
        proof {
            let want = old(self)@.with_sound(
                slot as int,
                SoundModel {
                    sample_path: wav_path@,
                    buffer_len,
                    trim_start: 0,
                    length: buffer_len,
                    ..old(self)@.project.sounds[slot as int]
                },
            );
            assert(self@.project.sounds =~= want.project.sounds);
            assert(self@.project.patterns =~= want.project.patterns);
        }
        Ok(slot)
    }
}

/// Once a slot is found, looking further finds the same slot.
proof fn lemma_first_slot_stays(sounds: Seq<SoundModel>, id: SampleId, found: int, upto: int)
    requires
        0 < found <= upto,
        first_slot_of(sounds, id, found) >= 0,
    ensures
        first_slot_of(sounds, id, upto) == first_slot_of(sounds, id, found),
    decreases upto - found,
{
    if found < upto {
        lemma_first_slot_stays(sounds, id, found, upto - 1);
    }
}

} // verus!
