//! Key resolution: from keys and the state of the modifier toggles to input
//! events.

use vstd::prelude::*;
use crate::binary32;
use crate::math::{is_index, is_product, SampleMath};
use crate::shared::{InputEvent, LedState, ParamPage};

verus! {

/// Bit pattern of 0.05, one knob step up.
pub const KNOB_STEP_UP: u32 = 0x3D4C_CCCD;

/// Bit pattern of -0.05, one knob step down.
pub const KNOB_STEP_DOWN: u32 = 0xBD4C_CCCD;

/// A key of the keyboard, as far as the control surface tells keys apart.
#[derive(Clone, Copy, Debug, PartialEq, Eq, Structural)]
pub enum Key {
    Esc,
    Char(char),
    Other,
}

/// What happened to a key.
#[derive(Clone, Copy, Debug, PartialEq, Eq, Structural)]
pub enum KeyKind {
    Press,
    Repeat,
    Release,
}

/// The state of the control surface. The modifiers are toggles: one press
/// sets them, the next clears them. `write_mode`, `playing` and `param_page`
/// mirror the sequencer.
#[derive(Clone, Copy, Debug, PartialEq, Eq, Structural)]
pub struct TuiState {
    pub sound_held: bool,
    pub pattern_held: bool,
    pub record_held: bool,
    pub fx_held: bool,
    pub bpm_held: bool,
    pub write_mode: bool,
    pub playing: bool,
    pub param_page: ParamPage,
    /// The step pad held in write mode while stopped, for editing one step
    /// with the knobs.
    pub held_step: Option<u8>,
}

impl TuiState {
    /// Nothing held, stopped, on the tone page.
    pub open spec fn initial() -> TuiState {
        TuiState {
            sound_held: false,
            pattern_held: false,
            record_held: false,
            fx_held: false,
            bpm_held: false,
            write_mode: false,
            playing: false,
            param_page: ParamPage::Tone,
            held_step: None,
        }
    }
}

impl Default for TuiState {
    fn default() -> (state: TuiState)
        ensures
            state == TuiState::initial(),
    {
        TuiState {
            sound_held: false,
            pattern_held: false,
            record_held: false,
            fx_held: false,
            bpm_held: false,
            write_mode: false,
            playing: false,
            param_page: ParamPage::Tone,
            held_step: None,
        }
    }
}

/// The pad that a character stands for: the rows `1234`, `qwer`, `asdf` and
/// `zxcv`, counted from the top left.
pub open spec fn pad_of(c: char) -> Option<u8> {
    if c == '1' {
        Some(0u8)
    } else if c == '2' {
        Some(1u8)
    } else if c == '3' {
        Some(2u8)
    } else if c == '4' {
        Some(3u8)
    } else if c == 'q' {
        Some(4u8)
    } else if c == 'w' {
        Some(5u8)
    } else if c == 'e' {
        Some(6u8)
    } else if c == 'r' {
        Some(7u8)
    } else if c == 'a' {
        Some(8u8)
    } else if c == 's' {
        Some(9u8)
    } else if c == 'd' {
        Some(10u8)
    } else if c == 'f' {
        Some(11u8)
    } else if c == 'z' {
        Some(12u8)
    } else if c == 'x' {
        Some(13u8)
    } else if c == 'c' {
        Some(14u8)
    } else if c == 'v' {
        Some(15u8)
    } else {
        None
    }
}

/// The pad that a character stands for.
#[verifier::when_used_as_spec(pad_of)]
pub fn char_to_pad(c: char) -> (pad: Option<u8>)
    ensures
        pad == pad_of(c),
        pad.is_some() ==> pad.unwrap() < 16,
{
    if c == '1' {
        Some(0)
    } else if c == '2' {
        Some(1)
    } else if c == '3' {
        Some(2)
    } else if c == '4' {
        Some(3)
    } else if c == 'q' {
        Some(4)
    } else if c == 'w' {
        Some(5)
    } else if c == 'e' {
        Some(6)
    } else if c == 'r' {
        Some(7)
    } else if c == 'a' {
        Some(8)
    } else if c == 's' {
        Some(9)
    } else if c == 'd' {
        Some(10)
    } else if c == 'f' {
        Some(11)
    } else if c == 'z' {
        Some(12)
    } else if c == 'x' {
        Some(13)
    } else if c == 'c' {
        Some(14)
    } else if c == 'v' {
        Some(15)
    } else {
        None
    }
}

/// Whether a character stands for a pad.
pub fn is_pad_char(c: char) -> (r: bool)
    ensures
        r == pad_of(c).is_some(),
{
    char_to_pad(c).is_some()
}

/// The event that pad `n` gives in state `ts`. A held sound selects; a held
/// pattern chains while playing and selects while stopped; a held BPM sets
/// the volume; a held FX while playing sets an effect, or clears it on the
/// last pad; write mode toggles a step while stopped and records one while
/// playing; otherwise the pad is played.
pub open spec fn grid_event(n: u8, ts: TuiState) -> InputEvent {
    if ts.sound_held {
        InputEvent::SelectSound(n)
    } else if ts.pattern_held {
        if ts.playing {
            InputEvent::ChainPattern(n)
        } else {
            InputEvent::SelectPattern(n)
        }
    } else if ts.bpm_held {
        InputEvent::SetVolume((n + 1) as u8)
    } else if ts.fx_held && ts.playing {
        if n == 15 {
            InputEvent::ClearRealtimeEffect
        } else {
            InputEvent::SetRealtimeEffect((n + 1) as u8)
        }
    } else if ts.write_mode && !ts.playing {
        InputEvent::ToggleStep(n)
    } else if ts.write_mode && ts.playing {
        InputEvent::LiveRecordStep(n)
    } else {
        InputEvent::TriggerPad(n)
    }
}

/// Whether a press of a pad in state `ts` is remembered as the held step:
/// it is when the press toggles a step.
pub open spec fn holds_step(ts: TuiState) -> bool {
    !ts.sound_held && !ts.pattern_held && !ts.bpm_held && !(ts.fx_held && ts.playing)
        && ts.write_mode && !ts.playing
}

/// The event that a turn of knob A by `delta` gives in state `ts`.
pub open spec fn knob_a_event(delta: u32, ts: TuiState) -> InputEvent {
    if ts.bpm_held {
        InputEvent::AdjustSwing(delta)
    } else if ts.held_step.is_some() && ts.write_mode && !ts.playing {
        InputEvent::LockStepPitchAt { step: ts.held_step.unwrap(), delta }
    } else if ts.write_mode && ts.playing {
        InputEvent::PitchLockStep(delta)
    } else {
        match ts.param_page {
            ParamPage::Tone => InputEvent::AdjustPitch(delta),
            ParamPage::Filter => InputEvent::AdjustFilterCutoff(delta),
            ParamPage::Trim => InputEvent::AdjustTrimStart(delta),
        }
    }
}

/// The event that a turn of knob B by `delta` gives in state `ts`.
pub open spec fn knob_b_event(delta: u32, ts: TuiState) -> InputEvent {
    if ts.bpm_held {
        InputEvent::AdjustBpm(delta)
    } else if ts.held_step.is_some() && ts.write_mode && !ts.playing {
        InputEvent::LockStepGainAt { step: ts.held_step.unwrap(), delta }
    } else if ts.write_mode && ts.playing {
        InputEvent::GainLockStep(delta)
    } else {
        match ts.param_page {
            ParamPage::Tone => InputEvent::AdjustGain(delta),
            ParamPage::Filter => InputEvent::AdjustFilterResonance(delta),
            ParamPage::Trim => InputEvent::AdjustTrimLength(delta),
        }
    }
}

/// The event that a knob key gives, if `c` is one: `[` and `]` turn knob A
/// down and up, `-` and `=` knob B.
pub open spec fn knob_event(c: char, ts: TuiState) -> Option<InputEvent> {
    if c == '[' {
        Some(knob_a_event(KNOB_STEP_DOWN, ts))
    } else if c == ']' {
        Some(knob_a_event(KNOB_STEP_UP, ts))
    } else if c == '-' {
        Some(knob_b_event(KNOB_STEP_DOWN, ts))
    } else if c == '=' {
        Some(knob_b_event(KNOB_STEP_UP, ts))
    } else {
        None
    }
}

/// The event of a first press of `key` in state `ts`, if it gives one.
pub open spec fn press_event(key: Key, ts: TuiState) -> Option<InputEvent> {
    match key {
        Key::Esc => Some(InputEvent::Quit),
        Key::Other => None,
        Key::Char(c) => if c == ' ' {
            Some(InputEvent::PlayPress)
        } else if pad_of(c).is_some() {
            Some(grid_event(pad_of(c).unwrap(), ts))
        } else if c == 'g' {
            Some(
                if ts.sound_held {
                    InputEvent::SoundUp
                } else {
                    InputEvent::SoundDown
                },
            )
        } else if c == 'h' {
            Some(
                if ts.pattern_held {
                    InputEvent::PatternUp
                } else {
                    InputEvent::PatternDown
                },
            )
        } else if c == 't' {
            Some(InputEvent::WriteDown)
        } else if c == 'b' {
            Some(
                if ts.record_held {
                    InputEvent::RecordUp
                } else {
                    InputEvent::RecordDown
                },
            )
        } else if c == 'y' {
            Some(
                if ts.fx_held {
                    InputEvent::FxUp
                } else {
                    InputEvent::FxDown
                },
            )
        } else if c == 'n' {
            Some(
                if ts.bpm_held {
                    InputEvent::BpmUp
                } else {
                    InputEvent::BpmDown
                },
            )
        } else if c == '0' {
            Some(InputEvent::ClearTrack)
        } else {
            knob_event(c, ts)
        },
    }
}

/// The state after a first press of `key` in state `ts`: a modifier key
/// flips its toggle, and a pad that toggles a step becomes the held step.
pub open spec fn press_state(key: Key, ts: TuiState) -> TuiState {
    match key {
        Key::Char(c) => if pad_of(c).is_some() {
            if holds_step(ts) {
                TuiState { held_step: pad_of(c), ..ts }
            } else {
                ts
            }
        } else if c == 'g' {
            TuiState { sound_held: !ts.sound_held, ..ts }
        } else if c == 'h' {
            TuiState { pattern_held: !ts.pattern_held, ..ts }
        } else if c == 'b' {
            TuiState { record_held: !ts.record_held, ..ts }
        } else if c == 'y' {
            TuiState { fx_held: !ts.fx_held, ..ts }
        } else if c == 'n' {
            TuiState { bpm_held: !ts.bpm_held, ..ts }
        } else {
            ts
        },
        _ => ts,
    }
}

/// The event of an auto-repeat of `key`: only the knobs repeat.
pub open spec fn repeat_event(key: Key, ts: TuiState) -> Option<InputEvent> {
    match key {
        Key::Char(c) => knob_event(c, ts),
        _ => None,
    }
}

/// The state after `key` is released: letting go of a pad lets go of the
/// held step.
pub open spec fn release_state(key: Key, ts: TuiState) -> TuiState {
    match key {
        Key::Char(c) => if pad_of(c).is_some() {
            TuiState { held_step: None, ..ts }
        } else {
            ts
        },
        _ => ts,
    }
}

/// The events that an optional event stands for: itself, or none.
pub open spec fn events_of(event: Option<InputEvent>) -> Seq<InputEvent> {
    match event {
        Some(e) => seq![e],
        None => Seq::empty(),
    }
}

fn one(event: InputEvent) -> (events: Vec<InputEvent>)
    ensures
        events@ == seq![event],
{
    let mut events: Vec<InputEvent> = Vec::new();
    events.push(event);
    assert(events@ =~= seq![event]);
    events
}

/// Resolves a press of pad `n`.
pub fn resolve_grid(n: u8, ts: &mut TuiState) -> (events: Vec<InputEvent>)
    requires
        n < 16,
    ensures
        events@ == seq![grid_event(n, *old(ts))],
        *final(ts) == if holds_step(*old(ts)) {
            TuiState { held_step: Some(n), ..*old(ts) }
        } else {
            *old(ts)
        },
{
    if ts.sound_held {
        return one(InputEvent::SelectSound(n));
    }
    if ts.pattern_held {
        if ts.playing {
            return one(InputEvent::ChainPattern(n));
        } else {
            return one(InputEvent::SelectPattern(n));
        }
    }
    if ts.bpm_held {
        return one(InputEvent::SetVolume(n + 1));
    }
    if ts.fx_held && ts.playing {
        if n == 15 {
            return one(InputEvent::ClearRealtimeEffect);
        } else {
            return one(InputEvent::SetRealtimeEffect(n + 1));
        }
    }
    if ts.write_mode && !ts.playing {
        ts.held_step = Some(n);
        return one(InputEvent::ToggleStep(n));
    }
    if ts.write_mode && ts.playing {
        return one(InputEvent::LiveRecordStep(n));
    }
    one(InputEvent::TriggerPad(n))
}

/// Resolves a turn of knob A by `delta`.
pub fn resolve_knob_a(delta: u32, ts: &TuiState) -> (events: Vec<InputEvent>)
    ensures
        events@ == seq![knob_a_event(delta, *ts)],
{
    if ts.bpm_held {
        return one(InputEvent::AdjustSwing(delta));
    }
    match ts.held_step {
        Some(step) => {
            if ts.write_mode && !ts.playing {
                return one(InputEvent::LockStepPitchAt { step, delta });
            }
        },
        None => {},
    }
    if ts.write_mode && ts.playing {
        return one(InputEvent::PitchLockStep(delta));
    }
    match ts.param_page {
        ParamPage::Tone => one(InputEvent::AdjustPitch(delta)),
        ParamPage::Filter => one(InputEvent::AdjustFilterCutoff(delta)),
        ParamPage::Trim => one(InputEvent::AdjustTrimStart(delta)),
    }
}

/// Resolves a turn of knob B by `delta`.
pub fn resolve_knob_b(delta: u32, ts: &TuiState) -> (events: Vec<InputEvent>)
    ensures
        events@ == seq![knob_b_event(delta, *ts)],
{
    if ts.bpm_held {
        return one(InputEvent::AdjustBpm(delta));
    }
    match ts.held_step {
        Some(step) => {
            if ts.write_mode && !ts.playing {
                return one(InputEvent::LockStepGainAt { step, delta });
            }
        },
        None => {},
    }
    if ts.write_mode && ts.playing {
        return one(InputEvent::GainLockStep(delta));
    }
    match ts.param_page {
        ParamPage::Tone => one(InputEvent::AdjustGain(delta)),
        ParamPage::Filter => one(InputEvent::AdjustFilterResonance(delta)),
        ParamPage::Trim => one(InputEvent::AdjustTrimLength(delta)),
    }
}

fn resolve_knob(c: char, ts: &TuiState) -> (events: Vec<InputEvent>)
    ensures
        events@ == events_of(knob_event(c, *ts)),
{
    if c == '[' {
        resolve_knob_a(KNOB_STEP_DOWN, ts)
    } else if c == ']' {
        resolve_knob_a(KNOB_STEP_UP, ts)
    } else if c == '-' {
        resolve_knob_b(KNOB_STEP_DOWN, ts)
    } else if c == '=' {
        resolve_knob_b(KNOB_STEP_UP, ts)
    } else {
        Vec::new()
    }
}

/// Resolves a first press of `key`.
pub fn handle_press(key: Key, ts: &mut TuiState) -> (events: Vec<InputEvent>)
    ensures
        events@ == events_of(press_event(key, *old(ts))),
        *final(ts) == press_state(key, *old(ts)),
{
    match key {
        Key::Esc => one(InputEvent::Quit),
        Key::Other => Vec::new(),
        Key::Char(c) => {
            if c == ' ' {
                return one(InputEvent::PlayPress);
            }
            match char_to_pad(c) {
                Some(n) => {
                    return resolve_grid(n, ts);
                },
                None => {},
            }
            if c == 'g' {
                ts.sound_held = !ts.sound_held;
                if ts.sound_held {
                    one(InputEvent::SoundDown)
                } else {
                    one(InputEvent::SoundUp)
                }
            } else if c == 'h' {
                ts.pattern_held = !ts.pattern_held;
                if ts.pattern_held {
                    one(InputEvent::PatternDown)
                } else {
                    one(InputEvent::PatternUp)
                }
            } else if c == 't' {
                one(InputEvent::WriteDown)
            } else if c == 'b' {
                ts.record_held = !ts.record_held;
                if ts.record_held {
                    one(InputEvent::RecordDown)
                } else {
                    one(InputEvent::RecordUp)
                }
            } else if c == 'y' {
                ts.fx_held = !ts.fx_held;
                if ts.fx_held {
                    one(InputEvent::FxDown)
                } else {
                    one(InputEvent::FxUp)
                }
            } else if c == 'n' {
                ts.bpm_held = !ts.bpm_held;
                if ts.bpm_held {
                    one(InputEvent::BpmDown)
                } else {
                    one(InputEvent::BpmUp)
                }
            } else if c == '0' {
                one(InputEvent::ClearTrack)
            } else {
                resolve_knob(c, ts)
            }
        },
    }
}

/// Resolves an auto-repeat of `key`.
pub fn handle_repeat(key: Key, ts: &TuiState) -> (events: Vec<InputEvent>)
    ensures
        events@ == events_of(repeat_event(key, *ts)),
{
    match key {
        Key::Char(c) => resolve_knob(c, ts),
        _ => Vec::new(),
    }
}

/// Resolves a release of `key`, which gives no event.
pub fn handle_release(key: Key, ts: &mut TuiState) -> (events: Vec<InputEvent>)
    ensures
        events@ == Seq::<InputEvent>::empty(),
        *final(ts) == release_state(key, *old(ts)),
{
    match key {
        Key::Char(c) => {
            if is_pad_char(c) {
                ts.held_step = None;
            }
        },
        _ => {},
    }
    Vec::new()
}

/// Resolves what happened to a key.
pub fn resolve_key(kind: KeyKind, key: Key, ts: &mut TuiState) -> (events: Vec<InputEvent>)
    ensures
        events@ == match kind {
            KeyKind::Press => events_of(press_event(key, *old(ts))),
            KeyKind::Repeat => events_of(repeat_event(key, *old(ts))),
            KeyKind::Release => Seq::empty(),
        },
        *final(ts) == match kind {
            KeyKind::Press => press_state(key, *old(ts)),
            KeyKind::Repeat => *old(ts),
            KeyKind::Release => release_state(key, *old(ts)),
        },
{
    match kind {
        KeyKind::Press => handle_press(key, ts),
        KeyKind::Repeat => handle_repeat(key, ts),
        KeyKind::Release => handle_release(key, ts),
    }
}

/// Bit pattern of 8, the number of positions a knob is drawn in.
pub const KNOB_POSITIONS: u32 = 0x4100_0000;

/// Whether `position` is a position that `math` gives for a knob at
/// `value`: the whole part of `value`, held within [0, 1], times eight, with
/// a full turn back at the first of the eight positions.
pub open spec fn knob_at<M: SampleMath>(math: &M, value: u32, position: usize) -> bool {
    exists|turned: u32, whole: usize|
        {
            &&& #[trigger] is_product(
                math,
                binary32::clamped(value, binary32::ZERO, binary32::ONE),
                KNOB_POSITIONS,
                turned,
            )
            &&& #[trigger] is_index(math, turned, whole)
            &&& position == whole % 8
        }
}

/// The position, of eight, that a knob at `value` is drawn in: `value`,
/// held within [0, 1], times eight, with a full turn back at the first.
pub fn knob_position<M: SampleMath>(value: u32, math: &M) -> (position: usize)
    ensures
        knob_at(math, value, position),
        position < 8,
{
    let held = binary32::clamp(value, binary32::ZERO, binary32::ONE);
    let turned = math.product(held, KNOB_POSITIONS);
    let whole = math.to_index(turned);
    assert(is_product(math, held, KNOB_POSITIONS, turned) && is_index(math, turned, whole));
    whole % 8
}

/// How an LED is lit at this moment: a blinking LED is lit like `lit` while
/// the blink is on and off while it is not; any other is as it says.
pub open spec fn led_now(led: LedState, blink_on: bool, lit: LedState) -> LedState {
    if led is Blink {
        if blink_on {
            lit
        } else {
            LedState::Off
        }
    } else {
        led
    }
}

/// The LED whose symbol is drawn for `led`: a blinking LED shows the symbol
/// of a medium one while the blink is on.
pub fn led_symbol(led: LedState, blink_on: bool) -> (shown: LedState)
    ensures
        shown == led_now(led, blink_on, LedState::OnMedium),
        !(shown is Blink),
{
    match led {
        LedState::Blink => if blink_on {
            LedState::OnMedium
        } else {
            LedState::Off
        },
        other => other,
    }
}

/// The LED whose colour a pad is drawn in for `led`: a blinking LED shows
/// the colour of a bright one while the blink is on.
pub fn pad_color(led: LedState, blink_on: bool) -> (shown: LedState)
    ensures
        shown == led_now(led, blink_on, LedState::OnHigh),
        !(shown is Blink),
{
    match led {
        LedState::Blink => if blink_on {
            LedState::OnHigh
        } else {
            LedState::Off
        },
        other => other,
    }
}

} // verus!
