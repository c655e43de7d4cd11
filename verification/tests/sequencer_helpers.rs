use pocketty::effect::EffectSpec;
use pocketty::math::SampleMath;
use pocketty::middle::{
    build_effect_chain, derive_trigger_mods_from_fx, pad_semitones, shuffle, Middle,
};
use pocketty::command::AudioCommand;
use pocketty::sample_buffer::{WavData, WavSamples};
use pocketty::shared::InputEvent;
use pocketty::shared::LedState;
use pocketty::tui::{knob_position, led_symbol, pad_color};

struct Fpu;

impl SampleMath for Fpu {
    fn sum(&self, a: u32, b: u32) -> u32 {
        (f32::from_bits(a) + f32::from_bits(b)).to_bits()
    }
    fn difference(&self, a: u32, b: u32) -> u32 {
        (f32::from_bits(a) - f32::from_bits(b)).to_bits()
    }
    fn product(&self, a: u32, b: u32) -> u32 {
        (f32::from_bits(a) * f32::from_bits(b)).to_bits()
    }
    fn quotient(&self, a: u32, b: u32) -> u32 {
        (f32::from_bits(a) / f32::from_bits(b)).to_bits()
    }
    fn remainder(&self, a: u32, b: u32) -> u32 {
        (f32::from_bits(a) % f32::from_bits(b)).to_bits()
    }
    fn round(&self, x: u32) -> u32 {
        f32::from_bits(x).round().to_bits()
    }
    fn tanh(&self, x: u32) -> u32 {
        f32::from_bits(x).tanh().to_bits()
    }
    fn ln(&self, x: u32) -> u32 {
        f32::from_bits(x).ln().to_bits()
    }
    fn powf(&self, base: u32, exponent: u32) -> u32 {
        f32::from_bits(base).powf(f32::from_bits(exponent)).to_bits()
    }
    fn from_count(&self, n: usize) -> u32 {
        (n as f32).to_bits()
    }
    fn to_index(&self, x: u32) -> usize {
        f32::from_bits(x) as usize
    }
}

fn b(x: f32) -> u32 {
    x.to_bits()
}

fn f(x: u32) -> f32 {
    f32::from_bits(x)
}

#[test]
fn effect_chains_by_number() {
    assert_eq!(build_effect_chain(None), vec![]);
    assert_eq!(build_effect_chain(Some(0)), vec![]);
    assert_eq!(build_effect_chain(Some(1)), vec![EffectSpec::Distortion { drive: b(0.3) }]);
    assert_eq!(build_effect_chain(Some(2)), vec![EffectSpec::Distortion { drive: b(0.6) }]);
    assert_eq!(build_effect_chain(Some(3)), vec![EffectSpec::Distortion { drive: b(1.0) }]);
    assert_eq!(build_effect_chain(Some(4)), vec![EffectSpec::Bitcrusher { levels: 256 }]);
    assert_eq!(build_effect_chain(Some(5)), vec![EffectSpec::Bitcrusher { levels: 32 }]);
    assert_eq!(build_effect_chain(Some(6)), vec![EffectSpec::Bitcrusher { levels: 8 }]);
    for fx in 7..=16 {
        assert_eq!(build_effect_chain(Some(fx)), vec![]);
    }
}

#[test]
fn trigger_mods_by_number() {
    let bpm = b(120.0);
    assert_eq!(derive_trigger_mods_from_fx(None, bpm, &Fpu), (false, None, b(1.0)));
    assert_eq!(derive_trigger_mods_from_fx(Some(7), bpm, &Fpu), (false, None, b(2.0)));
    assert_eq!(derive_trigger_mods_from_fx(Some(8), bpm, &Fpu), (false, None, b(0.5)));
    assert_eq!(derive_trigger_mods_from_fx(Some(15), bpm, &Fpu), (true, None, b(1.0)));
    // a sixteenth at 120 BPM is an eighth of a second: 5512.5 frames
    assert_eq!(derive_trigger_mods_from_fx(Some(9), bpm, &Fpu), (false, Some(5512), b(1.0)));
    assert_eq!(derive_trigger_mods_from_fx(Some(10), bpm, &Fpu), (false, Some(2756), b(1.0)));
    assert_eq!(
        derive_trigger_mods_from_fx(Some(9), b(0.0), &Fpu),
        (false, Some(u32::MAX), b(1.0))
    );
}

fn pad_pitch(pad: u8) -> f32 {
    let mut m = Middle::new();
    let wav = WavData {
        channels: 1,
        sample_rate: 44100,
        samples: WavSamples::Float(vec![b(0.5); 10]),
    };
    m.load_sample_into_slot(0, "a.wav".to_string(), &wav, 44100, &Fpu).unwrap();
    match &m.handle_input(InputEvent::TriggerPad(pad), 0, &Fpu)[..] {
        [AudioCommand::Trigger(params)] => f(params.pitch),
        _ => panic!("not a trigger"),
    }
}

#[test]
fn pads_play_the_major_scale_from_the_bottom_row() {
    let order = [12u8, 13, 14, 15, 8, 9, 10, 11, 4, 5, 6, 7, 0, 1, 2, 3];
    let semitones = [0u8, 2, 4, 5, 7, 9, 11, 12, 14, 16, 17, 19, 21, 23, 24, 26];
    for (pad, want) in order.iter().zip(semitones) {
        assert_eq!(pad_semitones(*pad), want, "pad {pad}");
        assert_eq!(pad_pitch(*pad), 2.0f32.powf(want as f32 / 12.0));
    }
    assert_eq!(pad_semitones(16), 0);
    assert_eq!(pad_semitones(255), 0);
    assert_eq!(pad_pitch(12), 1.0);
    assert_eq!(pad_pitch(15), 2.0f32.powf(5.0 / 12.0));
    assert_eq!(pad_pitch(11), 2.0);
    assert_eq!(pad_pitch(200), 1.0);
}

#[test]
fn six_eight_step_durations() {
    assert_eq!(shuffle(125_000, true), 166_666);
    assert_eq!(shuffle(125_000, false), 83_333);
    assert_eq!(shuffle(u64::MAX, true), u64::MAX);
    assert_eq!(shuffle(3, false), 2);
}

#[test]
fn knob_art_positions() {
    assert_eq!(knob_position(b(0.0), &Fpu), 0);
    assert_eq!(knob_position(b(0.124), &Fpu), 0);
    assert_eq!(knob_position(b(0.125), &Fpu), 1);
    assert_eq!(knob_position(b(0.5), &Fpu), 4);
    assert_eq!(knob_position(b(0.99), &Fpu), 7);
    assert_eq!(knob_position(b(1.0), &Fpu), 0);
    assert_eq!(knob_position(b(7.0), &Fpu), 0);
    assert_eq!(knob_position(b(-3.0), &Fpu), 0);
    assert_eq!(knob_position(b(f32::NAN), &Fpu), 0);
}

#[test]
fn blinking_leds_follow_the_blink() {
    assert_eq!(led_symbol(LedState::Blink, true), LedState::OnMedium);
    assert_eq!(led_symbol(LedState::Blink, false), LedState::Off);
    assert_eq!(pad_color(LedState::Blink, true), LedState::OnHigh);
    assert_eq!(pad_color(LedState::Blink, false), LedState::Off);
    for led in [LedState::Off, LedState::OnMedium, LedState::OnHigh] {
        for blink in [false, true] {
            assert_eq!(led_symbol(led, blink), led);
            assert_eq!(pad_color(led, blink), led);
        }
    }
}
