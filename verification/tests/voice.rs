use pocketty::frame::StereoFrame;
use pocketty::math::SampleMath;
use pocketty::sample_buffer::SampleBuffer;
use pocketty::voice::{Voice, FADE_FRAMES};

struct Fpu;

impl SampleMath for Fpu {
    fn sum(&self, a: u32, b: u32) -> u32 {
        (f32::from_bits(a) + f32::from_bits(b)).to_bits()
    }
    fn difference(&self, a: u32, b: u32) -> u32 {
        (f32::from_bits(a) - f32::from_bits(b)).to_bits()
    }
    fn product(&self, a: u32, b: u32) -> u32 {
        (f32::from_bits(a) * f32::from_bits(b)).to_bits()
    }
    fn quotient(&self, a: u32, b: u32) -> u32 {
        (f32::from_bits(a) / f32::from_bits(b)).to_bits()
    }
    fn remainder(&self, a: u32, b: u32) -> u32 {
        (f32::from_bits(a) % f32::from_bits(b)).to_bits()
    }
    fn round(&self, x: u32) -> u32 {
        f32::from_bits(x).round().to_bits()
    }
    fn tanh(&self, x: u32) -> u32 {
        f32::from_bits(x).tanh().to_bits()
    }
    fn ln(&self, x: u32) -> u32 {
        f32::from_bits(x).ln().to_bits()
    }
    fn powf(&self, base: u32, exponent: u32) -> u32 {
        f32::from_bits(base).powf(f32::from_bits(exponent)).to_bits()
    }
    fn from_count(&self, n: usize) -> u32 {
        (n as f32).to_bits()
    }
    fn to_index(&self, x: u32) -> usize {
        f32::from_bits(x) as usize
    }
}

fn b(x: f32) -> u32 {
    x.to_bits()
}

fn f(x: u32) -> f32 {
    f32::from_bits(x)
}

fn constant(n: usize, value: f32) -> SampleBuffer {
    SampleBuffer::from_frames(vec![StereoFrame { left: b(value), right: b(-value) }; n])
}

fn ramp(n: usize) -> SampleBuffer {
    SampleBuffer::from_frames(
        (0..n).map(|i| StereoFrame { left: b(i as f32), right: b(-(i as f32)) }).collect(),
    )
}

fn block(n: usize) -> Vec<StereoFrame> {
    vec![StereoFrame::zero(); n]
}

#[test]
fn fade_window_is_256_frames() {
    assert_eq!(FADE_FRAMES, b(256.0));
}

#[test]
fn new_forward_voice_starts_at_zero() {
    let v = Voice::new(3, 100, b(1.5), b(0.8), false, Some(7), &Fpu);
    assert!(v.active);
    assert_eq!(v.pos, 0);
    assert_eq!(v.pitch, b(1.5));
    assert_eq!(v.gain, b(0.8));
    assert!(!v.reverse);
    assert_eq!(v.trim_start, 3);
    assert_eq!(v.length, 100);
    assert_eq!(v.stutter_period, Some(7));
    assert_eq!(v.frames_rendered, 0);
}

#[test]
fn new_reverse_voice_starts_at_last_frame() {
    let v = Voice::new(0, 100, b(1.0), b(1.0), true, None, &Fpu);
    assert_eq!(f(v.pos), 99.0);
    let empty = Voice::new(0, 0, b(1.0), b(1.0), true, None, &Fpu);
    assert_eq!(empty.pos, 0);
}

#[test]
fn set_pos_clamps_to_window() {
    let mut v = Voice::new(0, 10, b(1.0), b(1.0), false, None, &Fpu);
    v.set_pos(b(4.5), &Fpu);
    assert_eq!(f(v.pos), 4.5);
    v.set_pos(b(100.0), &Fpu);
    assert_eq!(f(v.pos), 9.0);
    v.set_pos(b(-3.0), &Fpu);
    assert_eq!(f(v.pos), 0.0);
}

#[test]
fn set_pos_on_empty_window_does_nothing() {
    let mut v = Voice::new(0, 0, b(1.0), b(1.0), false, None, &Fpu);
    v.set_pos(b(4.0), &Fpu);
    assert_eq!(v.pos, 0);
}

#[test]
fn kill_stops_without_touching_the_rest() {
    let mut v = Voice::new(2, 10, b(1.0), b(0.5), false, None, &Fpu);
    v.kill();
    assert!(!v.is_active());
    assert_eq!(v.length, 10);
    assert_eq!(v.trim_start, 2);
}

#[test]
fn trim_start_at_or_past_end_deactivates_on_first_render() {
    for trim_start in [8usize, 9, 1000, usize::MAX] {
        let buffer = constant(8, 0.5);
        let mut v = Voice::new(trim_start, 4, b(1.0), b(1.0), false, None, &Fpu);
        let mut out = block(16);
        v.render_into(&buffer, &mut out, &Fpu);
        assert!(!v.active, "trim_start {trim_start}");
        assert_eq!(v.frames_rendered, 0);
        assert!(out.iter().all(|fr| *fr == StereoFrame::zero()));
    }
}

#[test]
fn empty_buffer_deactivates() {
    let buffer = SampleBuffer::from_frames(vec![]);
    let mut v = Voice::new(0, 4, b(1.0), b(1.0), false, None, &Fpu);
    let mut out = block(4);
    v.render_into(&buffer, &mut out, &Fpu);
    assert!(!v.active);
    assert!(out.iter().all(|fr| *fr == StereoFrame::zero()));
}

#[test]
fn zero_length_deactivates() {
    let buffer = constant(8, 0.5);
    let mut v = Voice::new(0, 0, b(1.0), b(1.0), false, None, &Fpu);
    let mut out = block(4);
    v.render_into(&buffer, &mut out, &Fpu);
    assert!(!v.active);
    assert!(out.iter().all(|fr| *fr == StereoFrame::zero()));
}

#[test]
fn inactive_voice_writes_nothing() {
    let buffer = constant(8, 0.5);
    let mut v = Voice::new(0, 8, b(1.0), b(1.0), false, None, &Fpu);
    v.kill();
    let mut out = block(4);
    v.render_into(&buffer, &mut out, &Fpu);
    assert_eq!(v.frames_rendered, 0);
    assert!(out.iter().all(|fr| *fr == StereoFrame::zero()));
}

#[test]
fn length_is_clamped_to_what_the_buffer_holds() {
    let buffer = constant(10, 0.5);
    let mut v = Voice::new(6, 100, b(1.0), b(1.0), false, None, &Fpu);
    let mut out = block(2);
    v.render_into(&buffer, &mut out, &Fpu);
    assert_eq!(v.length, 4);
    assert!(v.active);
}

#[test]
fn silent_buffer_renders_exact_zeros() {
    let n = 1000;
    let buffer = constant(n, 0.0);
    let mut v = Voice::new(0, n, b(1.0), b(1.0), false, None, &Fpu);
    let mut out = block(n);
    v.render_into(&buffer, &mut out, &Fpu);
    assert_eq!(v.frames_rendered, n);
    for fr in &out {
        assert_eq!(fr.left, 0);
        assert_eq!(f(fr.right), 0.0);
    }
    let mut more = block(4);
    v.render_into(&buffer, &mut more, &Fpu);
    assert!(!v.active);
    assert_eq!(v.frames_rendered, n);
}

#[test]
fn full_gain_far_from_the_end_passes_the_sample() {
    let buffer = constant(2000, 0.5);
    let mut v = Voice::new(0, 2000, b(1.0), b(1.0), false, None, &Fpu);
    let mut out = block(100);
    v.render_into(&buffer, &mut out, &Fpu);
    for fr in &out {
        assert_eq!(f(fr.left), 0.5);
        assert_eq!(f(fr.right), -0.5);
    }
    assert_eq!(f(v.pos), 100.0);
    assert_eq!(v.frames_rendered, 100);
}

#[test]
fn gain_scales_the_sample() {
    let buffer = constant(2000, 0.5);
    let mut v = Voice::new(0, 2000, b(1.0), b(0.25), false, None, &Fpu);
    let mut out = block(4);
    v.render_into(&buffer, &mut out, &Fpu);
    assert_eq!(f(out[0].left), 0.125);
}

#[test]
fn render_adds_to_what_is_there() {
    let buffer = constant(2000, 0.5);
    let mut v = Voice::new(0, 2000, b(1.0), b(1.0), false, None, &Fpu);
    let mut out = vec![StereoFrame { left: b(0.25), right: b(0.25) }; 4];
    v.render_into(&buffer, &mut out, &Fpu);
    assert_eq!(f(out[0].left), 0.75);
    assert_eq!(f(out[0].right), -0.25);
}

#[test]
fn last_frames_fade_out() {
    let n = 512;
    let buffer = constant(n, 1.0);
    let mut v = Voice::new(0, n, b(1.0), b(1.0), false, None, &Fpu);
    let mut out = block(n);
    v.render_into(&buffer, &mut out, &Fpu);
    assert_eq!(f(out[0].left), 1.0);
    assert_eq!(f(out[255].left), 1.0);
    assert_eq!(f(out[256].left), 1.0);
    assert_eq!(f(out[257].left), 255.0 / 256.0);
    assert_eq!(f(out[n - 1].left), 1.0 / 256.0);
}

#[test]
fn pitch_decides_how_long_a_voice_sounds() {
    let length = 1000usize;
    for (pitch, expected) in [(1.0f32, 1000usize), (2.0, 500), (0.5, 1000)] {
        let buffer = constant(length, 0.5);
        let mut v = Voice::new(0, length, b(pitch), b(1.0), false, None, &Fpu);
        let mut out = block(4 * length);
        v.render_into(&buffer, &mut out, &Fpu);
        assert!(!v.active);
        let written = v.frames_rendered;
        assert!(
            written + 1 >= expected && written <= expected + 1,
            "pitch {pitch}: {written} frames"
        );
        assert!(out[written..].iter().all(|fr| *fr == StereoFrame::zero()));
    }
}

#[test]
fn half_pitch_interpolates_between_frames() {
    let buffer = ramp(2000);
    let mut v = Voice::new(0, 2000, b(0.5), b(1.0), false, None, &Fpu);
    let mut out = block(4);
    v.render_into(&buffer, &mut out, &Fpu);
    assert_eq!(f(out[0].left), 0.0);
    assert_eq!(f(out[1].left), 0.5);
    assert_eq!(f(out[2].left), 1.0);
    assert_eq!(f(out[3].left), 1.5);
}

#[test]
fn trim_start_offsets_the_read() {
    let buffer = ramp(2000);
    let mut v = Voice::new(100, 1000, b(1.0), b(1.0), false, None, &Fpu);
    let mut out = block(3);
    v.render_into(&buffer, &mut out, &Fpu);
    assert_eq!(f(out[0].left), 100.0);
    assert_eq!(f(out[1].left), 101.0);
    assert_eq!(f(out[2].left), 102.0);
}

#[test]
fn reverse_voice_reads_backwards_and_stops_at_the_start() {
    let n = 1000;
    let buffer = ramp(n);
    let mut v = Voice::new(0, n, b(1.0), b(1.0), true, None, &Fpu);
    let mut out = block(n + 10);
    v.render_into(&buffer, &mut out, &Fpu);
    assert_eq!(f(out[0].left), 999.0);
    assert_eq!(f(out[1].left), 998.0);
    assert!(!v.active);
    assert_eq!(v.frames_rendered, n);
    assert_eq!(f(out[n - 1].left), 0.0);
}

#[test]
fn stutter_loops_within_the_period_until_the_lifetime_ends() {
    let n = 2000;
    let buffer = ramp(n);
    let mut v = Voice::new(0, n, b(1.0), b(1.0), false, Some(4), &Fpu);
    let mut out = block(12);
    v.render_into(&buffer, &mut out, &Fpu);
    let heard: Vec<f32> = out.iter().map(|fr| f(fr.left)).collect();
    assert_eq!(heard, vec![0.0, 1.0, 2.0, 3.0, 0.0, 1.0, 2.0, 3.0, 0.0, 1.0, 2.0, 3.0]);
    let mut rest = block(3000);
    v.render_into(&buffer, &mut rest, &Fpu);
    assert!(!v.active);
    assert_eq!(v.frames_rendered, n);
}

#[test]
fn reverse_stutter_wraps_up_from_zero() {
    let n = 2000;
    let buffer = ramp(n);
    let mut v = Voice::new(0, n, b(1.0), b(1.0), true, Some(4), &Fpu);
    v.set_pos(b(2.0), &Fpu);
    let mut out = block(6);
    v.render_into(&buffer, &mut out, &Fpu);
    let positions: Vec<f32> = out.iter().map(|fr| f(fr.left)).collect();
    assert_eq!(positions[0], 2.0 * (2.0 / 256.0));
    assert_eq!(positions[1], 1.0 * (1.0 / 256.0));
    assert_eq!(positions[2], 0.0);
    assert_eq!(positions[3], 3.0 * (3.0 / 256.0));
    assert!(v.active);
}

#[test]
fn absurd_parameters_do_not_panic() {
    let buffer = ramp(64);
    let pitches = [f32::NAN, f32::INFINITY, -1.0, 0.0, 1.0e30, -1.0e30, 1.0e-30];
    let periods = [None, Some(0u32), Some(1), Some(u32::MAX)];
    for pitch in pitches {
        for period in periods {
            for reverse in [false, true] {
                for length in [0usize, 1, 64, usize::MAX] {
                    let mut v =
                        Voice::new(5, length, b(pitch), b(f32::NAN), reverse, period, &Fpu);
                    let mut out = block(200);
                    v.render_into(&buffer, &mut out, &Fpu);
                    v.render_into(&buffer, &mut out, &Fpu);
                    assert!(v.frames_rendered <= 59);
                    assert_eq!(out.len(), 200);
                }
            }
        }
    }
}
