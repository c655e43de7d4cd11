use pocketty::effect::{
    build_chain, process_chain, Bitcrusher, Distortion, Effect, EffectSpec, MAX_LEVELS, MIN_LEVELS,
};
use pocketty::frame::StereoFrame;
use pocketty::math::SampleMath;

struct Fpu;

impl SampleMath for Fpu {
    fn sum(&self, a: u32, b: u32) -> u32 {
        (f32::from_bits(a) + f32::from_bits(b)).to_bits()
    }
    fn difference(&self, a: u32, b: u32) -> u32 {
        (f32::from_bits(a) - f32::from_bits(b)).to_bits()
    }
    fn product(&self, a: u32, b: u32) -> u32 {
        (f32::from_bits(a) * f32::from_bits(b)).to_bits()
    }
    fn quotient(&self, a: u32, b: u32) -> u32 {
        (f32::from_bits(a) / f32::from_bits(b)).to_bits()
    }
    fn remainder(&self, a: u32, b: u32) -> u32 {
        (f32::from_bits(a) % f32::from_bits(b)).to_bits()
    }
    fn round(&self, x: u32) -> u32 {
        f32::from_bits(x).round().to_bits()
    }
    fn tanh(&self, x: u32) -> u32 {
        f32::from_bits(x).tanh().to_bits()
    }
    fn ln(&self, x: u32) -> u32 {
        f32::from_bits(x).ln().to_bits()
    }
    fn powf(&self, base: u32, exponent: u32) -> u32 {
        f32::from_bits(base).powf(f32::from_bits(exponent)).to_bits()
    }
    fn from_count(&self, n: usize) -> u32 {
        (n as f32).to_bits()
    }
    fn to_index(&self, x: u32) -> usize {
        f32::from_bits(x) as usize
    }
}

fn frame(left: f32, right: f32) -> StereoFrame {
    StereoFrame { left: left.to_bits(), right: right.to_bits() }
}

fn crush(levels: u32, x: f32) -> f32 {
    let mut buf = vec![frame(x, -x)];
    Bitcrusher::new(levels).process(&mut buf, &Fpu);
    assert_eq!(f32::from_bits(buf[0].right), -f32::from_bits(buf[0].left));
    f32::from_bits(buf[0].left)
}

fn distort(drive: f32, x: f32) -> f32 {
    let mut buf = vec![frame(x, x)];
    Distortion::new(drive.to_bits()).process(&mut buf, &Fpu);
    assert_eq!(buf[0].left, buf[0].right);
    f32::from_bits(buf[0].left)
}

#[test]
fn level_bounds() {
    assert_eq!(MIN_LEVELS, 2);
    assert_eq!(MAX_LEVELS, 65536);
}

#[test]
fn bitcrusher_follows_its_formula() {
    // scale = (levels - 1) / 2; out = round(clamp(x) * scale) / scale
    assert_eq!(crush(5, 0.3), 0.5);
    assert_eq!(crush(5, 0.2), 0.0);
    assert_eq!(crush(5, -0.8), -1.0);
    assert_eq!(crush(3, 0.4), 0.0);
    assert_eq!(crush(3, 0.6), 1.0);
    assert_eq!(crush(9, 0.3), 0.25);
}

#[test]
fn bitcrusher_of_two_levels() {
    // scale is one half, so 0.9 is scaled to 0.45 and rounds to zero.
    assert_eq!(crush(2, 0.9), 0.0);
    assert_eq!(crush(2, -0.9), 0.0);
    assert_eq!(crush(2, 0.2), 0.0);
    assert_eq!(crush(2, 1.0), 2.0);
    assert_eq!(crush(2, -1.0), -2.0);
}

#[test]
fn bitcrusher_clamps_its_input() {
    assert_eq!(crush(5, 7.0), 1.0);
    assert_eq!(crush(5, -7.0), -1.0);
}

#[test]
fn bitcrusher_holds_levels_within_range() {
    for x in [0.9f32, 0.3, -0.45, 1.0] {
        assert_eq!(crush(0, x), crush(2, x));
        assert_eq!(crush(1, x), crush(2, x));
        assert_eq!(crush(u32::MAX, x), crush(65536, x));
        assert_eq!(crush(70000, x), crush(65536, x));
    }
}

#[test]
fn bitcrusher_of_most_levels_is_nearly_the_identity() {
    let mut x = -1.0f32;
    while x <= 1.0 {
        let y = crush(65536, x);
        assert!((y - x).abs() <= 1.0 / 32768.0, "{x} -> {y}");
        x += 0.001;
    }
}

#[test]
fn distortion_without_drive_is_tanh() {
    let mut x = -1.0f32;
    while x <= 1.0 {
        assert_eq!(distort(0.0, x).to_bits(), x.tanh().to_bits(), "{x}");
        x += 0.01;
    }
}

#[test]
fn distortion_follows_its_formula() {
    assert_eq!(distort(0.5, 0.25), (6.0f32 * 0.25).tanh());
    assert_eq!(distort(1.0, -0.5), (11.0f32 * -0.5).tanh());
    assert_eq!(distort(0.3, 0.1), ((1.0f32 + 0.3 * 10.0) * 0.1).tanh());
}

#[test]
fn distortion_clamps_input_and_drive() {
    assert_eq!(distort(0.0, 5.0), 1.0f32.tanh());
    assert_eq!(distort(0.0, -5.0), (-1.0f32).tanh());
    assert_eq!(distort(9.0, 0.25), distort(1.0, 0.25));
    assert_eq!(distort(-4.0, 0.25), distort(0.0, 0.25));
}

#[test]
fn effects_keep_the_block_length() {
    let mut buf = vec![frame(0.1, 0.2); 37];
    Effect::Bitcrusher(Bitcrusher::new(8)).process(&mut buf, &Fpu);
    assert_eq!(buf.len(), 37);
    Effect::Distortion(Distortion::new(0.5f32.to_bits())).process(&mut buf, &Fpu);
    assert_eq!(buf.len(), 37);
    let mut empty: Vec<StereoFrame> = vec![];
    Effect::Bitcrusher(Bitcrusher::new(8)).process(&mut empty, &Fpu);
    assert!(empty.is_empty());
}

#[test]
fn to_effect_matches_the_descriptor() {
    let mut a = vec![frame(0.3, -0.7)];
    let mut b = a.clone();
    EffectSpec::Bitcrusher { levels: 5 }.to_effect().process(&mut a, &Fpu);
    Bitcrusher::new(5).process(&mut b, &Fpu);
    assert_eq!(a, b);
    let mut c = vec![frame(0.3, -0.7)];
    let mut d = c.clone();
    EffectSpec::Distortion { drive: 0.6f32.to_bits() }.to_effect().process(&mut c, &Fpu);
    Distortion::new(0.6f32.to_bits()).process(&mut d, &Fpu);
    assert_eq!(c, d);
}

#[test]
fn chain_runs_in_declared_order() {
    let specs = vec![
        EffectSpec::Distortion { drive: 1.0f32.to_bits() },
        EffectSpec::Bitcrusher { levels: 5 },
    ];
    let chain = build_chain(&specs);
    assert_eq!(chain.len(), 2);
    let mut buf = vec![frame(0.05, 0.05)];
    process_chain(&chain, &mut buf, &Fpu);
    // tanh(11 * 0.05) = 0.5005..., which five levels put at 0.5
    assert_eq!(f32::from_bits(buf[0].left), 0.5);

    let reversed = vec![specs[1], specs[0]];
    let mut other = vec![frame(0.05, 0.05)];
    process_chain(&build_chain(&reversed), &mut other, &Fpu);
    // five levels put 0.05 at 0, and tanh(0) is 0
    assert_eq!(f32::from_bits(other[0].left), 0.0);
}

#[test]
fn empty_chain_leaves_the_block_alone() {
    let mut buf = vec![frame(0.3, 7.0), frame(f32::NAN, -0.0)];
    let before = buf.clone();
    process_chain(&build_chain(&vec![]), &mut buf, &Fpu);
    assert_eq!(buf, before);
}
