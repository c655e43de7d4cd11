use pocketty::frame::StereoFrame;
use pocketty::math::SampleMath;
use pocketty::sample_buffer::SampleBuffer;
use pocketty::voice::Voice;

struct Fpu;

impl SampleMath for Fpu {
    fn sum(&self, a: u32, b: u32) -> u32 {
        (f32::from_bits(a) + f32::from_bits(b)).to_bits()
    }
    fn difference(&self, a: u32, b: u32) -> u32 {
        (f32::from_bits(a) - f32::from_bits(b)).to_bits()
    }
    fn product(&self, a: u32, b: u32) -> u32 {
        (f32::from_bits(a) * f32::from_bits(b)).to_bits()
    }
    fn quotient(&self, a: u32, b: u32) -> u32 {
        (f32::from_bits(a) / f32::from_bits(b)).to_bits()
    }
    fn remainder(&self, a: u32, b: u32) -> u32 {
        (f32::from_bits(a) % f32::from_bits(b)).to_bits()
    }
    fn round(&self, x: u32) -> u32 {
        f32::from_bits(x).round().to_bits()
    }
    fn tanh(&self, x: u32) -> u32 {
        f32::from_bits(x).tanh().to_bits()
    }
    fn ln(&self, x: u32) -> u32 {
        f32::from_bits(x).ln().to_bits()
    }
    fn powf(&self, base: u32, exponent: u32) -> u32 {
        f32::from_bits(base).powf(f32::from_bits(exponent)).to_bits()
    }
    fn from_count(&self, n: usize) -> u32 {
        (n as f32).to_bits()
    }
    fn to_index(&self, x: u32) -> usize {
        f32::from_bits(x) as usize
    }
}

/// A voice written out in plain binary32 arithmetic, to hold the library's
/// voice against.
struct PlainVoice {
    pos: f32,
    pitch: f32,
    gain: f32,
    active: bool,
    reverse: bool,
    trim_start: usize,
    length: usize,
    stutter: Option<u32>,
    frames_rendered: usize,
}

impl PlainVoice {
    fn new(
        trim_start: usize,
        length: usize,
        pitch: f32,
        gain: f32,
        reverse: bool,
        stutter: Option<u32>,
    ) -> Self {
        let pos = if reverse && length > 0 { (length - 1) as f32 } else { 0.0 };
        PlainVoice {
            pos,
            pitch,
            gain,
            active: true,
            reverse,
            trim_start,
            length,
            stutter,
            frames_rendered: 0,
        }
    }

    fn render_into(&mut self, data: &[(f32, f32)], out: &mut [(f32, f32)]) {
        if !self.active {
            return;
        }
        let available = data.len().saturating_sub(self.trim_start);
        if available == 0 {
            self.active = false;
            return;
        }
        self.length = self.length.min(available);
        if self.length == 0 {
            self.active = false;
            return;
        }
        for frame in out.iter_mut() {
            if self.frames_rendered >= self.length {
                self.active = false;
                break;
            }
            if self.stutter.is_none() {
                if self.reverse && self.pos < 0.0 {
                    self.active = false;
                    break;
                }
                if !self.reverse && self.pos >= self.length as f32 {
                    self.active = false;
                    break;
                }
            }
            let read_pos = self.pos.clamp(0.0, (self.length as f32) - 1.0);
            let i = read_pos as usize;
            if i >= self.length {
                self.active = false;
                break;
            }
            let frac = read_pos - i as f32;
            let idx = self.trim_start + i;
            let s0 = data[idx];
            let s1 = data.get(idx + 1).copied().unwrap_or(s0);
            let left = s0.0 * (1.0 - frac) + s1.0 * frac;
            let right = s0.1 * (1.0 - frac) + s1.1 * frac;
            let pos_dist =
                if self.reverse { self.pos } else { (self.length as f32 - self.pos).max(0.0) };
            let pos_fade = (pos_dist / 256.0).min(1.0);
            let life_dist = self.length.saturating_sub(self.frames_rendered) as f32;
            let life_fade = (life_dist / 256.0).min(1.0);
            let g = self.gain * pos_fade.min(life_fade);
            frame.0 += left * g;
            frame.1 += right * g;
            if self.reverse {
                self.pos -= self.pitch;
            } else {
                self.pos += self.pitch;
            }
            if let Some(period) = self.stutter {
                let p = (period as f32).min(self.length as f32);
                if p > 0.0 {
                    if self.reverse {
                        while self.pos < 0.0 {
                            self.pos += p;
                        }
                    } else {
                        while self.pos >= p {
                            self.pos -= p;
                        }
                    }
                }
            }
            self.frames_rendered += 1;
        }
    }
}

/// A small generator of repeatable, well-spread numbers.
struct Lcg(u64);

impl Lcg {
    fn next(&mut self) -> u64 {
        self.0 = self.0.wrapping_mul(6364136223846793005).wrapping_add(1442695040888963407);
        self.0 >> 33
    }

    fn unit(&mut self) -> f32 {
        (self.next() % 20001) as f32 / 10000.0 - 1.0
    }
}

fn compare(
    data: &[(f32, f32)],
    trim_start: usize,
    length: usize,
    pitch: f32,
    gain: f32,
    reverse: bool,
    stutter: Option<u32>,
    blocks: &[usize],
) {
    let buffer = SampleBuffer::from_frames(
        data.iter().map(|(l, r)| StereoFrame { left: l.to_bits(), right: r.to_bits() }).collect(),
    );
    let mut voice =
        Voice::new(trim_start, length, pitch.to_bits(), gain.to_bits(), reverse, stutter, &Fpu);
    let mut plain = PlainVoice::new(trim_start, length, pitch, gain, reverse, stutter);
    for &n in blocks {
        let mut out = vec![StereoFrame { left: 0.25f32.to_bits(), right: (-0.5f32).to_bits() }; n];
        let mut want = vec![(0.25f32, -0.5f32); n];
        voice.render_into(&buffer, &mut out, &Fpu);
        plain.render_into(data, &mut want);
        let context = format!(
            "trim {trim_start} len {length} pitch {pitch} gain {gain} rev {reverse} st {stutter:?}"
        );
        assert_eq!(voice.active, plain.active, "{context}");
        assert_eq!(voice.frames_rendered, plain.frames_rendered, "{context}");
        assert_eq!(voice.length, plain.length, "{context}");
        assert_eq!(voice.pos, plain.pos.to_bits(), "{context}");
        for (got, want) in out.iter().zip(&want) {
            assert_eq!(got.left, want.0.to_bits(), "{context}");
            assert_eq!(got.right, want.1.to_bits(), "{context}");
        }
    }
}

#[test]
fn voice_agrees_with_plain_arithmetic_bit_for_bit() {
    let mut rng = Lcg(7);
    let data: Vec<(f32, f32)> = (0..700).map(|_| (rng.unit(), rng.unit())).collect();
    let pitches = [0.25f32, 0.5, 1.0, 1.3, 2.0, 3.7];
    let periods = [None, Some(1u32), Some(7), Some(64), Some(5000)];
    for &pitch in &pitches {
        for &stutter in &periods {
            for reverse in [false, true] {
                for (trim_start, length) in [(0usize, 700usize), (13, 300), (650, 400), (0, 1)] {
                    compare(
                        &data,
                        trim_start,
                        length,
                        pitch,
                        0.8,
                        reverse,
                        stutter,
                        &[64, 1, 0, 300, 512],
                    );
                }
            }
        }
    }
}

#[test]
fn voice_agrees_on_scattered_parameters() {
    let mut rng = Lcg(99);
    let data: Vec<(f32, f32)> = (0..1000).map(|_| (rng.unit(), rng.unit())).collect();
    for _ in 0..300 {
        let trim_start = (rng.next() % 1100) as usize;
        let length = (rng.next() % 1200) as usize;
        let pitch = 0.1 + (rng.next() % 400) as f32 / 100.0;
        let gain = rng.unit().abs();
        let reverse = rng.next() % 2 == 0;
        let stutter = match rng.next() % 3 {
            0 => None,
            _ => Some((rng.next() % 300) as u32),
        };
        let blocks = [(rng.next() % 200) as usize, (rng.next() % 900) as usize, 256];
        compare(&data, trim_start, length, pitch, gain, reverse, stutter, &blocks);
    }
}
