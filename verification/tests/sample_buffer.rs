use pocketty::frame::StereoFrame;
use pocketty::math::SampleMath;
use pocketty::sample_buffer::{
    frames_from_interleaved, needs_resample, resample_linear, resample_linear_frames, LoadError,
    SampleBuffer, WavData, WavSamples,
};

struct Fpu;

impl SampleMath for Fpu {
    fn sum(&self, a: u32, b: u32) -> u32 {
        (f32::from_bits(a) + f32::from_bits(b)).to_bits()
    }
    fn difference(&self, a: u32, b: u32) -> u32 {
        (f32::from_bits(a) - f32::from_bits(b)).to_bits()
    }
    fn product(&self, a: u32, b: u32) -> u32 {
        (f32::from_bits(a) * f32::from_bits(b)).to_bits()
    }
    fn quotient(&self, a: u32, b: u32) -> u32 {
        (f32::from_bits(a) / f32::from_bits(b)).to_bits()
    }
    fn remainder(&self, a: u32, b: u32) -> u32 {
        (f32::from_bits(a) % f32::from_bits(b)).to_bits()
    }
    fn round(&self, x: u32) -> u32 {
        f32::from_bits(x).round().to_bits()
    }
    fn tanh(&self, x: u32) -> u32 {
        f32::from_bits(x).tanh().to_bits()
    }
    fn ln(&self, x: u32) -> u32 {
        f32::from_bits(x).ln().to_bits()
    }
    fn powf(&self, base: u32, exponent: u32) -> u32 {
        f32::from_bits(base).powf(f32::from_bits(exponent)).to_bits()
    }
    fn from_count(&self, n: usize) -> u32 {
        (n as f32).to_bits()
    }
    fn to_index(&self, x: u32) -> usize {
        f32::from_bits(x) as usize
    }
}

fn ramp(n: usize) -> Vec<StereoFrame> {
    (0..n)
        .map(|i| StereoFrame { left: (i as f32).to_bits(), right: (-(i as f32)).to_bits() })
        .collect()
}

fn lefts(frames: &[StereoFrame]) -> Vec<f32> {
    frames.iter().map(|fr| f32::from_bits(fr.left)).collect()
}

fn bits(values: &[f32]) -> Vec<u32> {
    values.iter().map(|v| v.to_bits()).collect()
}

#[test]
fn from_frames_and_clone_keep_the_frames() {
    let buffer = SampleBuffer::from_frames(ramp(5));
    assert_eq!(buffer.len(), 5);
    let copy = buffer.clone();
    assert_eq!(copy.data, buffer.data);
}

#[test]
fn equal_rates_copy() {
    let out = resample_linear(&ramp(7), 44100, 44100, &Fpu);
    assert_eq!(out, ramp(7));
}

#[test]
fn doubling_the_rate_interpolates_midpoints() {
    let out = resample_linear(&ramp(4), 100, 200, &Fpu);
    assert_eq!(lefts(&out), vec![0.0, 0.5, 1.0, 1.5, 2.0, 2.5, 3.0, 3.0]);
    assert_eq!(f32::from_bits(out[3].right), -1.5);
}

#[test]
fn halving_the_rate_takes_every_other_frame() {
    let out = resample_linear(&ramp(8), 200, 100, &Fpu);
    assert_eq!(lefts(&out), vec![0.0, 2.0, 4.0, 6.0]);
}

#[test]
fn resampled_length_is_rounded_up() {
    assert_eq!(resample_linear(&ramp(10), 3, 1, &Fpu).len(), 4);
    assert_eq!(resample_linear(&ramp(441), 44100, 48000, &Fpu).len(), 480);
    assert_eq!(resample_linear(&ramp(100), 48000, 44100, &Fpu).len(), 92);
    assert_eq!(resample_linear(&ramp(0), 48000, 44100, &Fpu).len(), 0);
    assert_eq!(resample_linear(&ramp(10), 48000, 0, &Fpu).len(), 0);
}

#[test]
fn tail_frames_repeat_the_last_source_frame() {
    let out = resample_linear(&ramp(3), 1, 4, &Fpu);
    assert_eq!(out.len(), 12);
    assert_eq!(lefts(&out[8..]), vec![2.0, 2.0, 2.0, 2.0]);
    assert_eq!(lefts(&out[..5]), vec![0.0, 0.25, 0.5, 0.75, 1.0]);
}

#[test]
fn live_length_is_rounded_down() {
    assert_eq!(resample_linear_frames(&ramp(10), 3, 1, &Fpu).len(), 3);
    assert_eq!(resample_linear_frames(&ramp(441), 44100, 48000, &Fpu).len(), 480);
    assert_eq!(resample_linear_frames(&ramp(100), 48000, 44100, &Fpu).len(), 91);
    assert_eq!(resample_linear_frames(&ramp(0), 48000, 44100, &Fpu).len(), 0);
}

#[test]
fn live_resampling_interpolates() {
    let out = resample_linear_frames(&ramp(4), 100, 200, &Fpu);
    assert_eq!(lefts(&out), vec![0.0, 0.5, 1.0, 1.5, 2.0, 2.5, 3.0, 3.0]);
    let same = resample_linear_frames(&ramp(4), 100, 100, &Fpu);
    assert_eq!(lefts(&same), vec![0.0, 1.0, 2.0, 3.0]);
}

#[test]
fn rates_within_a_thousandth_need_no_conversion() {
    assert!(!needs_resample(44100, 44100));
    assert!(!needs_resample(48000, 48048));
    assert!(needs_resample(48000, 48049));
    assert!(!needs_resample(48000, 47952));
    assert!(needs_resample(48000, 47951));
    assert!(needs_resample(44100, 48000));
    assert!(needs_resample(48000, 44100));
    assert!(needs_resample(0, 1));
    assert!(!needs_resample(0, 0));
}

#[test]
fn mono_is_put_on_both_sides() {
    let frames = frames_from_interleaved(&bits(&[0.1, 0.2, 0.3]), 1);
    assert_eq!(lefts(&frames), vec![0.1, 0.2, 0.3]);
    assert!(frames.iter().all(|fr| fr.left == fr.right));
}

#[test]
fn stereo_is_paired() {
    let frames = frames_from_interleaved(&bits(&[0.1, 0.2, 0.3, 0.4, 0.5]), 2);
    assert_eq!(frames.len(), 2);
    assert_eq!(f32::from_bits(frames[0].left), 0.1);
    assert_eq!(f32::from_bits(frames[0].right), 0.2);
    assert_eq!(f32::from_bits(frames[1].left), 0.3);
    assert_eq!(f32::from_bits(frames[1].right), 0.4);
}

#[test]
fn more_channels_keep_the_first_two() {
    let frames = frames_from_interleaved(&bits(&[1.0, 2.0, 3.0, 4.0, 5.0, 6.0, 7.0]), 3);
    assert_eq!(frames.len(), 2);
    assert_eq!(f32::from_bits(frames[1].left), 4.0);
    assert_eq!(f32::from_bits(frames[1].right), 5.0);
}

fn float_wav(channels: u16, sample_rate: u32, values: &[f32]) -> WavData {
    WavData { channels, sample_rate, samples: WavSamples::Float(bits(values)) }
}

fn int_wav(channels: u16, sample_rate: u32, bits_per_sample: u16, samples: &[i32]) -> WavData {
    WavData {
        channels,
        sample_rate,
        samples: WavSamples::Int { bits_per_sample, samples: samples.to_vec() },
    }
}

#[test]
fn float_stereo_at_the_target_rate_loads_as_it_is() {
    let wav = float_wav(2, 44100, &[0.1, -0.1, 0.2, -0.2]);
    let buffer = SampleBuffer::load_wav(&wav, 44100, 2, &Fpu).unwrap();
    assert_eq!(buffer.len(), 2);
    assert_eq!(f32::from_bits(buffer.data[1].left), 0.2);
    assert_eq!(f32::from_bits(buffer.data[1].right), -0.2);
}

#[test]
fn float_mono_is_duplicated() {
    let wav = float_wav(1, 44100, &[0.1, 0.2]);
    let buffer = SampleBuffer::load_wav(&wav, 44100, 2, &Fpu).unwrap();
    assert_eq!(buffer.len(), 2);
    assert_eq!(buffer.data[0].left, buffer.data[0].right);
}

#[test]
fn integer_samples_are_normalized_by_their_bit_depth() {
    let wav = int_wav(2, 44100, 16, &[16384, -16384, 32767, -32768]);
    let buffer = SampleBuffer::load_wav(&wav, 44100, 2, &Fpu).unwrap();
    assert_eq!(f32::from_bits(buffer.data[0].left), 0.5);
    assert_eq!(f32::from_bits(buffer.data[0].right), -0.5);
    assert_eq!(f32::from_bits(buffer.data[1].left), 32767.0 / 32768.0);
    assert_eq!(f32::from_bits(buffer.data[1].right), -1.0);

    let wav24 = int_wav(1, 44100, 24, &[1 << 22, 0, -(1 << 23)]);
    let buffer24 = SampleBuffer::load_wav(&wav24, 44100, 2, &Fpu).unwrap();
    assert_eq!(lefts(&buffer24.data), vec![0.5, 0.0, -1.0]);

    let wav32 = int_wav(1, 44100, 32, &[1 << 30, i32::MIN]);
    let buffer32 = SampleBuffer::load_wav(&wav32, 44100, 2, &Fpu).unwrap();
    assert_eq!(lefts(&buffer32.data), vec![0.5, -1.0]);

    let wav8 = int_wav(1, 44100, 8, &[64, -128]);
    let buffer8 = SampleBuffer::load_wav(&wav8, 44100, 2, &Fpu).unwrap();
    assert_eq!(lefts(&buffer8.data), vec![0.5, -1.0]);
}

#[test]
fn another_rate_is_converted() {
    let wav = float_wav(1, 22050, &[0.0, 1.0, 2.0, 3.0]);
    let buffer = SampleBuffer::load_wav(&wav, 44100, 2, &Fpu).unwrap();
    assert_eq!(lefts(&buffer.data), vec![0.0, 0.5, 1.0, 1.5, 2.0, 2.5, 3.0, 3.0]);
}

#[test]
fn non_stereo_output_is_refused() {
    let wav = float_wav(2, 44100, &[0.1, -0.1]);
    for channels in [0u16, 1, 3, 6] {
        let err = SampleBuffer::load_wav(&wav, 44100, channels, &Fpu).unwrap_err();
        assert_eq!(err, LoadError::UnsupportedOutput);
        assert_eq!(err.message(), "Pocketty only supports stereo output right now");
    }
}

#[test]
fn unsupported_bit_depths_are_refused() {
    for depth in [0u16, 33, 64] {
        let wav = int_wav(2, 44100, depth, &[1, 2]);
        let err = SampleBuffer::load_wav(&wav, 44100, 2, &Fpu).unwrap_err();
        assert_eq!(err, LoadError::UnsupportedFormat);
        assert_eq!(err.message(), "Unsupported sample format");
    }
}

#[test]
fn zero_file_rate_is_refused_unless_it_is_the_target() {
    let wav = float_wav(2, 0, &[0.1, -0.1]);
    let err = SampleBuffer::load_wav(&wav, 44100, 2, &Fpu).unwrap_err();
    assert_eq!(err, LoadError::UnsupportedRate);
    assert_eq!(err.message(), "Unsupported sample rate");
    assert!(SampleBuffer::load_wav(&wav, 0, 2, &Fpu).is_ok());
}

#[test]
fn format_is_checked_before_rate_and_output() {
    let wav = int_wav(2, 0, 0, &[1, 2]);
    assert_eq!(
        SampleBuffer::load_wav(&wav, 44100, 5, &Fpu).unwrap_err(),
        LoadError::UnsupportedFormat
    );
    let wav = float_wav(2, 0, &[0.1, -0.1]);
    assert_eq!(
        SampleBuffer::load_wav(&wav, 44100, 5, &Fpu).unwrap_err(),
        LoadError::UnsupportedRate
    );
}
