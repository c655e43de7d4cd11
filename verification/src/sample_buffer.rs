//! Sample buffers: immutable stores of frames at the engine's rate.

use vstd::prelude::*;
use crate::binary32;
use crate::frame::StereoFrame;
use crate::math::{is_count, is_quotient, SampleMath};
use crate::voice::{lerp, lerped};

verus! {

/// A sequence of frames at a fixed rate. A buffer is not changed once it is
/// registered with an engine; it may be cloned to cross a thread boundary.
#[derive(Debug)]
pub struct SampleBuffer {
    pub data: Vec<StereoFrame>,
}

impl View for SampleBuffer {
    type V = Seq<StereoFrame>;

    open spec fn view(&self) -> Seq<StereoFrame> {
        self.data@
    }
}

impl SampleBuffer {
    /// Wraps `frames` as a buffer.
    pub fn from_frames(frames: Vec<StereoFrame>) -> (buffer: SampleBuffer)
        ensures
            buffer@ == frames@,
    {
        SampleBuffer { data: frames }
    }

    /// The number of frames held.
    pub fn len(&self) -> (n: usize)
        ensures
            n == self@.len(),
    {
        self.data.len()
    }
}

impl Clone for SampleBuffer {
    fn clone(&self) -> (copy: SampleBuffer)
        ensures
            copy@ == self@,
    {
        let mut data: Vec<StereoFrame> = Vec::new();
        let mut i: usize = 0;
        while i < self.data.len()
            invariant
                i <= self.data.len(),
                data@ == self.data@.subrange(0, i as int),
            decreases self.data.len() - i,
        {
            data.push(self.data[i]);
            assert(data@ =~= self.data@.subrange(0, i + 1));
            i += 1;
        }
        assert(data@ =~= self.data@);
        SampleBuffer { data }
    }
}

/// The number of frames that `len` frames at rate `source` become at rate
/// `target` when a whole buffer is converted: `len * target / source`,
/// rounded up.
pub open spec fn resampled_len(len: nat, source: nat, target: nat) -> nat {
    ((len * target + source - 1) / (source as int)) as nat
}

/// The number of frames that a live chunk of `len` frames at rate `source`
/// becomes at rate `target`: `len * target / source`, rounded down.
pub open spec fn live_resampled_len(len: nat, source: nat, target: nat) -> nat {
    (len * target / source) as nat
}

/// The index of the source frame at or before output frame `i`:
/// `i * source / target`, rounded down.
pub open spec fn source_index(i: nat, source: nat, target: nat) -> nat {
    (i * source / target) as nat
}

/// How far output frame `i` lies past its source frame, in `target`-ths of
/// a source frame.
pub open spec fn source_offset(i: nat, source: nat, target: nat) -> nat {
    (i * source % target) as nat
}

/// Whether `frac` is a value that `math` gives for the fraction `offset`
/// over `target`.
pub open spec fn is_fraction<M: SampleMath>(math: &M, offset: nat, target: u32, frac: u32) -> bool {
    exists|part: u32, whole: u32|
        {
            &&& #[trigger] is_count(math, offset as usize, part)
            &&& #[trigger] is_count(math, target as usize, whole)
            &&& is_quotient(math, part, whole, frac)
        }
}

/// Whether both channels of `r` are interpolated from those of `a` to those
/// of `b` at `t`.
pub open spec fn frame_lerped<M: SampleMath>(
    math: &M,
    a: StereoFrame,
    b: StereoFrame,
    t: u32,
    r: StereoFrame,
) -> bool {
    lerped(math, a.left, b.left, t, r.left) && lerped(math, a.right, b.right, t, r.right)
}

/// Whether `r` is output frame `i` of a conversion of `frames` from rate
/// `source` to rate `target`: interpolated between the source frame at or
/// before it and the next, or the last where there is no next, at the
/// fraction by which it lies past the first of the two.
pub open spec fn frame_interpolated<M: SampleMath>(
    math: &M,
    frames: Seq<StereoFrame>,
    source: u32,
    target: u32,
    i: nat,
    r: StereoFrame,
) -> bool {
    let idx = source_index(i, source as nat, target as nat) as int;
    exists|frac: u32|
        {
            &&& #[trigger] is_fraction(
                math,
                source_offset(i, source as nat, target as nat),
                target,
                frac,
            )
            &&& frame_lerped(math, frames[idx], frames[neighbour(idx, frames.len())], frac, r)
        }
}

/// The index of the frame after `idx` among `len` frames, or of the last
/// where there is none after it.
pub open spec fn neighbour(idx: int, len: nat) -> int {
    if idx + 1 < len {
        idx + 1
    } else {
        len - 1
    }
}

/// Whether `out` is the whole buffer `frames` converted from rate `source`
/// to rate `target`. Equal rates give a copy. Otherwise the length is
/// [`resampled_len`]; an output frame at or beyond the last source frame is
/// that frame, and any other is interpolated.
pub open spec fn resampled<M: SampleMath>(
    math: &M,
    frames: Seq<StereoFrame>,
    source: u32,
    target: u32,
    out: Seq<StereoFrame>,
) -> bool {
    if source == target {
        out == frames
    } else {
        &&& out.len() == resampled_len(frames.len(), source as nat, target as nat)
        &&& forall|i: int|
            0 <= i < out.len() ==> if source_index(i as nat, source as nat, target as nat) + 1
                >= frames.len() {
                #[trigger] out[i] == frames.last()
            } else {
                frame_interpolated(math, frames, source, target, i as nat, out[i])
            }
    }
}

/// Whether `out` is the live chunk `input` converted from rate `source` to
/// rate `target`: the length is [`live_resampled_len`], and every frame is
/// interpolated.
pub open spec fn live_resampled<M: SampleMath>(
    math: &M,
    input: Seq<StereoFrame>,
    source: u32,
    target: u32,
    out: Seq<StereoFrame>,
) -> bool {
    &&& out.len() == live_resampled_len(input.len(), source as nat, target as nat)
    &&& forall|i: int|
        0 <= i < out.len() ==> frame_interpolated(
            math,
            input,
            source,
            target,
            i as nat,
            #[trigger] out[i],
        )
}

/// An output frame below the output length has its source frame inside the
/// input.
proof fn lemma_source_index_in_range(i: nat, len: nat, source: nat, target: nat, out_len: nat)
    requires
        source > 0,
        target > 0,
        i < out_len,
        out_len <= resampled_len(len, source, target),
    ensures
        source_index(i, source, target) < len,
{
    let ceil = (len * target + source - 1) / (source as int);
    assert(i + 1 <= ceil);
    assert(ceil * source <= len * target + source - 1) by (nonlinear_arith)
        requires
            ceil == (len * target + source - 1) / (source as int),
            source > 0,
    ;
    assert((i + 1) * source <= ceil * source) by (nonlinear_arith)
        requires
            i + 1 <= ceil,
            source > 0,
    ;
    assert((i + 1) * source == i * source + source) by (nonlinear_arith);
    assert(i * source < len * target);
    assert((i * source) / target < len) by (nonlinear_arith)
        requires
            i * source < len * target,
            target > 0,
    ;
}

/// The live length never exceeds the whole-buffer length.
proof fn lemma_live_len_below(len: nat, source: nat, target: nat)
    requires
        source > 0,
    ensures
        live_resampled_len(len, source, target) <= resampled_len(len, source, target),
{
    assert((len * target) / source <= (len * target + source - 1) / (source as int))
        by (nonlinear_arith)
        requires
            source > 0,
    ;
    assert(0 <= (len * target) / source) by (nonlinear_arith)
        requires
            source > 0,
            len * target >= 0,
    ;
    assert(len * target >= 0) by (nonlinear_arith);
}

/// The product of a length and a rate, which a `u128` always holds.
fn wide_product(len: usize, rate: u32) -> (product: u128)
    ensures
        product == len * rate,
        product <= 0xFFFF_FFFF_FFFF_FFFF * 0xFFFF_FFFF,
{
    assert(0 <= len * rate <= 0xFFFF_FFFF_FFFF_FFFF * 0xFFFF_FFFF) by (nonlinear_arith)
        requires
            0 <= len <= 0xFFFF_FFFF_FFFF_FFFF,
            0 <= rate <= 0xFFFF_FFFF,
    ;
    (len as u128) * (rate as u128)
}

/// Nothing comes out of a conversion to rate zero.
proof fn lemma_nothing_at_rate_zero(len: nat, source: nat)
    requires
        source > 0,
    ensures
        resampled_len(len, source, 0) == 0,
        live_resampled_len(len, source, 0) == 0,
{
    assert(len * 0 == 0) by (nonlinear_arith);
    assert((source - 1) / (source as int) == 0) by (nonlinear_arith)
        requires
            source > 0,
    ;
    assert(0nat / source == 0) by (nonlinear_arith)
        requires
            source > 0,
    ;
}

/// The position of output frame `i` in the source: the index of the frame
/// at or before it and, as a binary32 fraction, how far it lies past that
/// frame.
fn source_position<M: SampleMath>(i: usize, source: u32, target: u32, math: &M) -> (at: (
    usize,
    u32,
))
    requires
        target > 0,
        source_index(i as nat, source as nat, target as nat) <= usize::MAX,
    ensures
        at.0 == source_index(i as nat, source as nat, target as nat),
        is_fraction(
            math,
            source_offset(i as nat, source as nat, target as nat),
            target,
            at.1,
        ),
{
    let scaled = wide_product(i, source);
    let idx = (scaled / (target as u128)) as usize;
    let offset = (scaled % (target as u128)) as usize;
    let part = math.from_count(offset);
    let whole = math.from_count(target as usize);
    let frac = math.quotient(part, whole);
    assert(is_count(math, offset, part) && is_count(math, target as usize, whole));
    (idx, frac)
}

/// An output frame interpolated at its source position is what
/// [`frame_interpolated`] asks for.
proof fn lemma_frame_interpolated<M: SampleMath>(
    math: &M,
    frames: Seq<StereoFrame>,
    source: u32,
    target: u32,
    i: usize,
    idx: usize,
    frac: u32,
    frame: StereoFrame,
)
    requires
        idx == source_index(i as nat, source as nat, target as nat),
        is_fraction(
            math,
            source_offset(i as nat, source as nat, target as nat),
            target,
            frac,
        ),
        frame_lerped(
            math,
            frames[idx as int],
            frames[neighbour(idx as int, frames.len())],
            frac,
            frame,
        ),
    ensures
        frame_interpolated(math, frames, source, target, i as nat, frame),
{
}

/// Interpolates both channels from `a` to `b` at `t`.
fn lerp_frame<M: SampleMath>(a: StereoFrame, b: StereoFrame, t: u32, math: &M) -> (r: StereoFrame)
    ensures
        frame_lerped(math, a, b, t, r),
{
    StereoFrame { left: lerp(a.left, b.left, t, math), right: lerp(a.right, b.right, t, math) }
}

/// Converts a whole buffer from rate `source_rate` to rate `target_rate` by
/// linear interpolation. Equal rates give a copy. Otherwise output frame `i`
/// lies at `i * source_rate / target_rate` in the source and is
/// interpolated between the frame at or before it and the next; at or
/// beyond the last source frame it is that frame.
pub fn resample_linear<M: SampleMath>(
    frames: &Vec<StereoFrame>,
    source_rate: u32,
    target_rate: u32,
    math: &M,
) -> (out: Vec<StereoFrame>)
    requires
        source_rate > 0,
        resampled_len(frames@.len(), source_rate as nat, target_rate as nat) <= usize::MAX,
    ensures
        resampled(math, frames@, source_rate, target_rate, out@),
{
    let len = frames.len();
    let mut out: Vec<StereoFrame> = Vec::new();
    if source_rate == target_rate {
        let mut i: usize = 0;
        while i < len
            invariant
                i <= len,
                len == frames.len(),
                out@ == frames@.subrange(0, i as int),
            decreases len - i,
        {
            out.push(frames[i]);
            assert(out@ =~= frames@.subrange(0, i + 1));
            i += 1;
        }
        assert(out@ =~= frames@);
        return out;
    }
    let total = wide_product(len, target_rate);
    let out_len = ((total + (source_rate as u128 - 1)) / (source_rate as u128)) as usize;
    let mut i: usize = 0;
    while i < out_len
        invariant
            i <= out_len,
            len == frames.len(),
            source_rate > 0,
            out_len == resampled_len(len as nat, source_rate as nat, target_rate as nat),
            out@.len() == i,
            source_rate != target_rate,
            forall|j: int|
                0 <= j < i ==> if source_index(j as nat, source_rate as nat, target_rate as nat)
                    + 1 >= len {
                    #[trigger] out@[j] == frames@.last()
                } else {
                    frame_interpolated(math, frames@, source_rate, target_rate, j as nat, out@[j])
                },
        decreases out_len - i,
    {
        proof {
            if target_rate > 0 {
                lemma_source_index_in_range(
                    i as nat,
                    len as nat,
                    source_rate as nat,
                    target_rate as nat,
                    out_len as nat,
                );
            } else {
                lemma_nothing_at_rate_zero(len as nat, source_rate as nat);
            }
        }
        let (idx, frac) = source_position(i, source_rate, target_rate, math);
        let ghost so_far = out@;
        if idx + 1 >= len {
            out.push(frames[len - 1]);
        } else {
            let frame = lerp_frame(frames[idx], frames[idx + 1], frac, math);
            out.push(frame);
            proof {
                lemma_frame_interpolated(
                    math,
                    frames@,
                    source_rate,
                    target_rate,
                    i,
                    idx,
                    frac,
                    frame,
                );
            }
        }
        assert forall|j: int| 0 <= j < i implies out@[j] == so_far[j] by {}
        i += 1;
    }
    out
}

/// Converts one live chunk from rate `source_rate` to rate `target_rate` by
/// linear interpolation. Each chunk is converted on its own: no fraction of
/// a frame is carried from one chunk to the next, so a small step may show
/// at each seam.
pub fn resample_linear_frames<M: SampleMath>(
    input: &Vec<StereoFrame>,
    source_rate: u32,
    target_rate: u32,
    math: &M,
) -> (out: Vec<StereoFrame>)
    requires
        source_rate > 0,
        live_resampled_len(input@.len(), source_rate as nat, target_rate as nat) <= usize::MAX,
    ensures
        live_resampled(math, input@, source_rate, target_rate, out@),
{
    let len = input.len();
    let mut out: Vec<StereoFrame> = Vec::new();
    let total = wide_product(len, target_rate);
    let out_len = (total / (source_rate as u128)) as usize;
    let mut i: usize = 0;
    while i < out_len
        invariant
            i <= out_len,
            len == input.len(),
            source_rate > 0,
            out_len == live_resampled_len(len as nat, source_rate as nat, target_rate as nat),
            out@.len() == i,
            forall|j: int|
                0 <= j < i ==> frame_interpolated(
                    math,
                    input@,
                    source_rate,
                    target_rate,
                    j as nat,
                    #[trigger] out@[j],
                ),
        decreases out_len - i,
    {
        proof {
            lemma_live_len_below(len as nat, source_rate as nat, target_rate as nat);
            if target_rate > 0 {
                lemma_source_index_in_range(
                    i as nat,
                    len as nat,
                    source_rate as nat,
                    target_rate as nat,
                    out_len as nat,
                );
            } else {
                lemma_nothing_at_rate_zero(len as nat, source_rate as nat);
            }
        }
        let (idx, frac) = source_position(i, source_rate, target_rate, math);
        let s0 = input[idx];
        let s1 = if idx + 1 < len {
            input[idx + 1]
        } else {
            input[len - 1]
        };
        let ghost so_far = out@;
        let frame = lerp_frame(s0, s1, frac, math);
        out.push(frame);
        proof {
            lemma_frame_interpolated(math, input@, source_rate, target_rate, i, idx, frac, frame);
        }
        assert forall|j: int| 0 <= j < i implies out@[j] == so_far[j] by {}
        i += 1;
    }
    out
}

/// Whether a device running at `device_rate` needs its input converted to
/// reach `target_rate`: whether the two rates differ by more than one part
/// in a thousand.
pub open spec fn rates_differ(device_rate: u32, target_rate: u32) -> bool {
    if target_rate >= device_rate {
        (target_rate - device_rate) * 1000 > device_rate
    } else {
        (device_rate - target_rate) * 1000 > device_rate
    }
}

/// Whether input at `device_rate` must be converted to reach `target_rate`.
#[verifier::when_used_as_spec(rates_differ)]
pub fn needs_resample(device_rate: u32, target_rate: u32) -> (r: bool)
    ensures
        r == rates_differ(device_rate, target_rate),
{
    let gap: u64 = if target_rate >= device_rate {
        (target_rate - device_rate) as u64
    } else {
        (device_rate - target_rate) as u64
    };
    gap * 1000 > device_rate as u64
}

/// The stereo frames of interleaved samples. A single channel is put on
/// both sides; of more channels the first two are taken and the rest
/// dropped. Samples past the last whole frame are dropped.
pub open spec fn deinterleaved(data: Seq<u32>, channels: nat) -> Seq<StereoFrame> {
    Seq::new(
        (data.len() / channels) as nat,
        |i: int|
            StereoFrame {
                left: data[i * channels],
                right: if channels > 1 {
                    data[i * channels + 1]
                } else {
                    data[i * channels]
                },
            },
    )
}

/// Folds interleaved samples of `channels` channels into stereo frames.
pub fn frames_from_interleaved(data: &Vec<u32>, channels: usize) -> (frames: Vec<StereoFrame>)
    requires
        channels > 0,
    ensures
        frames@ == deinterleaved(data@, channels as nat),
{
    let count = data.len() / channels;
    let mut frames: Vec<StereoFrame> = Vec::new();
    let mut i: usize = 0;
    while i < count
        invariant
            i <= count,
            channels > 0,
            count == data.len() / channels,
            frames@.len() == i,
            forall|j: int| 0 <= j < i ==> frames@[j] == deinterleaved(data@, channels as nat)[j],
        decreases count - i,
    {
        assert((i + 1) * channels <= data.len()) by (nonlinear_arith)
            requires
                i + 1 <= count,
                count == data.len() / channels,
                channels > 0,
        ;
        assert((i + 1) * channels == i * channels + channels) by (nonlinear_arith);
        let base = i * channels;
        let left = data[base];
        let right = if channels > 1 {
            data[base + 1]
        } else {
            left
        };
        frames.push(StereoFrame { left, right });
        i += 1;
    }
    assert(frames@ =~= deinterleaved(data@, channels as nat));
    frames
}

/// The frames of one chunk of interleaved input samples from a device of
/// `channels` channels at `device_rate`, for an engine at `target_rate`:
/// folded to stereo and, where the rates differ by more than a thousandth,
/// converted.
pub fn input_frames<M: SampleMath>(
    data: &Vec<u32>,
    channels: usize,
    device_rate: u32,
    target_rate: u32,
    math: &M,
) -> (frames: Vec<StereoFrame>)
    requires
        channels > 0,
        rates_differ(device_rate, target_rate) ==> device_rate > 0 && live_resampled_len(
            data@.len() / (channels as nat),
            device_rate as nat,
            target_rate as nat,
        ) <= usize::MAX,
    ensures
        !rates_differ(device_rate, target_rate) ==> frames@ == deinterleaved(
            data@,
            channels as nat,
        ),
        rates_differ(device_rate, target_rate) ==> live_resampled(
            math,
            deinterleaved(data@, channels as nat),
            device_rate,
            target_rate,
            frames@,
        ),
{
    let folded = frames_from_interleaved(data, channels);
    if needs_resample(device_rate, target_rate) {
        resample_linear_frames(&folded, device_rate, target_rate, math)
    } else {
        folded
    }
}

/// The samples of a WAV file as they were stored.
#[derive(Debug)]
pub enum WavSamples {
    /// Binary32 samples, as bit patterns.
    Float(Vec<u32>),
    /// Signed integer samples of `bits_per_sample` bits each.
    Int { bits_per_sample: u16, samples: Vec<i32> },
}

/// A decoded WAV file: its format and its interleaved samples.
#[derive(Debug)]
pub struct WavData {
    pub channels: u16,
    pub sample_rate: u32,
    pub samples: WavSamples,
}

/// Why a decoded WAV file cannot become a sample buffer.
#[derive(Clone, Copy, Debug, PartialEq, Eq, Structural)]
pub enum LoadError {
    /// Integer samples of a depth other than 1 to 32 bits.
    UnsupportedFormat,
    /// The rate has to be converted, and the file's rate is zero or the
    /// converted length is beyond what a buffer can hold.
    UnsupportedRate,
    /// An output of anything but two channels was asked for.
    UnsupportedOutput,
}

impl LoadError {
    /// What the error says to the user.
    pub open spec fn text(self) -> Seq<char> {
        match self {
            LoadError::UnsupportedFormat => "Unsupported sample format"@,
            LoadError::UnsupportedRate => "Unsupported sample rate"@,
            LoadError::UnsupportedOutput => "Pocketty only supports stereo output right now"@,
        }
    }

    /// A line for the user.
    pub fn message(&self) -> (line: &'static str)
        ensures
            line@ == self.text(),
    {
        match self {
            LoadError::UnsupportedFormat => "Unsupported sample format",
            LoadError::UnsupportedRate => "Unsupported sample rate",
            LoadError::UnsupportedOutput => "Pocketty only supports stereo output right now",
        }
    }
}

impl WavData {
    /// The number of interleaved samples.
    pub open spec fn sample_count(self) -> nat {
        match self.samples {
            WavSamples::Float(samples) => samples@.len(),
            WavSamples::Int { samples, .. } => samples@.len(),
        }
    }

    /// The number of samples taken for one frame: one of a mono file, two
    /// of any other.
    pub open spec fn samples_per_frame(self) -> nat {
        if self.channels == 1 {
            1
        } else {
            2
        }
    }

    /// The number of frames in the file.
    pub open spec fn frame_count(self) -> nat {
        self.sample_count() / self.samples_per_frame()
    }

    /// Why the file cannot be loaded for the given output, if it cannot.
    pub open spec fn load_failure(self, target_rate: u32, target_channels: u16) -> Option<
        LoadError,
    > {
        if self.samples matches WavSamples::Int { bits_per_sample, .. } && !(1 <= bits_per_sample
            <= 32) {
            Some(LoadError::UnsupportedFormat)
        } else if self.sample_rate != target_rate && (self.sample_rate == 0 || resampled_len(
            self.frame_count(),
            self.sample_rate as nat,
            target_rate as nat,
        ) > usize::MAX) {
            Some(LoadError::UnsupportedRate)
        } else if target_channels != 2 {
            Some(LoadError::UnsupportedOutput)
        } else {
            None
        }
    }
}

/// Two to the power `exponent`.
pub open spec fn pow2(exponent: nat) -> nat
    decreases exponent,
{
    if exponent == 0 {
        1
    } else {
        2 * pow2((exponent - 1) as nat)
    }
}

/// The largest magnitude that signed samples of `bits` bits reach:
/// two to the power `bits - 1`.
fn full_scale(bits: u16) -> (scale: usize)
    requires
        1 <= bits <= 32,
    ensures
        scale == pow2((bits - 1) as nat),
        scale <= 0x8000_0000,
{
    let mut scale: usize = 1;
    let mut k: u16 = 1;
    while k < bits
        invariant
            1 <= k <= bits,
            bits <= 32,
            scale == pow2((k - 1) as nat),
            scale <= 0x8000_0000,
            k < 32 ==> scale * 2 <= 0x8000_0000,
        decreases bits - k,
    {
        proof {
            lemma_pow2_bound((k - 1) as nat);
            lemma_pow2_bound(k as nat);
        }
        scale = scale * 2;
        k += 1;
    }
    scale
}

/// Powers of two up to the 31st fit in 32 bits.
proof fn lemma_pow2_bound(exponent: nat)
    requires
        exponent <= 31,
    ensures
        pow2(exponent) <= 0x8000_0000,
        exponent < 31 ==> pow2(exponent) * 2 <= 0x8000_0000,
{
    reveal_with_fuel(pow2, 32);
}

/// The magnitude of an integer sample.
pub open spec fn sample_magnitude(sample: i32) -> usize {
    if sample < 0 {
        (-sample) as usize
    } else {
        sample as usize
    }
}

/// Whether `value` is a value that `math` gives for the integer sample
/// `sample` over the full scale `scale`: the magnitude as a binary32 value,
/// negated for a negative sample, divided by `scale`.
pub open spec fn normalized<M: SampleMath>(math: &M, sample: i32, scale: u32, value: u32) -> bool {
    exists|magnitude: u32| #[trigger]
        is_count(math, sample_magnitude(sample), magnitude) && is_quotient(
            math,
            if sample < 0 {
                binary32::negated(magnitude)
            } else {
                magnitude
            },
            scale,
            value,
        )
}

/// An integer sample as a binary32 value: the sample over the full scale of
/// its bit depth.
fn normalize<M: SampleMath>(sample: i32, scale: u32, math: &M) -> (value: u32)
    ensures
        normalized(math, sample, scale, value),
{
    let magnitude = if sample < 0 {
        math.from_count((-(sample as i64)) as usize)
    } else {
        math.from_count(sample as usize)
    };
    assert(is_count(math, sample_magnitude(sample), magnitude));
    let signed = if sample < 0 {
        binary32::negate(magnitude)
    } else {
        magnitude
    };
    math.quotient(signed, scale)
}

/// Whether `values` are the integer samples `samples` of `bits` bits each,
/// every one over the full scale `scale` of that depth: two to the power
/// `bits - 1`.
pub open spec fn int_frames<M: SampleMath>(
    math: &M,
    bits: u16,
    samples: Seq<i32>,
    per_frame: nat,
    scale: u32,
    values: Seq<u32>,
) -> bool {
    &&& is_count(math, pow2((bits - 1) as nat) as usize, scale)
    &&& values.len() == samples.len()
    &&& forall|k: int|
        0 <= k < values.len() ==> normalized(math, samples[k], scale, #[trigger] values[k])
}

/// Whether `frames` are the frames of a decoded WAV file before any
/// conversion of rate: its samples, integer ones over the full scale of
/// their depth, folded to stereo.
pub open spec fn wav_frames<M: SampleMath>(
    math: &M,
    wav: WavData,
    frames: Seq<StereoFrame>,
) -> bool {
    match wav.samples {
        WavSamples::Float(samples) => frames == deinterleaved(
            samples@,
            wav.samples_per_frame(),
        ),
        WavSamples::Int { bits_per_sample, samples } => exists|scale: u32, values: Seq<u32>|
            {
                &&& #[trigger] int_frames(
                    math,
                    bits_per_sample,
                    samples@,
                    wav.samples_per_frame(),
                    scale,
                    values,
                )
                &&& frames == deinterleaved(values, wav.samples_per_frame())
            },
    }
}

/// Whether `loaded` holds the frames of `wav` as `math` gives them, brought
/// to `target_rate`.
pub open spec fn wav_loaded<M: SampleMath>(
    math: &M,
    wav: WavData,
    target_rate: u32,
    loaded: Seq<StereoFrame>,
) -> bool {
    exists|frames: Seq<StereoFrame>| #[trigger]
        wav_frames(math, wav, frames) && resampled(
            math,
            frames,
            wav.sample_rate,
            target_rate,
            loaded,
        )
}

impl SampleBuffer {
    /// Makes a sample buffer at `target_rate` from a decoded WAV file.
    ///
    /// Integer samples are divided by the full scale of their bit depth. A
    /// mono file puts each sample on both sides; any other file is read as
    /// pairs of left and right. A file at another rate is converted by
    /// [`resample_linear`]. An output of anything but two channels is
    /// refused.
    pub fn load_wav<M: SampleMath>(
        wav: &WavData,
        target_rate: u32,
        target_channels: u16,
        math: &M,
    ) -> (loaded: Result<SampleBuffer, LoadError>)
        ensures
            match loaded {
                Ok(buffer) => {
                    &&& wav.load_failure(target_rate, target_channels).is_none()
                    &&& buffer@.len() == if wav.sample_rate == target_rate {
                        wav.frame_count()
                    } else {
                        resampled_len(
                            wav.frame_count(),
                            wav.sample_rate as nat,
                            target_rate as nat,
                        )
                    }
                    &&& wav_loaded(math, *wav, target_rate, buffer@)
                },
                Err(e) => wav.load_failure(target_rate, target_channels) == Some(e),
            },
    {
        let per_frame: usize = if wav.channels == 1 {
            1
        } else {
            2
        };
        let frames = match &wav.samples {
            WavSamples::Float(samples) => frames_from_interleaved(samples, per_frame),
            WavSamples::Int { bits_per_sample, samples } => {
                if *bits_per_sample < 1 || *bits_per_sample > 32 {
                    return Err(LoadError::UnsupportedFormat);
                }
                let scale = math.from_count(full_scale(*bits_per_sample));
                let mut values: Vec<u32> = Vec::new();
                let mut i: usize = 0;
                while i < samples.len()
                    invariant
                        i <= samples.len(),
                        values@.len() == i,
                        forall|k: int|
                            0 <= k < i ==> normalized(
                                math,
                                samples@[k],
                                scale,
                                #[trigger] values@[k],
                            ),
                    decreases samples.len() - i,
                {
                    let ghost so_far = values@;
                    values.push(normalize(samples[i], scale, math));
                    assert forall|k: int| 0 <= k < i implies values@[k] == so_far[k] by {}
                    i += 1;
                }
                let frames = frames_from_interleaved(&values, per_frame);
                assert(int_frames(math, *bits_per_sample, samples@, per_frame as nat, scale, values@)
                    && frames@ == deinterleaved(values@, per_frame as nat));
                frames
            },
        };
        assert(frames@.len() == wav.frame_count());
        assert(wav_frames(math, *wav, frames@));
        let ghost decoded = frames@;
        let frames = if wav.sample_rate != target_rate {
            if wav.sample_rate == 0 {
                return Err(LoadError::UnsupportedRate);
            }
            let wide = (wide_product(frames.len(), target_rate) + (wav.sample_rate as u128 - 1))
                / (wav.sample_rate as u128);
            if wide > usize::MAX as u128 {
                return Err(LoadError::UnsupportedRate);
            }
            resample_linear(&frames, wav.sample_rate, target_rate, math)
        } else {
            frames
        };
        if target_channels != 2 {
            return Err(LoadError::UnsupportedOutput);
        }
        assert(resampled(math, decoded, wav.sample_rate, target_rate, frames@));
        Ok(SampleBuffer { data: frames })
    }
}

} // verus!
