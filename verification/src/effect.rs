//! Effects: declarative descriptors and the per-block processors made from
//! them.

use vstd::prelude::*;
use crate::binary32;
use crate::frame::StereoFrame;
use crate::math::{
    is_count, is_difference, is_product, is_quotient, is_round, is_sum, is_tanh, SampleMath,
};

verus! {

/// The fewest levels a bitcrusher quantizes to.
pub const MIN_LEVELS: u32 = 2;

/// The most levels a bitcrusher quantizes to.
pub const MAX_LEVELS: u32 = 65536;

/// Bit pattern of one half.
pub const HALF: u32 = 0x3F00_0000;

/// Bit pattern of 10, the pre-gain a distortion adds at full drive.
pub const DRIVE_GAIN: u32 = 0x4120_0000;

/// The level count a bitcrusher works with when asked for `levels`.
pub open spec fn crush_levels(levels: u32) -> u32 {
    if levels < MIN_LEVELS {
        MIN_LEVELS
    } else if levels > MAX_LEVELS {
        MAX_LEVELS
    } else {
        levels
    }
}

/// What an effect is meant to do. `drive` is a binary32 bit pattern.
#[derive(Clone, Copy, Debug, PartialEq, Eq, Structural)]
pub enum EffectSpec {
    /// Quantize each channel to `levels` steps over [-1, 1].
    Bitcrusher { levels: u32 },
    /// Saturate each channel, the harder the nearer `drive` is to 1.
    Distortion { drive: u32 },
}

/// Quantizes each channel to a fixed number of levels over [-1, 1].
#[derive(Clone, Copy, Debug)]
pub struct Bitcrusher {
    levels: u32,
}

/// Saturates each channel through a hyperbolic tangent.
#[derive(Clone, Copy, Debug)]
pub struct Distortion {
    drive: u32,
}

/// A processor in a voice's chain: one of the closed set of effects.
#[derive(Clone, Copy, Debug)]
pub enum Effect {
    Bitcrusher(Bitcrusher),
    Distortion(Distortion),
}

/// Whether `scale` and `inv` are values that `math` gives for the scale of a
/// bitcrusher of `levels` levels and for its inverse: `(levels - 1) / 2` and
/// `1 / scale`.
pub open spec fn crush_scale<M: SampleMath>(math: &M, levels: u32, scale: u32, inv: u32) -> bool {
    exists|count: u32, span: u32|
        {
            &&& #[trigger] is_count(math, levels as usize, count)
            &&& #[trigger] is_difference(math, count, binary32::ONE, span)
            &&& is_product(math, span, HALF, scale)
            &&& is_quotient(math, binary32::ONE, scale, inv)
        }
}

/// Whether `out` is a value that `math` gives for the channel `x` quantized:
/// `round(clamp(x) * scale) * inv`, with `x` held within [-1, 1].
pub open spec fn crushed<M: SampleMath>(math: &M, scale: u32, inv: u32, x: u32, out: u32) -> bool {
    exists|scaled: u32, whole: u32|
        {
            &&& #[trigger] is_product(
                math,
                binary32::clamped(x, binary32::NEG_ONE, binary32::ONE),
                scale,
                scaled,
            )
            &&& #[trigger] is_round(math, scaled, whole)
            &&& is_product(math, whole, inv, out)
        }
}

/// Whether both channels of `after` are those of `before`, quantized.
pub open spec fn frame_crushed<M: SampleMath>(
    math: &M,
    scale: u32,
    inv: u32,
    before: StereoFrame,
    after: StereoFrame,
) -> bool {
    crushed(math, scale, inv, before.left, after.left) && crushed(
        math,
        scale,
        inv,
        before.right,
        after.right,
    )
}

/// Whether `after` is the block `before` run through a bitcrusher of
/// `levels` levels: one scale for the whole block, and every frame quantized
/// by it.
pub open spec fn bitcrushed<M: SampleMath>(
    math: &M,
    levels: u32,
    before: Seq<StereoFrame>,
    after: Seq<StereoFrame>,
) -> bool {
    &&& after.len() == before.len()
    &&& exists|scale: u32, inv: u32| #[trigger]
        crush_scale(math, levels, scale, inv) && forall|i: int|
            0 <= i < before.len() ==> #[trigger] frame_crushed(
                math,
                scale,
                inv,
                before[i],
                after[i],
            )
}

/// Whether `pre_gain` is a value that `math` gives for the gain that a
/// distortion of the given drive puts before its curve: `1 + drive * 10`.
pub open spec fn drive_gain<M: SampleMath>(math: &M, drive: u32, pre_gain: u32) -> bool {
    exists|boost: u32| #[trigger]
        is_product(math, drive, DRIVE_GAIN, boost) && is_sum(math, binary32::ONE, boost, pre_gain)
}

/// Whether `out` is a value that `math` gives for the channel `x`
/// saturated: `tanh(pre_gain * clamp(x))`, with `x` held within [-1, 1].
pub open spec fn saturated<M: SampleMath>(math: &M, pre_gain: u32, x: u32, out: u32) -> bool {
    exists|driven: u32| #[trigger]
        is_product(
            math,
            pre_gain,
            binary32::clamped(x, binary32::NEG_ONE, binary32::ONE),
            driven,
        ) && is_tanh(math, driven, out)
}

/// Whether both channels of `after` are those of `before`, saturated.
pub open spec fn frame_saturated<M: SampleMath>(
    math: &M,
    pre_gain: u32,
    before: StereoFrame,
    after: StereoFrame,
) -> bool {
    saturated(math, pre_gain, before.left, after.left) && saturated(
        math,
        pre_gain,
        before.right,
        after.right,
    )
}

/// Whether `after` is the block `before` run through a distortion of the
/// given drive: one gain for the whole block, and every frame saturated
/// after it.
pub open spec fn distorted<M: SampleMath>(
    math: &M,
    drive: u32,
    before: Seq<StereoFrame>,
    after: Seq<StereoFrame>,
) -> bool {
    &&& after.len() == before.len()
    &&& exists|pre_gain: u32| #[trigger]
        drive_gain(math, drive, pre_gain) && forall|i: int|
            0 <= i < before.len() ==> #[trigger] frame_saturated(
                math,
                pre_gain,
                before[i],
                after[i],
            )
}

impl Bitcrusher {
    /// The number of levels, between [`MIN_LEVELS`] and [`MAX_LEVELS`].
    pub closed spec fn levels(self) -> u32 {
        self.levels
    }

    /// The bitcrusher with the given level count.
    pub closed spec fn with_levels(levels: u32) -> Bitcrusher {
        Bitcrusher { levels }
    }

    /// A bitcrusher of `levels` levels, held within the supported range.
    pub fn new(levels: u32) -> (crusher: Bitcrusher)
        ensures
            crusher == Bitcrusher::with_levels(crush_levels(levels)),
            crusher.levels() == crush_levels(levels),
    {
        let levels = if levels < MIN_LEVELS {
            MIN_LEVELS
        } else if levels > MAX_LEVELS {
            MAX_LEVELS
        } else {
            levels
        };
        Bitcrusher { levels }
    }

    /// Quantizes every frame of `buf` in place: with `scale` half of
    /// `levels - 1`, a channel `x` becomes `round(clamp(x) * scale) / scale`.
    pub fn process<M: SampleMath>(&self, buf: &mut Vec<StereoFrame>, math: &M)
        ensures
            bitcrushed(math, self.levels(), old(buf)@, final(buf)@),
    {
        let count = math.from_count(self.levels as usize);
        let span = math.difference(count, binary32::ONE);
        let scale = math.product(span, HALF);
        let inv = math.quotient(binary32::ONE, scale);
        assert(is_count(math, self.levels as usize, count) && is_difference(
            math,
            count,
            binary32::ONE,
            span,
        ));
        assert(crush_scale(math, self.levels, scale, inv));
        let n = buf.len();
        let mut i: usize = 0;
        while i < n
            invariant
                i <= n,
                buf.len() == n,
                n == old(buf).len(),
                forall|j: int|
                    0 <= j < i ==> #[trigger] frame_crushed(
                        math,
                        scale,
                        inv,
                        old(buf)@[j],
                        buf@[j],
                    ),
                forall|j: int| i <= j < n ==> buf@[j] == old(buf)@[j],
            decreases n - i,
        {
            let f = buf[i];
            let left = crush(f.left, scale, inv, math);
            let right = crush(f.right, scale, inv, math);
            buf.set(i, StereoFrame { left, right });
            assert(frame_crushed(math, scale, inv, old(buf)@[i as int], buf@[i as int]));
            i += 1;
        }
    }
}

/// Quantizes one channel.
fn crush<M: SampleMath>(x: u32, scale: u32, inv: u32, math: &M) -> (out: u32)
    ensures
        crushed(math, scale, inv, x, out),
{
    let held = binary32::clamp(x, binary32::NEG_ONE, binary32::ONE);
    let scaled = math.product(held, scale);
    let whole = math.round(scaled);
    let out = math.product(whole, inv);
    assert(is_product(math, held, scale, scaled) && is_round(math, scaled, whole));
    out
}

/// Saturates one channel.
fn saturate<M: SampleMath>(x: u32, pre_gain: u32, math: &M) -> (out: u32)
    ensures
        saturated(math, pre_gain, x, out),
{
    let held = binary32::clamp(x, binary32::NEG_ONE, binary32::ONE);
    let driven = math.product(pre_gain, held);
    let out = math.tanh(driven);
    assert(is_product(math, pre_gain, held, driven));
    out
}

impl Distortion {
    /// The drive, within [0, 1] unless it is a NaN.
    pub closed spec fn drive(self) -> u32 {
        self.drive
    }

    /// The distortion with the given drive.
    pub closed spec fn with_drive(drive: u32) -> Distortion {
        Distortion { drive }
    }

    /// A distortion of the given drive, held within [0, 1].
    pub fn new(drive: u32) -> (distortion: Distortion)
        ensures
            distortion == Distortion::with_drive(
                binary32::clamped(drive, binary32::ZERO, binary32::ONE),
            ),
            distortion.drive() == binary32::clamped(drive, binary32::ZERO, binary32::ONE),
    {
        Distortion { drive: binary32::clamp(drive, binary32::ZERO, binary32::ONE) }
    }

    /// Saturates every frame of `buf` in place: a channel `x` becomes
    /// `tanh((1 + 10 * drive) * clamp(x))`.
    pub fn process<M: SampleMath>(&self, buf: &mut Vec<StereoFrame>, math: &M)
        ensures
            distorted(math, self.drive(), old(buf)@, final(buf)@),
    {
        let boost = math.product(self.drive, DRIVE_GAIN);
        let pre_gain = math.sum(binary32::ONE, boost);
        assert(is_product(math, self.drive, DRIVE_GAIN, boost));
        assert(drive_gain(math, self.drive, pre_gain));
        let n = buf.len();
        let mut i: usize = 0;
        while i < n
            invariant
                i <= n,
                buf.len() == n,
                n == old(buf).len(),
                forall|j: int|
                    0 <= j < i ==> #[trigger] frame_saturated(
                        math,
                        pre_gain,
                        old(buf)@[j],
                        buf@[j],
                    ),
                forall|j: int| i <= j < n ==> buf@[j] == old(buf)@[j],
            decreases n - i,
        {
            let f = buf[i];
            let left = saturate(f.left, pre_gain, math);
            let right = saturate(f.right, pre_gain, math);
            buf.set(i, StereoFrame { left, right });
            assert(frame_saturated(math, pre_gain, old(buf)@[i as int], buf@[i as int]));
            i += 1;
        }
    }
}

impl EffectSpec {
    /// The processor that this descriptor stands for.
    pub open spec fn effect(self) -> Effect {
        match self {
            EffectSpec::Bitcrusher { levels } => Effect::Bitcrusher(
                Bitcrusher::with_levels(crush_levels(levels)),
            ),
            EffectSpec::Distortion { drive } => Effect::Distortion(
                Distortion::with_drive(binary32::clamped(drive, binary32::ZERO, binary32::ONE)),
            ),
        }
    }

    /// Makes a fresh processor from the descriptor.
    pub fn to_effect(&self) -> (effect: Effect)
        ensures
            effect == self.effect(),
    {
        match self {
            EffectSpec::Bitcrusher { levels } => Effect::Bitcrusher(Bitcrusher::new(*levels)),
            EffectSpec::Distortion { drive } => Effect::Distortion(Distortion::new(*drive)),
        }
    }
}

impl Effect {
    /// Whether running the processor over the block `before` with the
    /// arithmetic `math` may give the block `after`.
    pub open spec fn processes<M: SampleMath>(
        self,
        math: &M,
        before: Seq<StereoFrame>,
        after: Seq<StereoFrame>,
    ) -> bool {
        match self {
            Effect::Bitcrusher(crusher) => bitcrushed(math, crusher.levels(), before, after),
            Effect::Distortion(distortion) => distorted(math, distortion.drive(), before, after),
        }
    }

    /// Runs the processor over the whole block.
    pub fn process<M: SampleMath>(&self, buf: &mut Vec<StereoFrame>, math: &M)
        ensures
            self.processes(math, old(buf)@, final(buf)@),
            final(buf).len() == old(buf).len(),
    {
        match self {
            Effect::Bitcrusher(crusher) => crusher.process(buf, math),
            Effect::Distortion(distortion) => distortion.process(buf, math),
        }
    }
}

/// The processors that a list of descriptors stands for, in order.
pub open spec fn effects_of(specs: Seq<EffectSpec>) -> Seq<Effect> {
    specs.map_values(|spec: EffectSpec| spec.effect())
}

/// Makes a fresh chain of processors from a list of descriptors, in order.
pub fn build_chain(specs: &Vec<EffectSpec>) -> (chain: Vec<Effect>)
    ensures
        chain@ == effects_of(specs@),
{
    let mut chain: Vec<Effect> = Vec::new();
    let mut i: usize = 0;
    while i < specs.len()
        invariant
            i <= specs.len(),
            chain@ == effects_of(specs@.subrange(0, i as int)),
        decreases specs.len() - i,
    {
        chain.push(specs[i].to_effect());
        assert(chain@ =~= effects_of(specs@.subrange(0, i + 1)));
        i += 1;
    }
    assert(specs@.subrange(0, specs.len() as int) =~= specs@);
    chain
}

/// Whether running the processors of `chain` over the block `before`, each
/// over what the one before it left, may give the block `after`.
pub open spec fn chain_processed<M: SampleMath>(
    math: &M,
    chain: Seq<Effect>,
    before: Seq<StereoFrame>,
    after: Seq<StereoFrame>,
) -> bool
    decreases chain.len(),
{
    if chain.len() == 0 {
        after == before
    } else {
        exists|mid: Seq<StereoFrame>|
            chain_processed(math, chain.drop_last(), before, mid) && #[trigger] chain.last()
                .processes(math, mid, after)
    }
}

/// Runs every processor of `chain` over the whole block, each one after the
/// one before it has finished.
pub fn process_chain<M: SampleMath>(chain: &Vec<Effect>, buf: &mut Vec<StereoFrame>, math: &M)
    ensures
        chain_processed(math, chain@, old(buf)@, final(buf)@),
        final(buf).len() == old(buf).len(),
        chain@.len() == 0 ==> final(buf)@ == old(buf)@,
{
    let mut i: usize = 0;
    assert(chain@.subrange(0, 0) =~= Seq::<Effect>::empty());
    while i < chain.len()
        invariant
            i <= chain.len(),
            buf.len() == old(buf).len(),
            chain_processed(math, chain@.subrange(0, i as int), old(buf)@, buf@),
        decreases chain.len() - i,
    {
        let ghost mid = buf@;
        chain[i].process(buf, math);
        proof {
            let done = chain@.subrange(0, i + 1);
            assert(done.drop_last() =~= chain@.subrange(0, i as int));
            assert(done.last().processes(math, mid, buf@));
        }
        i += 1;
    }
    assert(chain@.subrange(0, chain.len() as int) =~= chain@);
}

} // verus!
