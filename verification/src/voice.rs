//! Voices: one playback cursor per trigger.

use vstd::prelude::*;
use crate::binary32;
use crate::frame::StereoFrame;
use crate::math::{
    is_count, is_difference, is_index, is_product, is_quotient, is_remainder, is_sum, SampleMath,
};
use crate::sample_buffer::SampleBuffer;

verus! {

/// Bit pattern of 256, the number of frames over which a voice fades out
/// before its window or its lifetime ends (about 6 ms at 44.1 kHz).
pub const FADE_FRAMES: u32 = 0x4380_0000;

/// The frames of a buffer of `buffer_len` frames that lie at or after
/// `trim_start`.
pub open spec fn available_frames(buffer_len: nat, trim_start: nat) -> nat {
    if buffer_len > trim_start {
        (buffer_len - trim_start) as nat
    } else {
        0
    }
}

/// The playback window of a voice that asked for `length` frames from
/// `trim_start` on: the request, cut to what the buffer holds.
pub open spec fn window_frames(length: nat, buffer_len: nat, trim_start: nat) -> nat {
    if length <= available_frames(buffer_len, trim_start) {
        length
    } else {
        available_frames(buffer_len, trim_start)
    }
}

/// How one call of [`Voice::render_into`] on a block of `block_len` frames
/// moves an active voice on. A voice whose window is empty stops. Otherwise
/// the window's length is settled and the voice writes some frames: fewer
/// than the block holds only if it stops, and never more in all than its
/// window is long. A voice that has written as many frames as its window is
/// long stops without writing another, and a voice that writes nothing keeps
/// its position.
pub open spec fn advanced(before: Voice, buffer_len: nat, after: Voice, block_len: nat) -> bool {
    let window = window_frames(before.length as nat, buffer_len, before.trim_start as nat);
    let written = after.frames_rendered - before.frames_rendered;
    if window == 0 {
        after == before.stopped()
    } else {
        &&& before.same_trigger(after)
        &&& after.length == window
        &&& 0 <= written <= block_len
        &&& written > 0 ==> after.frames_rendered <= window
        &&& written < block_len ==> !after.active
        &&& written == 0 ==> after.pos == before.pos
        &&& before.frames_rendered >= window && block_len > 0 ==> written == 0
    }
}

/// Whether a voice stops before its next frame for a reason that needs no
/// arithmetic: it has written as many frames as its window is long; or,
/// unless it stutters, its cursor has left the window, below zero in reverse
/// or at or beyond `span` forwards; or `last`, the position of the window's
/// last frame, lies before zero.
pub open spec fn leaves_window(span: u32, last: u32, v: Voice) -> bool {
    ||| v.frames_rendered >= v.length
    ||| v.stutter_period is None && v.reverse && binary32::less(v.pos, binary32::ZERO)
    ||| v.stutter_period is None && !v.reverse && binary32::at_most(span, v.pos)
    ||| !binary32::at_most(binary32::ZERO, last)
}

/// Whether a voice stops before its next frame: it leaves its window, or the
/// arithmetic puts the frame to read, at the cursor held within the window,
/// at or beyond the window's length.
pub open spec fn halts<M: SampleMath>(math: &M, span: u32, last: u32, v: Voice) -> bool {
    leaves_window(span, last, v) || exists|i: usize| #[trigger]
        is_index(math, binary32::clamped(v.pos, binary32::ZERO, last), i) && i >= v.length
}

/// Whether `sample` is what the voice reads at frame `i` of its window: with
/// the cursor held within the window, the frame there and the next (or the
/// same, at the end of the buffer), interpolated at the cursor's distance
/// from frame `i`.
pub open spec fn sample_read<M: SampleMath>(
    math: &M,
    data: Seq<StereoFrame>,
    last: u32,
    v: Voice,
    i: usize,
    sample: StereoFrame,
) -> bool {
    let read_pos = binary32::clamped(v.pos, binary32::ZERO, last);
    let idx = v.trim_start + i;
    let s0 = data[idx];
    let s1 = if idx + 1 < data.len() {
        data[idx + 1]
    } else {
        s0
    };
    exists|whole: u32, frac: u32|
        {
            &&& #[trigger] is_count(math, i, whole)
            &&& #[trigger] is_difference(math, read_pos, whole, frac)
            &&& lerped(math, s0.left, s1.left, frac, sample.left)
            &&& lerped(math, s0.right, s1.right, frac, sample.right)
        }
}

/// Whether `fade` is the fade towards the live edge of the window: the
/// cursor's distance from it over the fade length, and one at most. In
/// reverse the distance is the cursor itself; forwards it is `span` less the
/// cursor, and zero at least.
pub open spec fn position_fade<M: SampleMath>(math: &M, span: u32, v: Voice, fade: u32) -> bool {
    if v.reverse {
        exists|share: u32| #[trigger]
            is_quotient(math, v.pos, FADE_FRAMES, share) && fade == binary32::lesser(
                share,
                binary32::ONE,
            )
    } else {
        exists|ahead: u32, share: u32|
            {
                &&& #[trigger] is_difference(math, span, v.pos, ahead)
                &&& #[trigger] is_quotient(
                    math,
                    binary32::greater(ahead, binary32::ZERO),
                    FADE_FRAMES,
                    share,
                )
                &&& fade == binary32::lesser(share, binary32::ONE)
            }
    }
}

/// Whether `fade` is the fade towards the end of the lifetime: the frames
/// the voice may still write over the fade length, and one at most.
pub open spec fn lifetime_fade<M: SampleMath>(math: &M, v: Voice, fade: u32) -> bool {
    exists|left: u32, share: u32|
        {
            &&& #[trigger] is_count(math, (v.length - v.frames_rendered) as usize, left)
            &&& #[trigger] is_quotient(math, left, FADE_FRAMES, share)
            &&& fade == binary32::lesser(share, binary32::ONE)
        }
}

/// Whether `gain` is the gain of the voice's next frame: its own gain times
/// the lesser of the two fades.
pub open spec fn gain_faded<M: SampleMath>(math: &M, span: u32, v: Voice, gain: u32) -> bool {
    exists|towards_edge: u32, towards_end: u32|
        {
            &&& #[trigger] position_fade(math, span, v, towards_edge)
            &&& #[trigger] lifetime_fade(math, v, towards_end)
            &&& is_product(math, v.gain, binary32::lesser(towards_edge, towards_end), gain)
        }
}

/// Whether one channel of a frame is the sample times the gain, added to
/// what the frame held.
pub open spec fn channel_mixed<M: SampleMath>(
    math: &M,
    under: u32,
    sample: u32,
    gain: u32,
    mixed: u32,
) -> bool {
    exists|scaled: u32| #[trigger]
        is_product(math, sample, gain, scaled) && is_sum(math, under, scaled, mixed)
}

/// Whether both channels of `mixed` are the sample times the gain, added to
/// what `under` held.
pub open spec fn scaled_onto<M: SampleMath>(
    math: &M,
    under: StereoFrame,
    sample: StereoFrame,
    gain: u32,
    mixed: StereoFrame,
) -> bool {
    channel_mixed(math, under.left, sample.left, gain, mixed.left) && channel_mixed(
        math,
        under.right,
        sample.right,
        gain,
        mixed.right,
    )
}

/// Whether `pos` is the cursor `stepped` wrapped into the stutter period. A
/// voice that does not stutter keeps `stepped`. The period is the lesser of
/// the voice's period and `span`; a period that is not above zero wraps
/// nothing. Forwards, a cursor at or beyond the period becomes its remainder
/// by the period. In reverse, a cursor below zero becomes its remainder plus
/// the period, or zero where the remainder is zero.
pub open spec fn cursor_wrapped<M: SampleMath>(
    math: &M,
    span: u32,
    v: Voice,
    stepped: u32,
    pos: u32,
) -> bool {
    match v.stutter_period {
        None => pos == stepped,
        Some(period) => exists|frames: u32| #[trigger]
            is_count(math, period as usize, frames) && {
                let p = binary32::lesser(frames, span);
                if !binary32::less(binary32::ZERO, p) {
                    pos == stepped
                } else if v.reverse {
                    if binary32::less(stepped, binary32::ZERO) {
                        exists|rest: u32| #[trigger]
                            is_remainder(math, stepped, p, rest) && if binary32::less(
                                rest,
                                binary32::ZERO,
                            ) {
                                is_sum(math, rest, p, pos)
                            } else if binary32::nan(rest) {
                                pos == rest
                            } else {
                                pos == binary32::ZERO
                            }
                    } else {
                        pos == stepped
                    }
                } else if binary32::at_most(p, stepped) {
                    is_remainder(math, stepped, p, pos)
                } else {
                    pos == stepped
                }
            },
    }
}

/// Whether `pos` is where the cursor stands after a frame: moved by the
/// pitch, down in reverse and up forwards, and wrapped into the stutter
/// period.
pub open spec fn cursor_moved<M: SampleMath>(math: &M, span: u32, v: Voice, pos: u32) -> bool {
    exists|stepped: u32| #[trigger]
        cursor_wrapped(math, span, v, stepped, pos) && if v.reverse {
            is_difference(math, v.pos, v.pitch, stepped)
        } else {
            is_sum(math, v.pos, v.pitch, stepped)
        }
}

/// Whether the voice `before` plays one frame onto `under`, giving `mixed`,
/// and is `after` then. The voice does not stop; it reads the frame that the
/// arithmetic gives for the cursor held within the window, which lies within
/// the window; the sample read there, times the faded gain, is added to
/// `under`; the cursor moves on and the frame is counted. Nothing else
/// changes.
pub open spec fn frame_played<M: SampleMath>(
    math: &M,
    data: Seq<StereoFrame>,
    span: u32,
    last: u32,
    before: Voice,
    under: StereoFrame,
    after: Voice,
    mixed: StereoFrame,
) -> bool {
    &&& !leaves_window(span, last, before)
    &&& exists|i: usize, sample: StereoFrame, gain: u32|
        {
            &&& #[trigger] is_index(
                math,
                binary32::clamped(before.pos, binary32::ZERO, last),
                i,
            )
            &&& i < before.length
            &&& #[trigger] sample_read(math, data, last, before, i, sample)
            &&& #[trigger] gain_faded(math, span, before, gain)
            &&& scaled_onto(math, under, sample, gain, mixed)
        }
    &&& cursor_moved(math, span, before, after.pos)
    &&& after == (Voice {
        pos: after.pos,
        frames_rendered: (before.frames_rendered + 1) as usize,
        ..before
    })
}

/// Whether an active voice with a window of `window` frames, rendered into a
/// block, goes through `steps`, one state before each frame it writes and
/// one after the last. `span` and `last` are what the arithmetic gives for
/// the window's length and for the position of its last frame. The voice
/// writes the first frames of the block, each as [`frame_played`] says. It
/// writes fewer frames than the block holds only where it [`halts`], and is
/// stopped then.
pub open spec fn played_through<M: SampleMath>(
    math: &M,
    data: Seq<StereoFrame>,
    window: usize,
    before: Voice,
    after: Voice,
    block_before: Seq<StereoFrame>,
    block_after: Seq<StereoFrame>,
    span: u32,
    last: u32,
    steps: Seq<Voice>,
) -> bool {
    let written = after.frames_rendered - before.frames_rendered;
    &&& is_count(math, window, span)
    &&& is_difference(math, span, binary32::ONE, last)
    &&& steps.len() == written + 1
    &&& steps[0] == (Voice { length: window, ..before })
    &&& forall|j: int|
        #![trigger steps[j]]
        0 <= j < written ==> frame_played(
            math,
            data,
            span,
            last,
            steps[j],
            block_before[j],
            steps[j + 1],
            block_after[j],
        )
    &&& written < block_before.len() ==> halts(math, span, last, steps[written]) && after
        == steps[written].stopped()
    &&& written == block_before.len() ==> after == steps[written]
}

/// What one call of [`Voice::render_into`] does to an active voice and to
/// the block it renders into: the voice moves on as [`advanced`] says, adds
/// to the frames it writes, which are the first of the block, and leaves the
/// rest of the block alone. Where its window is not empty, it goes through
/// its frames as [`played_through`] says.
pub open spec fn rendered<M: SampleMath>(
    math: &M,
    before: Voice,
    data: Seq<StereoFrame>,
    after: Voice,
    block_before: Seq<StereoFrame>,
    block_after: Seq<StereoFrame>,
) -> bool {
    let window = window_frames(before.length as nat, data.len(), before.trim_start as nat);
    let written = after.frames_rendered - before.frames_rendered;
    &&& advanced(before, data.len(), after, block_before.len())
    &&& block_after.len() == block_before.len()
    &&& forall|j: int| written <= j < block_before.len() ==> block_after[j] == block_before[j]
    &&& window > 0 ==> exists|span: u32, last: u32, steps: Seq<Voice>| #[trigger]
        played_through(
            math,
            data,
            window as usize,
            before,
            after,
            block_before,
            block_after,
            span,
            last,
            steps,
        )
}

/// Whether `last` is a value that `math` gives for the position of the last
/// frame of a window of `length` frames: `length - 1`.
pub open spec fn is_last_position<M: SampleMath>(math: &M, length: usize, last: u32) -> bool {
    exists|span: u32| #[trigger]
        is_count(math, length, span) && is_difference(math, span, binary32::ONE, last)
}

/// Whether `after` is the voice `before` with its cursor moved to `pos`,
/// held between zero and the position of the window's last frame. Nothing
/// but the cursor changes. The cursor stays where it is if the window is
/// empty, or if the arithmetic puts the last frame before zero.
pub open spec fn repositioned<M: SampleMath>(
    math: &M,
    before: Voice,
    pos: u32,
    after: Voice,
) -> bool {
    &&& before.moved_to(after)
    &&& before.length > 0 ==> exists|last: u32| #[trigger]
        is_last_position(math, before.length, last) && after.pos == if binary32::at_most(
            binary32::ZERO,
            last,
        ) {
            binary32::clamped(pos, binary32::ZERO, last)
        } else {
            before.pos
        }
}

/// A playback cursor over a window of a sample buffer. `pos`, `pitch` and
/// `gain` are binary32 bit patterns; `pos` counts frames from the start of
/// the window.
#[derive(Clone, Copy, Debug)]
pub struct Voice {
    pub pos: u32,
    pub pitch: u32,
    pub gain: u32,
    pub active: bool,
    pub reverse: bool,
    /// The offset of the window into the buffer.
    pub trim_start: usize,
    /// The length of the window, in frames.
    pub length: usize,
    /// The stutter period in frames, if the voice loops.
    pub stutter_period: Option<u32>,
    /// The number of frames written so far. It bounds the voice's lifetime,
    /// looping or not.
    pub frames_rendered: usize,
}

impl Voice {
    /// This voice with its active flag cleared and nothing else changed.
    pub open spec fn stopped(self) -> Voice {
        Voice { active: false, ..self }
    }

    /// Whether `other` is this voice further along: the same trigger
    /// parameters, with only the cursor, the window's length, the frame count
    /// and the active flag free to differ.
    pub open spec fn same_trigger(self, other: Voice) -> bool {
        &&& other.pitch == self.pitch
        &&& other.gain == self.gain
        &&& other.reverse == self.reverse
        &&& other.trim_start == self.trim_start
        &&& other.stutter_period == self.stutter_period
    }

    /// Whether `other` is this voice with its cursor moved and nothing else
    /// changed. The cursor of a voice with an empty window does not move.
    pub open spec fn moved_to(self, other: Voice) -> bool {
        &&& other == Voice { pos: other.pos, ..self }
        &&& self.length == 0 ==> other.pos == self.pos
    }

    /// A fresh, active voice. A forward voice starts at position zero; a
    /// reverse voice over a non-empty window starts at its last frame.
    pub fn new<M: SampleMath>(
        trim_start: usize,
        length: usize,
        pitch: u32,
        gain: u32,
        reverse: bool,
        stutter_period: Option<u32>,
        math: &M,
    ) -> (voice: Voice)
        ensures
            voice.active,
            voice.pitch == pitch,
            voice.gain == gain,
            voice.reverse == reverse,
            voice.trim_start == trim_start,
            voice.length == length,
            voice.stutter_period == stutter_period,
            voice.frames_rendered == 0,
            !reverse || length == 0 ==> voice.pos == binary32::ZERO,
            reverse && length > 0 ==> is_count(math, (length - 1) as usize, voice.pos),
    {
        let pos = if reverse && length > 0 {
            math.from_count(length - 1)
        } else {
            binary32::ZERO
        };
        Voice {
            pos,
            pitch,
            gain,
            active: true,
            reverse,
            trim_start,
            length,
            stutter_period,
            frames_rendered: 0,
        }
    }

    /// Moves the cursor to `pos`, held within the window: between zero and
    /// the position of the window's last frame. A voice with an empty window
    /// keeps its position, and so does one for which the arithmetic puts the
    /// last frame before zero.
    pub fn set_pos<M: SampleMath>(&mut self, pos: u32, math: &M)
        ensures
            repositioned(math, *old(self), pos, *final(self)),
            binary32::nan(pos) ==> final(self).pos == pos || final(self).pos == old(self).pos,
    {
        if self.length > 0 {
            let span = math.from_count(self.length);
            let last = math.difference(span, binary32::ONE);
            assert(is_count(math, self.length, span));
            assert(is_last_position(math, self.length, last));
            if binary32::le(binary32::ZERO, last) {
                self.pos = binary32::clamp(pos, binary32::ZERO, last);
            }
        }
    }

    /// Adds the voice's next frames to `out`, one per frame of the block,
    /// until the block is full or the voice stops.
    ///
    /// For each frame the voice stops if it has written as many frames as
    /// its window is long or, unless it stutters, if its cursor has left the
    /// window. Otherwise it reads the buffer at the cursor, held within the
    /// window, interpolating between the frame there and the next; scales
    /// the sample by the gain and by the smaller of two fades, one towards
    /// the window's live edge and one towards the end of the lifetime; adds
    /// the result to the block's frame; moves the cursor by the pitch; and,
    /// if it stutters, wraps the cursor into the stutter period.
    pub fn render_into<M: SampleMath>(
        &mut self,
        buffer: &SampleBuffer,
        out: &mut Vec<StereoFrame>,
        math: &M,
    )
        ensures
            final(out).len() == old(out).len(),
            !old(self).active ==> *final(self) == *old(self) && final(out)@ == old(out)@,
            old(self).active ==> rendered(
                math,
                *old(self),
                buffer@,
                *final(self),
                old(out)@,
                final(out)@,
            ),
    {
        if !self.active {
            return ;
        }
        let total = buffer.data.len();
        if total <= self.trim_start {
            self.active = false;
            return ;
        }
        let available = total - self.trim_start;
        if self.length > available {
            self.length = available;
        }
        if self.length == 0 {
            self.active = false;
            return ;
        }
        let span = math.from_count(self.length);
        let last = math.difference(span, binary32::ONE);
        let ghost window = self.length;
        let ghost mut steps: Seq<Voice> = seq![*self];
        let n = out.len();
        let mut j: usize = 0;
        while j < n && self.active
            invariant
                j <= n,
                n == out.len(),
                n == old(out).len(),
                old(self).same_trigger(*self),
                0 < self.length,
                self.length == window,
                window == window_frames(
                    old(self).length as nat,
                    buffer@.len(),
                    old(self).trim_start as nat,
                ),
                self.trim_start + self.length <= buffer@.len(),
                self.frames_rendered - old(self).frames_rendered == j,
                !self.active ==> j < n,
                self.frames_rendered == old(self).frames_rendered ==> self.pos == old(self).pos,
                old(self).frames_rendered >= self.length ==> self.frames_rendered == old(
                    self,
                ).frames_rendered,
                self.frames_rendered > old(self).frames_rendered ==> self.frames_rendered
                    <= self.length,
                forall|t: int| j <= t < n ==> out@[t] == old(out)@[t],
                steps.len() == j + 1,
                steps[0] == (Voice { length: window, ..*old(self) }),
                forall|t: int|
                    #![trigger steps[t]]
                    0 <= t < j ==> frame_played(
                        math,
                        buffer@,
                        span,
                        last,
                        steps[t],
                        old(out)@[t],
                        steps[t + 1],
                        out@[t],
                    ),
                self.active ==> *self == steps[j as int],
                !self.active ==> halts(math, span, last, steps[j as int]) && *self
                    == steps[j as int].stopped(),
            decreases n - j + (if self.active { 1int } else { 0int }),
        {
            let ghost before_steps = steps;
            let ghost block = out@;
            let mixed = self.next_frame(buffer, span, last, out[j], math);
            match mixed {
                Some(frame) => {
                    out.set(j, frame);
                    proof {
                        steps = before_steps.push(*self);
                        assert forall|t: int| #![trigger steps[t]] 0 <= t < j + 1 implies frame_played(
                            math,
                            buffer@,
                            span,
                            last,
                            steps[t],
                            old(out)@[t],
                            steps[t + 1],
                            out@[t],
                        ) by {
                            if t < j {
                                assert(steps[t] == before_steps[t]);
                                assert(steps[t + 1] == before_steps[t + 1]);
                                assert(out@[t] == block[t]);
                            }
                        }
                    }
                    j += 1;
                },
                None => {},
            }
        }
        proof {
            let settled = window_frames(
                old(self).length as nat,
                buffer@.len(),
                old(self).trim_start as nat,
            );
            assert(settled as usize == window);
            assert(played_through(
                math,
                buffer@,
                settled as usize,
                *old(self),
                *self,
                old(out)@,
                out@,
                span,
                last,
                steps,
            ));
            assert(advanced(*old(self), buffer@.len(), *self, old(out)@.len()));
        }
    }

    /// Renders one frame on top of `under` and moves on, or stops the voice.
    fn next_frame<M: SampleMath>(
        &mut self,
        buffer: &SampleBuffer,
        span: u32,
        last: u32,
        under: StereoFrame,
        math: &M,
    ) -> (mixed: Option<StereoFrame>)
        requires
            old(self).active,
            0 < old(self).length,
            old(self).trim_start + old(self).length <= buffer@.len(),
        ensures
            old(self).same_trigger(*final(self)),
            final(self).length == old(self).length,
            match mixed {
                Some(frame) => {
                    &&& final(self).active
                    &&& old(self).frames_rendered < old(self).length
                    &&& final(self).frames_rendered == old(self).frames_rendered + 1
                    &&& frame_played(
                        math,
                        buffer@,
                        span,
                        last,
                        *old(self),
                        under,
                        *final(self),
                        frame,
                    )
                },
                None => halts(math, span, last, *old(self)) && *final(self) == old(
                    self,
                ).stopped(),
            },
    {
        if self.frames_rendered >= self.length {
            self.active = false;
            return None;
        }
        if self.stutter_period.is_none() {
            if self.reverse && binary32::lt(self.pos, binary32::ZERO) {
                self.active = false;
                return None;
            }
            if !self.reverse && binary32::le(span, self.pos) {
                self.active = false;
                return None;
            }
        }
        if !binary32::le(binary32::ZERO, last) {
            self.active = false;
            return None;
        }
        let read_pos = binary32::clamp(self.pos, binary32::ZERO, last);
        let i = math.to_index(read_pos);
        assert(is_index(math, read_pos, i));
        if i >= self.length {
            self.active = false;
            return None;
        }
        let sample = self.read(buffer, last, i, math);
        let gain = self.faded_gain(span, math);
        let mixed = scale_onto(under, sample, gain, math);
        let pos = self.moved_cursor(span, math);
        self.pos = pos;
        self.frames_rendered += 1;
        Some(mixed)
    }

    /// The sample at frame `i` of the window, interpolated at the cursor.
    fn read<M: SampleMath>(&self, buffer: &SampleBuffer, last: u32, i: usize, math: &M) -> (sample:
        StereoFrame)
        requires
            i < self.length,
            self.trim_start + self.length <= buffer@.len(),
            binary32::at_most(binary32::ZERO, last),
        ensures
            sample_read(math, buffer@, last, *self, i, sample),
    {
        let read_pos = binary32::clamp(self.pos, binary32::ZERO, last);
        let whole = math.from_count(i);
        let frac = math.difference(read_pos, whole);
        let total = buffer.data.len();
        let idx = self.trim_start + i;
        let s0 = buffer.data[idx];
        let s1 = if idx + 1 < total {
            buffer.data[idx + 1]
        } else {
            s0
        };
        let left = lerp(s0.left, s1.left, frac, math);
        let right = lerp(s0.right, s1.right, frac, math);
        assert(is_count(math, i, whole) && is_difference(math, read_pos, whole, frac));
        StereoFrame { left, right }
    }

    /// The gain of the next frame: the voice's gain times the lesser of the
    /// fade towards the window's live edge and the fade towards the end of
    /// the lifetime.
    fn faded_gain<M: SampleMath>(&self, span: u32, math: &M) -> (gain: u32)
        requires
            self.frames_rendered < self.length,
        ensures
            gain_faded(math, span, *self, gain),
    {
        let towards_edge = if self.reverse {
            let share = math.quotient(self.pos, FADE_FRAMES);
            assert(is_quotient(math, self.pos, FADE_FRAMES, share));
            binary32::min(share, binary32::ONE)
        } else {
            let ahead = math.difference(span, self.pos);
            let share = math.quotient(binary32::max(ahead, binary32::ZERO), FADE_FRAMES);
            assert(is_difference(math, span, self.pos, ahead) && is_quotient(
                math,
                binary32::greater(ahead, binary32::ZERO),
                FADE_FRAMES,
                share,
            ));
            binary32::min(share, binary32::ONE)
        };
        assert(position_fade(math, span, *self, towards_edge));
        let left = math.from_count(self.length - self.frames_rendered);
        let share = math.quotient(left, FADE_FRAMES);
        let towards_end = binary32::min(share, binary32::ONE);
        assert(is_count(math, (self.length - self.frames_rendered) as usize, left) && is_quotient(
            math,
            left,
            FADE_FRAMES,
            share,
        ));
        assert(lifetime_fade(math, *self, towards_end));
        math.product(self.gain, binary32::min(towards_edge, towards_end))
    }

    /// Where the cursor stands after a frame: moved by the pitch and wrapped
    /// into the stutter period.
    fn moved_cursor<M: SampleMath>(&self, span: u32, math: &M) -> (pos: u32)
        ensures
            cursor_moved(math, span, *self, pos),
    {
        let stepped = if self.reverse {
            math.difference(self.pos, self.pitch)
        } else {
            math.sum(self.pos, self.pitch)
        };
        let pos = match self.stutter_period {
            Some(period) => {
                let frames = math.from_count(period as usize);
                assert(is_count(math, period as usize, frames));
                let p = binary32::min(frames, span);
                if binary32::lt(binary32::ZERO, p) {
                    if self.reverse {
                        if binary32::lt(stepped, binary32::ZERO) {
                            let rest = math.remainder(stepped, p);
                            assert(is_remainder(math, stepped, p, rest));
                            if binary32::lt(rest, binary32::ZERO) {
                                math.sum(rest, p)
                            } else if binary32::is_nan(rest) {
                                rest
                            } else {
                                binary32::ZERO
                            }
                        } else {
                            stepped
                        }
                    } else if binary32::le(p, stepped) {
                        math.remainder(stepped, p)
                    } else {
                        stepped
                    }
                } else {
                    stepped
                }
            },
            None => stepped,
        };
        assert(cursor_wrapped(math, span, *self, stepped, pos));
        pos
    }

    /// Whether the voice is still playing.
    pub fn is_active(&self) -> (active: bool)
        ensures
            active == self.active,
    {
        self.active
    }

    /// Stops the voice at once, without a fade.
    pub fn kill(&mut self)
        ensures
            *final(self) == old(self).stopped(),
    {
        self.active = false;
    }
}

/// A voice whose window starts at or beyond the end of its buffer stops on
/// its first render and writes nothing.
pub proof fn lemma_trim_past_end_stops<M: SampleMath>(
    math: &M,
    before: Voice,
    data: Seq<StereoFrame>,
    after: Voice,
    block_before: Seq<StereoFrame>,
    block_after: Seq<StereoFrame>,
)
    requires
        before.trim_start >= data.len(),
        rendered(math, before, data, after, block_before, block_after),
    ensures
        !after.active,
        after == before.stopped(),
        block_after == block_before,
{
    assert(block_after =~= block_before);
}

/// A block played in two parts is the block played whole: a voice that
/// renders one block, is still active, and renders a second, the same counts
/// `span` and `last` of its window serving both times, has rendered the two
/// blocks joined, going through the states of the first and then those of
/// the second.
pub proof fn lemma_blocks_in_turn<M: SampleMath>(
    math: &M,
    data: Seq<StereoFrame>,
    start: Voice,
    between: Voice,
    end: Voice,
    first_before: Seq<StereoFrame>,
    first_after: Seq<StereoFrame>,
    second_before: Seq<StereoFrame>,
    second_after: Seq<StereoFrame>,
    span: u32,
    last: u32,
    first_steps: Seq<Voice>,
    second_steps: Seq<Voice>,
)
    requires
        between.active,
        rendered(math, start, data, between, first_before, first_after),
        rendered(math, between, data, end, second_before, second_after),
        played_through(
            math,
            data,
            window_frames(start.length as nat, data.len(), start.trim_start as nat) as usize,
            start,
            between,
            first_before,
            first_after,
            span,
            last,
            first_steps,
        ),
        played_through(
            math,
            data,
            window_frames(start.length as nat, data.len(), start.trim_start as nat) as usize,
            between,
            end,
            second_before,
            second_after,
            span,
            last,
            second_steps,
        ),
    ensures
        rendered(
            math,
            start,
            data,
            end,
            first_before + second_before,
            first_after + second_after,
        ),
{
    let window = window_frames(start.length as nat, data.len(), start.trim_start as nat) as usize;
    let a = first_before.len() as int;
    let steps = first_steps.take(a) + second_steps;
    let block_before = first_before + second_before;
    let block_after = first_after + second_after;
    let written = end.frames_rendered - start.frames_rendered;
    assert(between.frames_rendered - start.frames_rendered == a);
    assert(second_steps[0] == between);
    assert(first_steps[a] == between);
    assert forall|j: int| #![trigger steps[j]] 0 <= j < written implies frame_played(
        math,
        data,
        span,
        last,
        steps[j],
        block_before[j],
        steps[j + 1],
        block_after[j],
    ) by {
        if j < a {
            assert(steps[j] == first_steps[j]);
            assert(steps[j + 1] == first_steps[j + 1]);
        } else {
            assert(steps[j] == second_steps[j - a]);
            assert(steps[j + 1] == second_steps[j - a + 1]);
        }
    }
    assert(steps[written] == second_steps[written - a]);
    assert(played_through(
        math,
        data,
        window,
        start,
        end,
        block_before,
        block_after,
        span,
        last,
        steps,
    ));
}

/// A voice that stops within a block has rendered any longer block that
/// begins with it: what follows the block is left as it was.
pub proof fn lemma_stopped_within_block<M: SampleMath>(
    math: &M,
    data: Seq<StereoFrame>,
    start: Voice,
    end: Voice,
    block_before: Seq<StereoFrame>,
    block_after: Seq<StereoFrame>,
    rest: Seq<StereoFrame>,
)
    requires
        start.active,
        !end.active,
        rendered(math, start, data, end, block_before, block_after),
    ensures
        rendered(math, start, data, end, block_before + rest, block_after + rest),
{
    let window = window_frames(start.length as nat, data.len(), start.trim_start as nat);
    let longer_before = block_before + rest;
    let longer_after = block_after + rest;
    if window > 0 {
        let (span, last, steps) = choose|span: u32, last: u32, steps: Seq<Voice>| #[trigger]
            played_through(
                math,
                data,
                window as usize,
                start,
                end,
                block_before,
                block_after,
                span,
                last,
                steps,
            );
        let written = end.frames_rendered - start.frames_rendered;
        if written == block_before.len() {
            lemma_steps_stay_active(
                math,
                data,
                span,
                last,
                block_before,
                block_after,
                steps,
                written,
            );
        }
        assert(written < block_before.len());
        assert forall|j: int| #![trigger steps[j]] 0 <= j < written implies frame_played(
            math,
            data,
            span,
            last,
            steps[j],
            longer_before[j],
            steps[j + 1],
            longer_after[j],
        ) by {
            assert(longer_before[j] == block_before[j]);
            assert(longer_after[j] == block_after[j]);
        }
        assert(played_through(
            math,
            data,
            window as usize,
            start,
            end,
            longer_before,
            longer_after,
            span,
            last,
            steps,
        ));
    }
}

/// The states that a voice goes through while it writes frames keep the
/// active flag of the first.
proof fn lemma_steps_stay_active<M: SampleMath>(
    math: &M,
    data: Seq<StereoFrame>,
    span: u32,
    last: u32,
    block_before: Seq<StereoFrame>,
    block_after: Seq<StereoFrame>,
    steps: Seq<Voice>,
    upto: int,
)
    requires
        0 <= upto < steps.len(),
        forall|j: int|
            #![trigger steps[j]]
            0 <= j < steps.len() - 1 ==> frame_played(
                math,
                data,
                span,
                last,
                steps[j],
                block_before[j],
                steps[j + 1],
                block_after[j],
            ),
    ensures
        steps[upto].active == steps[0].active,
    decreases upto,
{
    if upto > 0 {
        lemma_steps_stay_active(
            math,
            data,
            span,
            last,
            block_before,
            block_after,
            steps,
            upto - 1,
        );
        assert(frame_played(
            math,
            data,
            span,
            last,
            steps[upto - 1],
            block_before[upto - 1],
            steps[upto],
            block_after[upto - 1],
        ));
    }
}

/// A voice never writes more frames in all than its window is long: once
/// its window is settled, its frame count stays within it.
pub proof fn lemma_lifetime_is_bounded(before: Voice, buffer_len: nat, after: Voice, block_len: nat)
    requires
        advanced(before, buffer_len, after, block_len),
        before.frames_rendered <= window_frames(
            before.length as nat,
            buffer_len,
            before.trim_start as nat,
        ),
    ensures
        after.frames_rendered <= window_frames(
            before.length as nat,
            buffer_len,
            before.trim_start as nat,
        ),
        window_frames(after.length as nat, buffer_len, after.trim_start as nat) == window_frames(
            before.length as nat,
            buffer_len,
            before.trim_start as nat,
        ),
{
}

/// Adds the sample, times the gain, to what the frame held.
fn scale_onto<M: SampleMath>(under: StereoFrame, sample: StereoFrame, gain: u32, math: &M) -> (mixed:
    StereoFrame)
    ensures
        scaled_onto(math, under, sample, gain, mixed),
{
    let left_scaled = math.product(sample.left, gain);
    let left = math.sum(under.left, left_scaled);
    assert(is_product(math, sample.left, gain, left_scaled));
    let right_scaled = math.product(sample.right, gain);
    let right = math.sum(under.right, right_scaled);
    assert(is_product(math, sample.right, gain, right_scaled));
    StereoFrame { left, right }
}

/// Whether `r` is a value that `math` gives for the linear interpolation
/// from `a` to `b` at `t`: `a * (1 - t) + b * t`.
pub open spec fn lerped<M: SampleMath>(math: &M, a: u32, b: u32, t: u32, r: u32) -> bool {
    exists|rest: u32, from_a: u32, from_b: u32|
        {
            &&& is_difference(math, binary32::ONE, t, rest)
            &&& #[trigger] is_product(math, a, rest, from_a)
            &&& #[trigger] is_product(math, b, t, from_b)
            &&& is_sum(math, from_a, from_b, r)
        }
}

/// Linear interpolation from `a` to `b`: `a * (1 - t) + b * t`.
pub(crate) fn lerp<M: SampleMath>(a: u32, b: u32, t: u32, math: &M) -> (r: u32)
    ensures
        lerped(math, a, b, t, r),
{
    let rest = math.difference(binary32::ONE, t);
    let from_a = math.product(a, rest);
    let from_b = math.product(b, t);
    let r = math.sum(from_a, from_b);
    assert(is_product(math, a, rest, from_a) && is_product(math, b, t, from_b));
    r
}

} // verus!
