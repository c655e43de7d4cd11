//! The pre-roll ring: the most recent frames heard before a recording's
//! threshold is crossed.

use vstd::prelude::*;
use crate::frame::StereoFrame;

verus! {

/// What a ring of capacity `capacity` retains of everything pushed so far:
/// the last `capacity` frames of `history`, oldest first.
pub open spec fn retained(capacity: nat, history: Seq<StereoFrame>) -> Seq<StereoFrame> {
    if history.len() <= capacity {
        history
    } else {
        history.subrange(history.len() - capacity, history.len() as int)
    }
}

/// A circular buffer of fixed capacity. A push onto a full ring overwrites
/// the oldest frame.
pub struct PreRollRing {
    data: Vec<StereoFrame>,
    write_pos: usize,
    len: usize,
}

impl PreRollRing {
    #[verifier::type_invariant]
    spec fn well_formed(self) -> bool {
        self.data.len() > 0 ==> {
            &&& self.write_pos < self.data.len()
            &&& self.len <= self.data.len()
            &&& self.len < self.data.len() ==> self.write_pos == self.len
        }
    }

    /// The number of frames the ring can retain.
    pub closed spec fn capacity(self) -> nat {
        self.data.len() as nat
    }

    /// The retained frames in chronological order, oldest first.
    pub closed spec fn view(self) -> Seq<StereoFrame> {
        if self.data.len() == 0 {
            Seq::empty()
        } else if self.len < self.data.len() {
            self.data@.subrange(0, self.len as int)
        } else {
            self.data@.subrange(self.write_pos as int, self.data.len() as int)
                + self.data@.subrange(0, self.write_pos as int)
        }
    }

    /// An empty ring that retains up to `capacity` frames.
    pub fn new(capacity: usize) -> (ring: PreRollRing)
        ensures
            ring.capacity() == capacity,
            ring@ == Seq::<StereoFrame>::empty(),
    {
        let mut data: Vec<StereoFrame> = Vec::new();
        let mut i: usize = 0;
        while i < capacity
            invariant
                i <= capacity,
                data.len() == i,
            decreases capacity - i,
        {
            data.push(StereoFrame::zero());
            i += 1;
        }
        let ring = PreRollRing { data, write_pos: 0, len: 0 };
        assert(ring@ =~= Seq::<StereoFrame>::empty());
        ring
    }

    /// Appends `frame` as the newest; a full ring gives up its oldest frame.
    /// A ring of capacity zero retains nothing.
    pub fn push(&mut self, frame: StereoFrame)
        ensures
            final(self).capacity() == old(self).capacity(),
            final(self)@ == retained(old(self).capacity(), old(self)@.push(frame)),
            final(self)@.len() <= final(self).capacity(),
    {
        proof {
            use_type_invariant(&*self);
        }
        let cap = self.data.len();
        if cap == 0 {
            assert(self@.push(frame).subrange(1, 1) =~= Seq::<StereoFrame>::empty());
            return ;
        }
        let ghost before = *self;
        let mut data: Vec<StereoFrame> = Vec::new();
        std::mem::swap(&mut data, &mut self.data);
        data.set(self.write_pos, frame);
        let write_pos = if self.write_pos + 1 == cap {
            0
        } else {
            self.write_pos + 1
        };
        let len = if self.len < cap {
            self.len + 1
        } else {
            self.len
        };
        *self = PreRollRing { data, write_pos, len };
        assert(self@ =~= retained(before.capacity(), before@.push(frame)));
    }

    /// The retained frames in chronological order, oldest first.
    pub fn drain_ordered(&self) -> (out: Vec<StereoFrame>)
        ensures
            out@ == self@,
            out@.len() <= self.capacity(),
    {
        proof {
            use_type_invariant(self);
        }
        let cap = self.data.len();
        let mut out: Vec<StereoFrame> = Vec::new();
        if self.len == 0 || cap == 0 {
            assert(self@ =~= Seq::<StereoFrame>::empty());
            return out;
        }
        let start = if self.len < cap {
            0
        } else {
            self.write_pos
        };
        let mut i: usize = 0;
        while i < self.len
            invariant
                cap == self.data.len(),
                0 < cap,
                self.len <= cap,
                start < cap,
                start == (if self.len < cap { 0 } else { self.write_pos }),
                i <= self.len,
                out@ == self@.subrange(0, i as int),
                self@.len() == self.len,
            decreases self.len - i,
        {
            let at = if i < cap - start {
                start + i
            } else {
                i - (cap - start)
            };
            out.push(self.data[at]);
            assert(out@ =~= self@.subrange(0, i + 1));
            i += 1;
        }
        assert(out@ =~= self@);
        out
    }

    /// The number of frames retained.
    pub fn len(&self) -> (n: usize)
        ensures
            n == self@.len(),
            n <= self.capacity(),
    {
        proof {
            use_type_invariant(self);
        }
        if self.data.len() == 0 {
            0
        } else {
            self.len
        }
    }
}

/// What a ring retains depends only on everything pushed so far: retaining
/// in between loses nothing that the end result would have kept.
pub proof fn lemma_retained_twice(capacity: nat, history: Seq<StereoFrame>, more: Seq<StereoFrame>)
    ensures
        retained(capacity, retained(capacity, history) + more) == retained(
            capacity,
            history + more,
        ),
{
    assert(retained(capacity, retained(capacity, history) + more) =~= retained(
        capacity,
        history + more,
    ));
}

/// What a ring of capacity `capacity` that retains `held` retains after
/// `frames` have been pushed onto it one by one.
pub open spec fn after_pushes(
    capacity: nat,
    held: Seq<StereoFrame>,
    frames: Seq<StereoFrame>,
) -> Seq<StereoFrame>
    decreases frames.len(),
{
    if frames.len() == 0 {
        held
    } else {
        retained(capacity, after_pushes(capacity, held, frames.drop_last()).push(frames.last()))
    }
}

/// Pushing frames one by one retains the last `capacity` of all that the
/// ring has been given, wherever the write position wraps around.
pub proof fn lemma_pushes_keep_last(
    capacity: nat,
    held: Seq<StereoFrame>,
    frames: Seq<StereoFrame>,
)
    requires
        held.len() <= capacity,
    ensures
        after_pushes(capacity, held, frames) == retained(capacity, held + frames),
    decreases frames.len(),
{
    if frames.len() == 0 {
        assert(held + frames =~= held);
    } else {
        let earlier = frames.drop_last();
        lemma_pushes_keep_last(capacity, held, earlier);
        lemma_retained_twice(capacity, held + earlier, seq![frames.last()]);
        assert(retained(capacity, held + earlier).push(frames.last()) =~= retained(
            capacity,
            held + earlier,
        ) + seq![frames.last()]);
        assert((held + earlier) + seq![frames.last()] =~= held + frames);
    }
}

/// A ring of capacity `capacity` that has been pushed more frames than it
/// can hold retains exactly `capacity` frames: the last ones pushed, oldest
/// first.
pub proof fn lemma_full_ring_keeps_last(capacity: nat, pushed: Seq<StereoFrame>)
    requires
        pushed.len() > capacity,
    ensures
        retained(capacity, pushed).len() == capacity,
        forall|i: int|
            0 <= i < capacity ==> retained(capacity, pushed)[i] == pushed[pushed.len()
                - capacity + i],
{
}

} // verus!
