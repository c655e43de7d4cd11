//! Sample identities.

use vstd::prelude::*;

verus! {

/// The identity of a sample: an opaque number with no meaning beyond being
/// different from every other identity handed out.
#[derive(Clone, Copy, Debug, PartialEq, Eq, Hash, Structural)]
pub struct SampleId(pub u64);

/// A counter that hands out sample identities in increasing order. One
/// counter serves a whole process.
#[derive(Debug)]
pub struct SampleIdCounter {
    next: u64,
}

impl SampleIdCounter {
    /// The number that the next identity will carry.
    pub closed spec fn upcoming(self) -> u64 {
        self.next
    }

    /// A counter that starts at zero.
    pub fn new() -> (counter: SampleIdCounter)
        ensures
            counter.upcoming() == 0,
    {
        SampleIdCounter { next: 0 }
    }
}

/// The number that follows `n` in a counter, which starts over after the
/// largest one.
pub open spec fn following(n: u64) -> u64 {
    if n == u64::MAX {
        0
    } else {
        (n + 1) as u64
    }
}

/// Hands out the next identity and moves the counter on.
pub fn next_sample_id(counter: &mut SampleIdCounter) -> (id: SampleId)
    ensures
        id == SampleId(old(counter).upcoming()),
        final(counter).upcoming() == following(old(counter).upcoming()),
{
    let id = SampleId(counter.next);
    counter.next = counter.next.wrapping_add(1);
    id
}

/// `steps` applications of [`following`] to `n`.
pub open spec fn advanced(n: u64, steps: nat) -> u64
    decreases steps,
{
    if steps == 0 {
        n
    } else {
        following(advanced(n, (steps - 1) as nat))
    }
}

/// Identities are unique until the counter has gone once round: moving on
/// from `n` by at least one step and fewer than 2^64 steps never comes back
/// to `n`.
pub proof fn lemma_ids_distinct(n: u64, steps: nat)
    requires
        0 < steps < 0x1_0000_0000_0000_0000,
    ensures
        advanced(n, steps) != n,
{
    lemma_advanced_value(n, steps);
}

/// Where the counter stands after `steps` steps from `n`.
proof fn lemma_advanced_value(n: u64, steps: nat)
    ensures
        advanced(n, steps) == (n + steps) % 0x1_0000_0000_0000_0000,
    decreases steps,
{
    if steps > 0 {
        lemma_advanced_value(n, (steps - 1) as nat);
    }
}

} // verus!
