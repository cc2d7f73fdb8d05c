//! Monotonic identity allocation.

use vstd::prelude::*;

verus! {

/// A counter that hands out strictly increasing identities.
///
/// It is an explicit value owned by whoever mints identities: each call of
/// `next` takes it by `&mut`, so every increment is indivisible; concurrent
/// writers share it through a lock.
pub struct IdentityAllocator {
    next_value: u64,
}

/// One successful call of `next`: it took the allocator from `before` to
/// `after` and returned `id`.
pub open spec fn issues(before: IdentityAllocator, after: IdentityAllocator, id: u64) -> bool {
    &&& !before.spec_exhausted()
    &&& id == before.view_next()
    &&& after.view_next() == before.view_next() + 1
}

/// In a run of successful calls of `next`, the i-th call returns the starting
/// value plus i.
proof fn lemma_run_counts_up(states: Seq<IdentityAllocator>, issued: Seq<u64>, i: int)
    requires
        states.len() == issued.len() + 1,
        forall|j: int| 0 <= j < issued.len() ==> #[trigger] issues(states[j], states[j + 1], issued[j]),
        0 <= i < states.len(),
    ensures
        states[i].view_next() == states[0].view_next() + i,
        i < issued.len() ==> issued[i] == states[0].view_next() + i,
    decreases i,
{
    if i > 0 {
        lemma_run_counts_up(states, issued, i - 1);
        let j = i - 1;
        assert(issues(states[j], states[j + 1], issued[j]));
    }
    if i < issued.len() {
        assert(issues(states[i], states[i + 1], issued[i]));
    }
}

/// However many calls of `next` succeed one after another (callers that share
/// an allocator take turns, since each call holds it by `&mut`), the
/// identities they return are pairwise distinct, none is below the counter's
/// value before the run, and all are below its value after it.
pub proof fn lemma_issued_identities_distinct(states: Seq<IdentityAllocator>, issued: Seq<u64>)
    requires
        states.len() == issued.len() + 1,
        forall|j: int| 0 <= j < issued.len() ==> #[trigger] issues(states[j], states[j + 1], issued[j]),
    ensures
        issued.no_duplicates(),
        forall|j: int|
            0 <= j < issued.len() ==> states[0].view_next() <= #[trigger] issued[j] && issued[j]
                < states.last().view_next(),
{
    lemma_run_counts_up(states, issued, states.len() - 1);
    assert forall|j: int| 0 <= j < issued.len() implies issued[j] == states[0].view_next() + j by {
        lemma_run_counts_up(states, issued, j);
    }
}

impl IdentityAllocator {
    /// The identity that the next successful call of `next` returns.
    pub closed spec fn view_next(&self) -> nat {
        self.next_value as nat
    }

    /// Whether the identity space is used up.
    pub open spec fn spec_exhausted(&self) -> bool {
        self.view_next() >= u64::MAX
    }

    /// A fresh allocator that starts at zero.
    pub fn new() -> (r: Self)
        ensures
            r.view_next() == 0,
    {
        IdentityAllocator { next_value: 0 }
    }

    /// An allocator whose first identity is `start`.
    pub fn starting_at(start: u64) -> (r: Self)
        ensures
            r.view_next() == start,
    {
        IdentityAllocator { next_value: start }
    }

    /// The identity that the next successful call of `next` returns.
    pub fn peek(&self) -> (r: u64)
        ensures
            r == self.view_next(),
    {
        self.next_value
    }

    /// Whether no identity is left to hand out.
    pub fn is_exhausted(&self) -> (r: bool)
        ensures
            r == self.spec_exhausted(),
    {
        self.next_value == u64::MAX
    }

    /// Issues a fresh identity, or `None` once the identity space is used up
    /// (the counter never wraps around).
    pub fn next(&mut self) -> (r: Option<u64>)
        ensures
            old(self).spec_exhausted() ==> r is None && final(self).view_next() == old(self).view_next(),
            !old(self).spec_exhausted() ==> r is Some && issues(*old(self), *final(self), r->0),
    {
        if self.next_value == u64::MAX {
            None
        } else {
            let id = self.next_value;
            self.next_value = id + 1;
            Some(id)
        }
    }
}

} // verus!
