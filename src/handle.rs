use vstd::prelude::*;

verus! {

/// The number of live holders of one subscription's lifetime handle.
///
/// Cloning a handle acquires, dropping one releases; the release that leaves
/// no holder is the one that tells the owning cache the subscription is idle.
///
/// This is the counting rule that a cache's lifetime handle follows, stated
/// on its own. `Receiver` does not run on it: its `Handle` shares an `Arc`,
/// whose strong count the standard library keeps.
pub struct HandleCount {
    holders: u64,
}

/// A holder-count event: `true` for a clone, `false` for a drop.
pub open spec fn step(n: int, clone: bool) -> int {
    if clone { n + 1 } else { n - 1 }
}

/// Whether a drop from `n` holders is the one that leaves none.
pub open spec fn drop_notifies(n: int) -> bool {
    n == 1
}

/// The count after running `events` from `n` holders.
pub open spec fn count_after(n: int, events: Seq<bool>) -> int
    decreases events.len(),
{
    if events.len() == 0 {
        n
    } else {
        count_after(step(n, events[0]), events.drop_first())
    }
}

/// Every event is made by a live holder: the count is positive before each.
pub open spec fn held_throughout(n: int, events: Seq<bool>) -> bool
    decreases events.len(),
{
    events.len() == 0 || (n >= 1 && held_throughout(step(n, events[0]), events.drop_first()))
}

/// How many drops in `events`, run from `n` holders, leave no holder.
pub open spec fn notifications(n: int, events: Seq<bool>) -> nat
    decreases events.len(),
{
    if events.len() == 0 {
        0
    } else {
        (if !events[0] && drop_notifies(n) { 1nat } else { 0nat })
            + notifications(step(n, events[0]), events.drop_first())
    }
}

/// Whatever the order in which holders clone and drop, once all of them are
/// dropped the count has reached zero exactly once.
pub proof fn lemma_last_drop_notifies_once(n: int, events: Seq<bool>)
    requires
        n >= 1,
        held_throughout(n, events),
        count_after(n, events) == 0,
    ensures
        notifications(n, events) == 1,
    decreases events.len(),
{
    if events.len() > 0 {
        let m = step(n, events[0]);
        let rest = events.drop_first();
        assert(held_throughout(m, rest));
        assert(count_after(m, rest) == 0);
        if m == 0 {
            if rest.len() > 0 {
                assert(!held_throughout(m, rest));
            }
            assert(notifications(m, rest) == 0);
        } else {
            lemma_last_drop_notifies_once(m, rest);
        }
    }
}

impl HandleCount {
    pub closed spec fn view(&self) -> int {
        self.holders as int
    }

    /// The count of a newly created subscription, held by its first handle.
    pub fn new() -> (r: Self)
        ensures
            r@ == 1,
    {
        HandleCount { holders: 1 }
    }

    pub fn holders(&self) -> (r: u64)
        ensures
            r == self@,
    {
        self.holders
    }

    /// Records a clone of a handle.
    pub fn acquire(&mut self)
        requires
            old(self)@ >= 1,
            old(self)@ < u64::MAX,
        ensures
            final(self)@ == step(old(self)@, true),
    {
        self.holders = self.holders + 1;
    }

    /// Records a dropped handle; returns whether no holder is left.
    pub fn release(&mut self) -> (idle: bool)
        requires
            old(self)@ >= 1,
        ensures
            final(self)@ == step(old(self)@, false),
            idle == drop_notifies(old(self)@),
            idle == (final(self)@ == 0),
    {
        self.holders = self.holders - 1;
        self.holders == 0
    }
}

} // verus!
