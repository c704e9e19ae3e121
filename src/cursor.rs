use vstd::prelude::*;

verus! {

/// A reader's position in a latest-value broadcast.
///
/// The producer numbers each published snapshot with a version that only
/// grows. A reader remembers the version it last yielded; when it polls, it
/// yields the current snapshot only if that version is newer. Intermediate
/// snapshots published between two polls are skipped, never reordered.
///
/// This states the rule that a stream of profiles follows. `Receiver` does
/// not run on it: a stream built from a receiver polls tokio's watch channel,
/// which keeps its own version.
pub struct VersionCursor {
    seen: u64,
}

/// Whether a poll that finds version `published` after `seen` yields it.
pub open spec fn fresh(seen: int, published: int) -> bool {
    published > seen
}

/// The versions yielded by polls that find `published`, in order, from `seen`.
pub open spec fn yielded(seen: int, published: Seq<int>) -> Seq<int>
    decreases published.len(),
{
    if published.len() == 0 {
        seq![]
    } else {
        let v = published[0];
        let rest = yielded(if fresh(seen, v) { v } else { seen }, published.drop_first());
        if fresh(seen, v) { seq![v].add(rest) } else { rest }
    }
}

pub open spec fn nondecreasing(s: Seq<int>) -> bool {
    forall|i: int, j: int| 0 <= i <= j < s.len() ==> s[i] <= s[j]
}

pub open spec fn increasing(s: Seq<int>) -> bool {
    forall|i: int, j: int| 0 <= i < j < s.len() ==> s[i] < s[j]
}

/// Polling a latest-value broadcast whose versions never go back yields
/// strictly newer versions each time, each newer than where the reader
/// started, and, once the reader has polled after the last publication, the
/// last version yielded is the last one published.
pub proof fn lemma_polls_are_monotonic(seen: int, published: Seq<int>)
    requires
        nondecreasing(published),
    ensures
        increasing(yielded(seen, published)),
        forall|k: int| 0 <= k < yielded(seen, published).len() ==> yielded(seen, published)[k] > seen,
        published.len() > 0 && published.last() > seen ==> yielded(seen, published).len() > 0
            && yielded(seen, published).last() == published.last(),
    decreases published.len(),
{
    if published.len() > 0 {
        let v = published[0];
        let rest = published.drop_first();
        let s2 = if fresh(seen, v) { v } else { seen };
        assert(nondecreasing(rest));
        lemma_polls_are_monotonic(s2, rest);
        let y = yielded(seen, published);
        let yr = yielded(s2, rest);
        if fresh(seen, v) {
            assert(y == seq![v].add(yr));
            assert forall|i: int, j: int| 0 <= i < j < y.len() implies y[i] < y[j] by {
                if i > 0 {
                    assert(y[i] == yr[i - 1]);
                }
                assert(y[j] == yr[j - 1]);
            }
            assert forall|k: int| 0 <= k < y.len() implies y[k] > seen by {
                if k > 0 {
                    assert(y[k] == yr[k - 1]);
                }
            }
            if rest.len() > 0 {
                assert(rest.last() == published.last());
                if rest.last() > v {
                } else {
                    assert(rest.last() >= v);
                    assert(published.last() == v);
                    if yr.len() > 0 {
                        assert(yr[yr.len() - 1] > v);
                        assert(published.last() >= yr[yr.len() - 1]) by {
                            lemma_yielded_bounded(s2, rest);
                        }
                    }
                }
            }
        } else {
            assert(y == yr);
            if rest.len() > 0 {
                assert(rest.last() == published.last());
            }
        }
    }
}

/// Every version yielded is one of the published ones, so none exceeds the last.
pub proof fn lemma_yielded_bounded(seen: int, published: Seq<int>)
    requires
        nondecreasing(published),
        published.len() > 0,
    ensures
        forall|k: int| 0 <= k < yielded(seen, published).len() ==> yielded(seen, published)[k] <= published.last(),
    decreases published.len(),
{
    let v = published[0];
    let rest = published.drop_first();
    let s2 = if fresh(seen, v) { v } else { seen };
    assert(nondecreasing(rest));
    let y = yielded(seen, published);
    let yr = yielded(s2, rest);
    if rest.len() > 0 {
        lemma_yielded_bounded(s2, rest);
        assert(rest.last() == published.last());
    }
    assert forall|k: int| 0 <= k < y.len() implies y[k] <= published.last() by {
        if fresh(seen, v) {
            if k > 0 {
                assert(y[k] == yr[k - 1]);
            } else {
                assert(published[0] <= published[published.len() - 1]);
            }
        }
    }
}

impl VersionCursor {
    pub closed spec fn view(&self) -> int {
        self.seen as int
    }

    /// A cursor that has yielded nothing yet: every version above zero is
    /// fresh to it.
    pub fn new() -> (r: Self)
        ensures
            r@ == 0,
    {
        VersionCursor { seen: 0 }
    }

    pub fn seen(&self) -> (r: u64)
        ensures
            r == self@,
    {
        self.seen
    }

    /// A poll that finds version `published`; returns whether it is yielded.
    pub fn observe(&mut self, published: u64) -> (yield_it: bool)
        ensures
            yield_it == fresh(old(self)@, published as int),
            final(self)@ == if yield_it { published as int } else { old(self)@ },
    {
        if published > self.seen {
            self.seen = published;
            true
        } else {
            false
        }
    }
}

} // verus!
