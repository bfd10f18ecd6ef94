//! The history cache unit: a fixed-capacity, most-recent-first buffer of
//! published lines, answering synchronous last-n queries.

use crate::messages::{LastN, PublishTick};
use std::collections::VecDeque;
use vstd::prelude::*;

verus! {

/// A unit subscribed to tick events that keeps the most recent lines, newest
/// first, never holding more than its capacity.
pub struct CacheActor {
    capacity: usize,
    cache: VecDeque<String>,
}

/// The views of a sequence of owned lines.
pub open spec fn views_of(lines: Seq<String>) -> Seq<Seq<char>> {
    lines.map_values(|s: String| s@)
}

/// What one insertion does to the buffer: the new line goes to the front,
/// and the oldest line falls off the back when the buffer is full.
pub open spec fn insert_spec(lines: Seq<Seq<char>>, cap: nat, line: Seq<char>) -> Seq<Seq<char>> {
    if lines.len() + 1 <= cap {
        seq![line] + lines
    } else {
        (seq![line] + lines).take(cap as int)
    }
}

/// The buffer contents after a sequence of inserts, applied oldest first,
/// into an initially empty cache of capacity `cap`.
pub open spec fn run_inserts(inserts: Seq<Seq<char>>, cap: nat) -> Seq<Seq<char>>
    decreases inserts.len(),
{
    if inserts.len() == 0 {
        Seq::empty()
    } else {
        insert_spec(run_inserts(inserts.drop_last(), cap), cap, inserts.last())
    }
}

/// History recency: after any sequence of inserts into an empty cache, the
/// buffer holds the most recent inserts, in reverse insertion order, and its
/// length never exceeds the capacity.
pub proof fn lemma_history(inserts: Seq<Seq<char>>, cap: nat)
    ensures
        run_inserts(inserts, cap).len() == if inserts.len() <= cap {
            inserts.len()
        } else {
            cap
        },
        forall|k: int|
            0 <= k < run_inserts(inserts, cap).len() ==> #[trigger] run_inserts(inserts, cap)[k]
                == inserts[inserts.len() - 1 - k],
    decreases inserts.len(),
{
    if inserts.len() > 0 {
        lemma_history(inserts.drop_last(), cap);
    }
}

/// The last-n view of a filled cache: for any `k` within both the number of
/// inserts and the capacity, the first `k` buffered lines are exactly the
/// `k` most recently inserted ones, most recent first.
pub proof fn lemma_history_last(inserts: Seq<Seq<char>>, cap: nat, k: int)
    requires
        0 <= k <= inserts.len(),
        k <= cap,
    ensures
        run_inserts(inserts, cap).take(k).len() == k,
        forall|j: int|
            0 <= j < k ==> #[trigger] run_inserts(inserts, cap).take(k)[j] == inserts[inserts.len()
                - 1 - j],
{
    lemma_history(inserts, cap);
}

impl CacheActor {
    /// The cached lines, most recent first.
    pub closed spec fn lines(&self) -> Seq<Seq<char>> {
        views_of(self.cache@)
    }

    /// The fixed capacity chosen at construction.
    pub closed spec fn cap(&self) -> nat {
        self.capacity as nat
    }

    /// The buffer never holds more lines than its capacity.
    pub open spec fn wf(&self) -> bool {
        self.lines().len() <= self.cap()
    }

    /// The kinds this unit subscribes to on start.
    pub fn subscriptions(&self) -> (r: Vec<crate::bus::EventKind>)
        ensures
            r@ == seq![crate::bus::EventKind::Tick],
    {
        let mut r: Vec<crate::bus::EventKind> = Vec::new();
        r.push(crate::bus::EventKind::Tick);
        proof {
            assert(r@ =~= seq![crate::bus::EventKind::Tick]);
        }
        r
    }

    /// An empty cache with the given capacity.
    pub fn with_capacity(capacity: usize) -> (r: Self)
        ensures
            r.wf(),
            r.cap() == capacity,
            r.lines() == Seq::<Seq<char>>::empty(),
    {
        let r = CacheActor { capacity, cache: VecDeque::new() };
        proof {
            assert(r.lines() =~= Seq::<Seq<char>>::empty());
        }
        r
    }

    /// Buffer a published line: push it to the front, evicting from the back
    /// if the capacity would be exceeded.
    pub fn handle_tick(&mut self, msg: PublishTick)
        requires
            old(self).wf(),
        ensures
            final(self).wf(),
            final(self).cap() == old(self).cap(),
            final(self).lines() == insert_spec(old(self).lines(), old(self).cap(), msg.0@),
    {
        if self.cache.len() >= self.capacity {
            self.cache.pop_back();
        }
        if self.cache.len() < self.capacity {
            self.cache.push_front(msg.0);
        }
        proof {
            assert(final(self).lines() =~= insert_spec(
                old(self).lines(),
                old(self).cap(),
                msg.0@,
            ));
        }
    }

    /// Answer a last-n query: the first `min(n, length)` cached lines, most
    /// recent first.
    pub fn handle_last_n(&self, msg: LastN) -> (r: Vec<String>)
        ensures
            views_of(r@) == self.lines().take(
                if msg.0 <= self.lines().len() {
                    msg.0 as int
                } else {
                    self.lines().len() as int
                },
            ),
    {
        let n = if msg.0 <= self.cache.len() {
            msg.0
        } else {
            self.cache.len()
        };
        let mut out: Vec<String> = Vec::new();
        let mut i: usize = 0;
        while i < n
            invariant
                0 <= i <= n <= self.cache@.len(),
                out@.len() == i,
                views_of(out@) =~= self.lines().take(i as int),
            decreases n - i,
        {
            let line = self.cache[i].clone();
            out.push(line);
            proof {
                assert(views_of(out@) =~= self.lines().take(i + 1));
            }
            i += 1;
        }
        out
    }
}

impl Default for CacheActor {
    /// An empty cache with the default capacity of one hundred lines.
    fn default() -> (r: Self)
        ensures
            r.wf(),
            r.cap() == 100,
            r.lines() == Seq::<Seq<char>>::empty(),
    {
        Self::with_capacity(100)
    }
}

} // verus!
