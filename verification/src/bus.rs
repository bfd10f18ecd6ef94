//! An in-process publish/subscribe broadcast bus.
//!
//! Events are keyed by kind; any number of mailboxes may subscribe per kind.
//! Publishing appends the event to the queue of every accepting subscriber of
//! that kind, in registration order; a mailbox that can no longer accept (its
//! unit stopped) silently misses that one delivery without affecting any
//! other subscriber or the publisher.

use crate::messages::{PublishError, PublishTick};
use std::collections::VecDeque;
use vstd::prelude::*;

verus! {

/// The kind of an event, the key by which subscriptions are registered.
#[derive(Clone, Copy, PartialEq, Eq, Structural, Debug)]
pub enum EventKind {
    Tick,
    Error,
}

/// An event flowing over the bus.
pub enum BusEvent {
    Tick(PublishTick),
    Error(PublishError),
}

impl Clone for BusEvent {
    fn clone(&self) -> (res: Self)
        ensures
            res == *self,
    {
        match self {
            BusEvent::Tick(t) => BusEvent::Tick(t.clone()),
            BusEvent::Error(e) => BusEvent::Error(e.clone()),
        }
    }
}

impl BusEvent {
    /// The kind under which this event is routed.
    pub open spec fn kind(&self) -> EventKind {
        match self {
            BusEvent::Tick(_) => EventKind::Tick,
            BusEvent::Error(_) => EventKind::Error,
        }
    }
}

/// One subscriber's private queue of pending events.
struct Mailbox {
    accepting: bool,
    queue: VecDeque<BusEvent>,
}

proof fn lemma_take_push_contains(s: Seq<usize>, k: int, id: usize)
    requires
        0 <= k < s.len(),
    ensures
        s.take(k + 1).contains(id) == (s.take(k).contains(id) || s[k] == id),
{
    assert(s.take(k + 1) =~= s.take(k).push(s[k]));
    if s.take(k).contains(id) {
        let i = choose|i: int| 0 <= i < s.take(k).len() && #[trigger] s.take(k)[i] == id;
        assert(s.take(k + 1)[i] == id);
    }
    if s[k] == id {
        assert(s.take(k + 1)[k] == id);
    }
    if s.take(k + 1).contains(id) {
        let i = choose|i: int| 0 <= i < s.take(k + 1).len() && #[trigger] s.take(k + 1)[i] == id;
        if i < k {
            assert(s.take(k)[i] == id);
        }
    }
}

/// Whether `list` holds `id`.
fn contains_id(list: &Vec<usize>, id: usize) -> (b: bool)
    ensures
        b == list@.contains(id),
{
    let mut k: usize = 0;
    let mut found = false;
    while k < list.len()
        invariant
            0 <= k <= list@.len(),
            found == list@.take(k as int).contains(id),
        decreases list@.len() - k,
    {
        proof {
            lemma_take_push_contains(list@, k as int, id);
        }
        if list[k] == id {
            found = true;
        }
        k += 1;
    }
    proof {
        assert(list@.take(list@.len() as int) =~= list@);
    }
    found
}

/// The broadcast bus: a registry from event kind to the mailboxes subscribed
/// to it, together with the mailboxes themselves.
pub struct Bus {
    mailboxes: Vec<Mailbox>,
    tick_subs: Vec<usize>,
    error_subs: Vec<usize>,
}

impl Bus {
    /// How many mailboxes have been registered.
    pub closed spec fn n_mailboxes(&self) -> nat {
        self.mailboxes@.len()
    }

    /// The pending events of mailbox `id`, oldest first.
    pub closed spec fn queue(&self, id: usize) -> Seq<BusEvent> {
        self.mailboxes@[id as int].queue@
    }

    /// Whether mailbox `id` still accepts deliveries.
    pub closed spec fn accepting(&self, id: usize) -> bool {
        self.mailboxes@[id as int].accepting
    }

    /// The mailboxes subscribed to `kind`, in subscription order.
    pub closed spec fn subs(&self, kind: EventKind) -> Seq<usize> {
        match kind {
            EventKind::Tick => self.tick_subs@,
            EventKind::Error => self.error_subs@,
        }
    }

    /// Whether mailbox `id` is subscribed to `kind`.
    pub open spec fn subscribed(&self, kind: EventKind, id: usize) -> bool {
        self.subs(kind).contains(id)
    }

    /// Registered ids are valid and no mailbox is subscribed to one kind
    /// twice.
    pub closed spec fn wf(&self) -> bool {
        &&& forall|k: int|
            0 <= k < self.tick_subs@.len() ==> #[trigger] self.tick_subs@[k]
                < self.mailboxes@.len()
        &&& forall|k: int|
            0 <= k < self.error_subs@.len() ==> #[trigger] self.error_subs@[k]
                < self.mailboxes@.len()
        &&& forall|k1: int, k2: int|
            0 <= k1 < k2 < self.tick_subs@.len() ==> #[trigger] self.tick_subs@[k1]
                != #[trigger] self.tick_subs@[k2]
        &&& forall|k1: int, k2: int|
            0 <= k1 < k2 < self.error_subs@.len() ==> #[trigger] self.error_subs@[k1]
                != #[trigger] self.error_subs@[k2]
    }

    /// A bus with no mailboxes and no subscriptions.
    pub fn new() -> (r: Bus)
        ensures
            r.wf(),
            r.n_mailboxes() == 0,
            r.subs(EventKind::Tick) == Seq::<usize>::empty(),
            r.subs(EventKind::Error) == Seq::<usize>::empty(),
    {
        Bus { mailboxes: Vec::new(), tick_subs: Vec::new(), error_subs: Vec::new() }
    }

    /// Register a fresh, accepting, empty mailbox and hand back its id.
    pub fn register(&mut self) -> (id: usize)
        requires
            old(self).wf(),
            old(self).n_mailboxes() < usize::MAX,
        ensures
            final(self).wf(),
            id == old(self).n_mailboxes(),
            final(self).n_mailboxes() == old(self).n_mailboxes() + 1,
            final(self).accepting(id),
            final(self).queue(id) == Seq::<BusEvent>::empty(),
            forall|j: usize|
                j < old(self).n_mailboxes() ==> #[trigger] final(self).queue(j) == old(self).queue(
                    j,
                ) && final(self).accepting(j) == old(self).accepting(j),
            final(self).subs(EventKind::Tick) == old(self).subs(EventKind::Tick),
            final(self).subs(EventKind::Error) == old(self).subs(EventKind::Error),
    {
        let id = self.mailboxes.len();
        self.mailboxes.push(Mailbox { accepting: true, queue: VecDeque::new() });
        id
    }

    /// Mark mailbox `id` as no longer accepting: its unit stopped.
    pub fn stop(&mut self, id: usize)
        requires
            old(self).wf(),
            id < old(self).n_mailboxes(),
        ensures
            final(self).wf(),
            final(self).n_mailboxes() == old(self).n_mailboxes(),
            !final(self).accepting(id),
            final(self).queue(id) == old(self).queue(id),
            forall|j: usize|
                j < final(self).n_mailboxes() && j != id ==> #[trigger] final(self).queue(j)
                    == old(self).queue(j) && final(self).accepting(j) == old(self).accepting(j),
            final(self).subs(EventKind::Tick) == old(self).subs(EventKind::Tick),
            final(self).subs(EventKind::Error) == old(self).subs(EventKind::Error),
    {
        let m = &mut self.mailboxes[id];
        m.accepting = false;
    }

    /// Subscribe mailbox `id` to events of `kind`; registering a mailbox for
    /// a kind it already receives changes nothing.
    pub fn subscribe(&mut self, id: usize, kind: EventKind)
        requires
            old(self).wf(),
            id < old(self).n_mailboxes(),
        ensures
            final(self).wf(),
            final(self).n_mailboxes() == old(self).n_mailboxes(),
            final(self).subscribed(kind, id),
            final(self).subs(kind) == if old(self).subscribed(kind, id) {
                old(self).subs(kind)
            } else {
                old(self).subs(kind).push(id)
            },
            forall|k: EventKind| k != kind ==> #[trigger] final(self).subs(k) == old(self).subs(k),
            forall|j: usize|
                j < final(self).n_mailboxes() ==> #[trigger] final(self).queue(j) == old(
                    self,
                ).queue(j) && final(self).accepting(j) == old(self).accepting(j),
    {
        let found = match kind {
            EventKind::Tick => contains_id(&self.tick_subs, id),
            EventKind::Error => contains_id(&self.error_subs, id),
        };
        if !found {
            match kind {
                EventKind::Tick => self.tick_subs.push(id),
                EventKind::Error => self.error_subs.push(id),
            }
            proof {
                assert(self.subs(kind)[old(self).subs(kind).len() as int] == id);
            }
        }
    }

    /// Hand the event to mailbox `id` if it still accepts; a skipped
    /// delivery changes nothing.
    fn deliver(&mut self, id: usize, event: BusEvent)
        requires
            old(self).wf(),
            id < old(self).n_mailboxes(),
        ensures
            final(self).wf(),
            final(self).n_mailboxes() == old(self).n_mailboxes(),
            final(self).subs(EventKind::Tick) == old(self).subs(EventKind::Tick),
            final(self).subs(EventKind::Error) == old(self).subs(EventKind::Error),
            forall|j: usize|
                j < final(self).n_mailboxes() ==> #[trigger] final(self).accepting(j) == old(
                    self,
                ).accepting(j),
            final(self).queue(id) == if old(self).accepting(id) {
                old(self).queue(id).push(event)
            } else {
                old(self).queue(id)
            },
            forall|j: usize|
                j < final(self).n_mailboxes() && j != id ==> #[trigger] final(self).queue(j)
                    == old(self).queue(j),
    {
        let m = &mut self.mailboxes[id];
        if m.accepting {
            m.queue.push_back(event);
        }
    }

    /// Take the oldest pending event of mailbox `id`, if any.
    pub fn take_next(&mut self, id: usize) -> (r: Option<BusEvent>)
        requires
            old(self).wf(),
            id < old(self).n_mailboxes(),
        ensures
            final(self).wf(),
            final(self).n_mailboxes() == old(self).n_mailboxes(),
            old(self).queue(id).len() == 0 ==> (r matches None && final(self).queue(id) == old(
                self,
            ).queue(id)),
            old(self).queue(id).len() > 0 ==> (r matches Some(e) && e == old(self).queue(id)[0]
                && final(self).queue(id) == old(self).queue(id).drop_first()),
            final(self).accepting(id) == old(self).accepting(id),
            forall|j: usize|
                j < final(self).n_mailboxes() && j != id ==> #[trigger] final(self).queue(j)
                    == old(self).queue(j) && final(self).accepting(j) == old(self).accepting(j),
            final(self).subs(EventKind::Tick) == old(self).subs(EventKind::Tick),
            final(self).subs(EventKind::Error) == old(self).subs(EventKind::Error),
    {
        let m = &mut self.mailboxes[id];
        let r = m.queue.pop_front();
        proof {
            if old(self).queue(id).len() > 0 {
                assert(self.queue(id) =~= old(self).queue(id).drop_first());
            }
        }
        r
    }

    /// What one publish does: every accepting subscriber of the event's kind
    /// gets the event appended to its queue; every other mailbox, and the
    /// registry, are untouched.
    pub open spec fn publish_post(pre: Bus, post: Bus, event: BusEvent) -> bool {
        &&& post.n_mailboxes() == pre.n_mailboxes()
        &&& forall|id: usize|
            id < pre.n_mailboxes() ==> #[trigger] post.queue(id) == if pre.subscribed(
                event.kind(),
                id,
            ) && pre.accepting(id) {
                pre.queue(id).push(event)
            } else {
                pre.queue(id)
            }
        &&& forall|id: usize|
            id < pre.n_mailboxes() ==> #[trigger] post.accepting(id) == pre.accepting(id)
        &&& post.subs(EventKind::Tick) == pre.subs(EventKind::Tick)
        &&& post.subs(EventKind::Error) == pre.subs(EventKind::Error)
    }

    /// Fan the event out to every mailbox subscribed to its kind.
    ///
    /// Delivery cannot fail the publisher: a mailbox that no longer accepts
    /// is skipped, and no skip affects delivery to any other subscriber.
    pub fn publish(&mut self, event: BusEvent)
        requires
            old(self).wf(),
        ensures
            final(self).wf(),
            Bus::publish_post(*old(self), *final(self), event),
    {
        let ghost pre = *old(self);
        let ghost subs_seq = pre.subs(event.kind());
        let n = match &event {
            BusEvent::Tick(_) => self.tick_subs.len(),
            BusEvent::Error(_) => self.error_subs.len(),
        };
        let mut k: usize = 0;
        while k < n
            invariant
                0 <= k <= n,
                self.wf(),
                n == subs_seq.len(),
                subs_seq == pre.subs(event.kind()),
                pre.wf(),
                self.n_mailboxes() == pre.n_mailboxes(),
                self.subs(EventKind::Tick) == pre.subs(EventKind::Tick),
                self.subs(EventKind::Error) == pre.subs(EventKind::Error),
                forall|id: usize|
                    id < pre.n_mailboxes() ==> #[trigger] self.accepting(id) == pre.accepting(id),
                forall|id: usize|
                    id < pre.n_mailboxes() ==> #[trigger] self.queue(id) == if subs_seq.take(
                        k as int,
                    ).contains(id) && pre.accepting(id) {
                        pre.queue(id).push(event)
                    } else {
                        pre.queue(id)
                    },
            decreases n - k,
        {
            let id = match &event {
                BusEvent::Tick(_) => self.tick_subs[k],
                BusEvent::Error(_) => self.error_subs[k],
            };
            proof {
                assert(subs_seq[k as int] == id);
                assert(!subs_seq.take(k as int).contains(id));
                lemma_take_push_contains(subs_seq, k as int, id);
            }
            self.deliver(id, event.clone());
            proof {
                assert(forall|j: usize|
                    j < pre.n_mailboxes() && j != id ==> subs_seq.take(k + 1).contains(j)
                        == subs_seq.take(k as int).contains(j)) by {
                    assert forall|j: usize|
                        j < pre.n_mailboxes() && j != id implies subs_seq.take(k + 1).contains(j)
                        == subs_seq.take(k as int).contains(j) by {
                        lemma_take_push_contains(subs_seq, k as int, j);
                    }
                };
            }
            k += 1;
        }
        proof {
            assert(subs_seq.take(n as int) =~= subs_seq);
        }
    }
}

/// Bus ordering: two events published in order by the same producer are
/// observed by any subscriber of both, accepting throughout, in the same
/// order.
pub proof fn lemma_publish_order(b0: Bus, b1: Bus, b2: Bus, first: BusEvent, second: BusEvent, id: usize)
    requires
        Bus::publish_post(b0, b1, first),
        Bus::publish_post(b1, b2, second),
        id < b0.n_mailboxes(),
        b0.subscribed(first.kind(), id),
        b0.subscribed(second.kind(), id),
        b0.accepting(id),
    ensures
        exists|i: int, j: int|
            0 <= i < j < b2.queue(id).len() && b2.queue(id)[i] == first && b2.queue(id)[j]
                == second,
{
    let q0 = b0.queue(id);
    assert(b1.queue(id) == q0.push(first));
    assert(b2.queue(id) == q0.push(first).push(second));
    let i = q0.len() as int;
    let j = i + 1;
    assert(b2.queue(id)[i] == first && b2.queue(id)[j] == second);
}

/// Failure isolation: an error event published for one symbol does not keep
/// a following tick event from reaching every accepting tick subscriber
/// (cache, sink, console alike).
pub proof fn lemma_error_does_not_block_ticks(
    b0: Bus,
    b1: Bus,
    b2: Bus,
    err: BusEvent,
    tick: BusEvent,
    id: usize,
)
    requires
        Bus::publish_post(b0, b1, err),
        err.kind() == EventKind::Error,
        Bus::publish_post(b1, b2, tick),
        tick.kind() == EventKind::Tick,
        id < b0.n_mailboxes(),
        b0.subscribed(EventKind::Tick, id),
        b0.accepting(id),
    ensures
        b2.queue(id).len() > 0,
        b2.queue(id).last() == tick,
{
    assert(b2.queue(id) == b1.queue(id).push(tick));
}

} // verus!
