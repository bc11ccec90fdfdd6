//! Multi-subscriber distribution hub.
//!
//! One `Hub` is one topic. Each subscriber owns an independent bounded
//! queue; publishing appends to every active queue and never blocks. When a
//! queue is full its oldest unread message is dropped and the subscriber is
//! flagged as lagged; other subscribers and the publisher are unaffected. A
//! subscriber only sees messages published after it subscribed (no replay).

use vstd::prelude::*;

verus! {

/// `T::clone` can only hand back a value equal to its input. Publication
/// relies on this to give every subscriber the same message.
pub open spec fn exact_clone<T: Clone>() -> bool {
    forall|a: T, b: T| cloned::<T>(a, b) ==> a == b
}

/// A subscriber's queue length after `k` more messages under bound `cap`:
/// `min(len + k, cap)`.
pub open spec fn spec_len_after(len: int, k: int, cap: int) -> int {
    if len + k <= cap {
        len + k
    } else {
        cap
    }
}

/// Every subscriber active in `pre` saw `k` messages queued between `pre`
/// and `post`: its queue grew by `k` up to the capacity bound, and it is
/// flagged as lagged exactly when something had to be dropped for it (or it
/// already was flagged).
pub open spec fn hub_queues_advanced<T>(pre: Hub<T>, post: Hub<T>, k: int) -> bool {
    forall|s: Subscription|
        pre.is_active(s) ==> #[trigger] post.queue(s).len() == spec_len_after(
            pre.queue(s).len() as int,
            k,
            pre.capacity_spec(),
        ) && post.lagged(s) == (pre.lagged(s) || pre.queue(s).len() + k > pre.capacity_spec())
}

/// A subscriber handle, valid for the hub that issued it.
#[derive(Clone, Copy, Debug, PartialEq, Eq, Structural)]
pub struct Subscription {
    pub id: usize,
}

/// What one call to `recv` yields.
#[derive(Debug)]
pub enum RecvOutcome<T> {
    /// The oldest unread message.
    Msg(T),
    /// Messages were dropped for this subscriber since it last looked; the
    /// flag is cleared and the surviving messages follow.
    Lagged,
    /// Nothing published since the last read.
    Empty,
    /// The handle is not active on this hub.
    Gone,
}

struct SubQueue<T> {
    active: bool,
    queue: Vec<T>,
    lagged: bool,
}

impl<T> SubQueue<T> {
    /// Slot invariant: the queue holds exactly the most recent unread suffix
    /// of the published log, within capacity; a retired slot holds nothing.
    spec fn wf_slot(self, cap: int, log: Seq<T>) -> bool {
        &&& self.queue@.len() <= cap
        &&& self.queue@.len() <= log.len()
        &&& self.queue@ == log.subrange(log.len() - self.queue@.len(), log.len() as int)
        &&& !self.active ==> self.queue@.len() == 0
    }
}

/// Hands one published message to one subscriber slot: queue it, dropping
/// the slot's oldest unread message first when the queue is at capacity.
fn deliver<T: Clone>(sq: &mut SubQueue<T>, msg: &T, cap: usize)
    requires
        exact_clone::<T>(),
        old(sq).queue@.len() <= cap,
        1 <= cap,
    ensures
        final(sq).active == old(sq).active,
        !old(sq).active ==> *final(sq) == *old(sq),
        old(sq).active && old(sq).queue@.len() < cap ==> final(sq).queue@ == old(sq).queue@.push(
            *msg) && final(sq).lagged == old(sq).lagged,
        old(sq).active && old(sq).queue@.len() == cap ==> final(sq).queue@ == old(sq).queue@.remove(
            0).push(*msg) && final(sq).lagged,
{
    if sq.active {
        if sq.queue.len() == cap {
            sq.queue.remove(0);
            sq.lagged = true;
        }
        let m = msg.clone();
        proof {
            assert(cloned::<T>(*msg, m));
        }
        sq.queue.push(m);
    }
}

/// Takes one step of `recv` on one subscriber slot.
fn take_one<T>(sq: &mut SubQueue<T>) -> (r: RecvOutcome<T>)
    ensures
        final(sq).active == old(sq).active,
        !old(sq).active ==> r is Gone && *final(sq) == *old(sq),
        old(sq).active && old(sq).lagged ==> r is Lagged && final(sq).queue@ == old(sq).queue@
            && !final(sq).lagged,
        old(sq).active && !old(sq).lagged && old(sq).queue@.len() == 0 ==> r is Empty
            && *final(sq) == *old(sq),
        old(sq).active && !old(sq).lagged && old(sq).queue@.len() > 0 ==> r == RecvOutcome::<T>::Msg(
            old(sq).queue@[0]) && final(sq).queue@ == old(sq).queue@.remove(0)
            && !final(sq).lagged,
{
    if !sq.active {
        return RecvOutcome::Gone;
    }
    if sq.lagged {
        sq.lagged = false;
        return RecvOutcome::Lagged;
    }
    if sq.queue.len() == 0 {
        return RecvOutcome::Empty;
    }
    let m = sq.queue.remove(0);
    RecvOutcome::Msg(m)
}

/// One publish/subscribe topic with bounded per-subscriber queues and a
/// drop-oldest overflow policy.
pub struct Hub<T> {
    capacity: usize,
    subs: Vec<SubQueue<T>>,
    log: Ghost<Seq<T>>,
}

impl<T> Hub<T> {
    /// Every message ever published on this topic, oldest first.
    pub closed spec fn published(self) -> Seq<T> {
        self.log@
    }

    /// The bound on every subscriber's queue.
    pub closed spec fn capacity_spec(self) -> int {
        self.capacity as int
    }

    /// Whether the handle names a live subscriber of this hub.
    pub closed spec fn is_active(self, s: Subscription) -> bool {
        s.id < self.subs@.len() && self.subs@[s.id as int].active
    }

    /// The subscriber's pending (published, not yet read) messages, oldest
    /// first.
    pub closed spec fn queue(self, s: Subscription) -> Seq<T> {
        self.subs@[s.id as int].queue@
    }

    /// Whether the subscriber has lost messages to overflow since it last
    /// called `recv`.
    pub closed spec fn lagged(self, s: Subscription) -> bool {
        self.subs@[s.id as int].lagged
    }

    /// Hub invariant: each subscriber's queue is exactly the most recent
    /// unread suffix of the published log, never longer than the capacity.
    pub closed spec fn wf(self) -> bool {
        &&& 1 <= self.capacity
        &&& forall|i: int|
            0 <= i < self.subs@.len() ==> (#[trigger] self.subs@[i]).wf_slot(
                self.capacity as int,
                self.log@,
            )
    }

    /// An empty topic: nothing published, nobody subscribed.
    pub fn new(capacity: usize) -> (r: Hub<T>)
        requires
            1 <= capacity,
        ensures
            r.wf(),
            r.published() =~= Seq::<T>::empty(),
            r.capacity_spec() == capacity,
            forall|s: Subscription| !r.is_active(s),
    {
        Hub { capacity, subs: Vec::new(), log: Ghost(Seq::empty()) }
    }

    /// Registers a new subscriber. Its queue starts empty: it observes only
    /// messages published after this call.
    pub fn subscribe(&mut self) -> (s: Subscription)
        requires
            old(self).wf(),
        ensures
            final(self).wf(),
            !old(self).is_active(s),
            final(self).is_active(s),
            final(self).queue(s) =~= Seq::<T>::empty(),
            !final(self).lagged(s),
            final(self).published() == old(self).published(),
            final(self).capacity_spec() == old(self).capacity_spec(),
            forall|s2: Subscription|
                s2.id != s.id ==> #[trigger] final(self).is_active(s2) == old(self).is_active(s2),
            forall|s2: Subscription|
                s2.id != s.id && old(self).is_active(s2) ==> #[trigger] final(self).queue(s2)
                    == old(self).queue(s2) && final(self).lagged(s2) == old(self).lagged(s2),
    {
        let id = self.subs.len();
        proof {
            assert(self.log@.subrange(self.log@.len() as int, self.log@.len() as int) =~= Seq::<
                T,
            >::empty());
        }
        self.subs.push(SubQueue { active: true, queue: Vec::new(), lagged: false });
        Subscription { id }
    }

    /// Retires a subscriber and reclaims its queue; a dead handle is a
    /// no-op.
    pub fn unsubscribe(&mut self, s: Subscription)
        requires
            old(self).wf(),
        ensures
            final(self).wf(),
            !final(self).is_active(s),
            final(self).published() == old(self).published(),
            final(self).capacity_spec() == old(self).capacity_spec(),
            forall|s2: Subscription|
                s2.id != s.id ==> #[trigger] final(self).is_active(s2) == old(self).is_active(s2),
            forall|s2: Subscription|
                s2.id != s.id && old(self).is_active(s2) ==> #[trigger] final(self).queue(s2)
                    == old(self).queue(s2) && final(self).lagged(s2) == old(self).lagged(s2),
    {
        if s.id < self.subs.len() {
            let ghost prelog = self.log@;
            retire(&mut self.subs[s.id]);
            proof {
                assert(prelog.subrange(prelog.len() as int, prelog.len() as int) =~= Seq::<
                    T,
                >::empty());
            }
        }
    }

    /// Appends the message to the log and to every active subscriber's
    /// queue, dropping the oldest unread message of any queue already at
    /// capacity and flagging that subscriber as lagged. Never blocks, never
    /// fails: with no subscribers this only extends the log.
    pub fn publish(&mut self, msg: &T) where T: Clone
        requires
            old(self).wf(),
            exact_clone::<T>(),
        ensures
            final(self).wf(),
            final(self).published() == old(self).published().push(*msg),
            final(self).capacity_spec() == old(self).capacity_spec(),
            forall|s: Subscription| #[trigger]
                final(self).is_active(s) == old(self).is_active(s),
            forall|s: Subscription|
                old(self).is_active(s) && old(self).queue(s).len() < old(self).capacity_spec()
                    ==> #[trigger] final(self).queue(s) == old(self).queue(s).push(*msg)
                    && final(self).lagged(s) == old(self).lagged(s),
            forall|s: Subscription|
                old(self).is_active(s) && old(self).queue(s).len() == old(self).capacity_spec()
                    ==> #[trigger] final(self).queue(s) == old(self).queue(s).drop_first().push(
                    *msg) && final(self).lagged(s),
            hub_queues_advanced(*old(self), *final(self), 1),
    {
        let ghost oldlog = self.log@;
        let ghost oldsubs = self.subs@;
        proof {
            self.log@ = self.log@.push(*msg);
        }
        let cap = self.capacity;
        let n = self.subs.len();
        let mut i: usize = 0;
        while i < n
            invariant
                i <= n,
                n == self.subs@.len(),
                self.subs@.len() == oldsubs.len(),
                self.capacity == old(self).capacity,
                cap == self.capacity,
                1 <= cap,
                exact_clone::<T>(),
                self.log@ == oldlog.push(*msg),
                forall|j: int| i <= j < n ==> self.subs@[j] == oldsubs[j],
                forall|j: int|
                    0 <= j < oldsubs.len() ==> (#[trigger] oldsubs[j]).wf_slot(cap as int, oldlog),
                forall|j: int|
                    0 <= j < i ==> (#[trigger] self.subs@[j]).active == oldsubs[j].active,
                forall|j: int|
                    0 <= j < i ==> (#[trigger] self.subs@[j]).wf_slot(cap as int, self.log@),
                forall|j: int|
                    0 <= j < i && oldsubs[j].active && oldsubs[j].queue@.len() < cap ==> (
                    #[trigger] self.subs@[j]).queue@ == oldsubs[j].queue@.push(*msg)
                        && self.subs@[j].lagged == oldsubs[j].lagged,
                forall|j: int|
                    0 <= j < i && oldsubs[j].active && oldsubs[j].queue@.len() == cap ==> (
                    #[trigger] self.subs@[j]).queue@ == oldsubs[j].queue@.remove(0).push(*msg)
                        && self.subs@[j].lagged,
            decreases n - i,
        {
            let ghost presq = self.subs@[i as int];
            proof {
                assert(self.subs@[i as int] == oldsubs[i as int]);
                assert(oldsubs[i as int].wf_slot(cap as int, oldlog));
            }
            deliver(&mut self.subs[i], msg, cap);
            proof {
                let L = oldlog.len() as int;
                let k = presq.queue@.len() as int;
                let newsq = self.subs@[i as int];
                assert(presq.wf_slot(cap as int, oldlog));
                assert(presq.queue@ == oldlog.subrange(L - k, L));
                if presq.active {
                    if k < cap {
                        assert(newsq.queue@ == presq.queue@.push(*msg));
                        assert(newsq.queue@ =~= self.log@.subrange(
                            self.log@.len() - newsq.queue@.len(),
                            self.log@.len() as int,
                        ));
                    } else {
                        assert(newsq.queue@ == presq.queue@.remove(0).push(*msg));
                        assert(presq.queue@.remove(0) =~= presq.queue@.subrange(1, k));
                        assert(newsq.queue@ =~= self.log@.subrange(
                            self.log@.len() - newsq.queue@.len(),
                            self.log@.len() as int,
                        ));
                    }
                } else {
                    assert(presq.queue@.len() == 0);
                    assert(newsq.queue@ =~= self.log@.subrange(
                        self.log@.len() - newsq.queue@.len(),
                        self.log@.len() as int,
                    ));
                }
                assert(newsq.wf_slot(cap as int, self.log@));
            }
            i = i + 1;
        }
        proof {
            assert forall|s: Subscription|
                old(self).is_active(s) && old(self).queue(s).len()
                    == old(self).capacity_spec() implies #[trigger] final(self).queue(s) == old(
                self).queue(s).drop_first().push(*msg) && final(self).lagged(s) by {
                let j = s.id as int;
                assert(oldsubs[j].queue@.remove(0) =~= oldsubs[j].queue@.drop_first());
            }
            assert forall|s: Subscription|
                old(self).is_active(s) implies #[trigger] self.queue(s).len() == spec_len_after(
                old(self).queue(s).len() as int,
                1,
                old(self).capacity_spec(),
            ) && self.lagged(s) == (old(self).lagged(s) || old(self).queue(s).len() + 1 > old(
                self).capacity_spec()) by {
                let j = s.id as int;
                assert(oldsubs[j].wf_slot(cap as int, oldlog));
                if oldsubs[j].queue@.len() == cap {
                    assert(self.subs@[j].queue@ == oldsubs[j].queue@.remove(0).push(*msg));
                }
            }
        }
    }

    /// Hands the subscriber its oldest unread message. A lag is reported
    /// once, before the surviving messages; an unknown handle gets `Gone`
    /// and nothing changes.
    pub fn recv(&mut self, s: Subscription) -> (r: RecvOutcome<T>)
        requires
            old(self).wf(),
        ensures
            final(self).wf(),
            final(self).published() == old(self).published(),
            final(self).capacity_spec() == old(self).capacity_spec(),
            forall|s2: Subscription| #[trigger]
                final(self).is_active(s2) == old(self).is_active(s2),
            forall|s2: Subscription|
                s2.id != s.id && old(self).is_active(s2) ==> #[trigger] final(self).queue(s2)
                    == old(self).queue(s2) && final(self).lagged(s2) == old(self).lagged(s2),
            !old(self).is_active(s) ==> r is Gone,
            old(self).is_active(s) && old(self).lagged(s) ==> r is Lagged && final(self).queue(s)
                == old(self).queue(s) && !final(self).lagged(s),
            old(self).is_active(s) && !old(self).lagged(s) && old(self).queue(s).len() == 0 ==> r
                is Empty && final(self).queue(s) == old(self).queue(s) && !final(self).lagged(s),
            old(self).is_active(s) && !old(self).lagged(s) && old(self).queue(s).len() > 0 ==> (r
                == RecvOutcome::<T>::Msg(old(self).queue(s)[0]) && final(self).queue(s)
                == old(self).queue(s).drop_first() && !final(self).lagged(s)),
    {
        if s.id >= self.subs.len() {
            return RecvOutcome::Gone;
        }
        let ghost presubs = self.subs@;
        let ghost presq = self.subs@[s.id as int];
        let r = take_one(&mut self.subs[s.id]);
        proof {
            let j = s.id as int;
            let L = self.log@.len() as int;
            let k = presq.queue@.len() as int;
            let newsq = self.subs@[j];
            assert(presubs[j].wf_slot(self.capacity as int, self.log@));
            assert(presq.queue@ == self.log@.subrange(L - k, L));
            if presq.active && !presq.lagged && k > 0 {
                assert(newsq.queue@ == presq.queue@.remove(0));
                assert(newsq.queue@ =~= presq.queue@.drop_first());
                assert(newsq.queue@ =~= self.log@.subrange(L - (k - 1), L));
            }
            assert forall|j2: int| 0 <= j2 < self.subs@.len() implies (
            #[trigger] self.subs@[j2]).wf_slot(self.capacity as int, self.log@) by {
                if j2 != j {
                    assert(self.subs@[j2] == presubs[j2]);
                }
            }
        }
        r
    }

    /// Every subscriber's pending queue is exactly the most recent suffix of
    /// the published log: nothing is reordered, duplicated or invented, and
    /// what overflow drops is always the oldest unread part.
    pub proof fn lemma_queue_is_recent_suffix(&self, s: Subscription)
        requires
            self.wf(),
            self.is_active(s),
        ensures
            self.queue(s) == self.published().subrange(
                self.published().len() - self.queue(s).len(),
                self.published().len() as int,
            ),
            self.queue(s).len() <= self.capacity_spec(),
            1 <= self.capacity_spec(),
    {
    }

    /// A hub that did not move advanced every queue by zero messages.
    pub proof fn lemma_hub_advanced_refl(self)
        requires
            self.wf(),
        ensures
            hub_queues_advanced(self, self, 0),
    {
        assert forall|s: Subscription| self.is_active(s) implies #[trigger] self.queue(s).len()
            == spec_len_after(self.queue(s).len() as int, 0, self.capacity_spec())
            && self.lagged(s) == (self.lagged(s) || self.queue(s).len() + 0
            > self.capacity_spec()) by {
            assert(self.subs@[s.id as int].wf_slot(self.capacity as int, self.log@));
        }
    }

    /// Two successive advances of `k1` then `k2` messages amount to one
    /// advance of `k1 + k2`.
    pub proof fn lemma_hub_advanced_trans(a: Hub<T>, b: Hub<T>, c: Hub<T>, k1: int, k2: int)
        requires
            0 <= k1,
            0 <= k2,
            hub_queues_advanced(a, b, k1),
            hub_queues_advanced(b, c, k2),
            forall|s: Subscription| #[trigger] b.is_active(s) == a.is_active(s),
            b.capacity_spec() == a.capacity_spec(),
        ensures
            hub_queues_advanced(a, c, k1 + k2),
    {
        assert forall|s: Subscription| a.is_active(s) implies #[trigger] c.queue(s).len()
            == spec_len_after(a.queue(s).len() as int, k1 + k2, a.capacity_spec()) && c.lagged(s)
            == (a.lagged(s) || a.queue(s).len() + (k1 + k2) > a.capacity_spec()) by {
            assert(b.queue(s).len() == spec_len_after(
                a.queue(s).len() as int,
                k1,
                a.capacity_spec(),
            ));
            assert(c.queue(s).len() == spec_len_after(
                b.queue(s).len() as int,
                k2,
                b.capacity_spec(),
            ));
        }
    }

    /// Fan-out: two subscribers with pending backlogs of equal length hold
    /// identical message sequences, whatever each did before — every
    /// subscriber sees the same published stream, in the same order.
    pub proof fn lemma_fanout_identical(&self, a: Subscription, b: Subscription)
        requires
            self.wf(),
            self.is_active(a),
            self.is_active(b),
            self.queue(a).len() == self.queue(b).len(),
        ensures
            self.queue(a) == self.queue(b),
    {
        self.lemma_queue_is_recent_suffix(a);
        self.lemma_queue_is_recent_suffix(b);
    }
}

/// Marks one subscriber slot retired and frees its queue.
fn retire<T>(sq: &mut SubQueue<T>)
    ensures
        !final(sq).active,
        final(sq).queue@ =~= Seq::<T>::empty(),
        !final(sq).lagged,
{
    sq.active = false;
    sq.queue = Vec::new();
    sq.lagged = false;
}

} // verus!
