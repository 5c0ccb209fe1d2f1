//! The broadcast state bus: a bounded queue per subscriber, immediate
//! publication that drops the oldest entry of a full queue rather than
//! blocking, and first-in-first-out delivery per subscriber.

use vstd::prelude::*;

use crate::state::AnyState;

verus! {

/// A broadcast bus over device state changes.
pub struct StateBus {
    queues: Vec<Vec<AnyState>>,
    capacity: usize,
    max_subscribers: usize,
}

impl StateBus {
    /// The pending messages of each subscriber, oldest first.
    pub closed spec fn queues(&self) -> Seq<Seq<AnyState>> {
        Seq::new(self.queues@.len(), |i: int| self.queues@[i]@)
    }

    /// The per-subscriber queue bound.
    pub closed spec fn spec_capacity(&self) -> usize {
        self.capacity
    }

    /// The bound on the number of subscribers.
    pub closed spec fn spec_max_subscribers(&self) -> usize {
        self.max_subscribers
    }

    /// Every queue respects the bound, and so does the subscriber count.
    pub open spec fn wf(&self) -> bool {
        self.spec_capacity() >= 1 && self.queues().len() <= self.spec_max_subscribers()
            && forall|i: int|
            0 <= i < self.queues().len() ==> (#[trigger] self.queues()[i]).len()
                <= self.spec_capacity()
    }

    /// An empty bus with the given per-subscriber queue bound and subscriber
    /// bound.
    pub fn new(capacity: usize, max_subscribers: usize) -> (r: StateBus)
        requires
            capacity >= 1,
        ensures
            r.wf(),
            r.queues().len() == 0,
            r.spec_capacity() == capacity,
            r.spec_max_subscribers() == max_subscribers,
    {
        StateBus { queues: Vec::new(), capacity, max_subscribers }
    }

    /// Attaches a subscriber and hands back its id; refused once the
    /// subscriber bound is reached. A new subscriber starts with an empty
    /// queue: retained state does not flow through the bus, each session
    /// replays it from its own cache.
    pub fn subscriber(&mut self) -> (r: Option<usize>)
        requires
            old(self).wf(),
        ensures
            final(self).wf(),
            final(self).spec_capacity() == old(self).spec_capacity(),
            final(self).spec_max_subscribers() == old(self).spec_max_subscribers(),
            match r {
                Some(id) => old(self).queues().len() < old(self).spec_max_subscribers() && id
                    == old(self).queues().len() && final(self).queues() == old(
                    self,
                ).queues().push(Seq::<AnyState>::empty()),
                None => old(self).queues().len() >= old(self).spec_max_subscribers()
                    && final(self).queues() == old(self).queues(),
            },
    {
        if self.queues.len() >= self.max_subscribers {
            proof {
                assert(final(self).queues() =~= old(self).queues());
            }
            return None;
        }
        let id = self.queues.len();
        self.queues.push(Vec::new());
        proof {
            assert(final(self).queues() =~= old(self).queues().push(Seq::<AnyState>::empty()));
        }
        Some(id)
    }

    /// What one queue holds after an immediate publication: the message is
    /// appended; a full queue loses its oldest entry first.
    pub open spec fn published(q: Seq<AnyState>, s: AnyState, capacity: usize) -> Seq<AnyState> {
        if q.len() >= capacity {
            q.drop_first().push(s)
        } else {
            q.push(s)
        }
    }

    /// Publishes a state change to every subscriber at once, never
    /// blocking: a slow subscriber with a full queue loses its oldest
    /// pending message.
    pub fn publish_immediate(&mut self, s: AnyState)
        requires
            old(self).wf(),
        ensures
            final(self).wf(),
            final(self).spec_capacity() == old(self).spec_capacity(),
            final(self).spec_max_subscribers() == old(self).spec_max_subscribers(),
            final(self).queues().len() == old(self).queues().len(),
            forall|i: int|
                0 <= i < old(self).queues().len() ==> #[trigger] final(self).queues()[i]
                    == Self::published(old(self).queues()[i], s, old(self).spec_capacity()),
    {
        let n = self.queues.len();
        proof {
            assert forall|k: int| 0 <= k < n implies (#[trigger] self.queues@[k]@).len()
                <= self.capacity by {
                assert(self.queues()[k] == self.queues@[k]@);
                assert(self.queues()[k].len() <= self.spec_capacity());
            }
        }
        let mut i: usize = 0;
        while i < n
            invariant
                0 <= i <= n,
                n == self.queues@.len(),
                n == old(self).queues().len(),
                self.capacity == old(self).spec_capacity(),
                self.max_subscribers == old(self).spec_max_subscribers(),
                self.capacity >= 1,
                forall|k: int|
                    i <= k < n ==> #[trigger] self.queues@[k]@ == old(self).queues()[k],
                forall|k: int|
                    0 <= k < i ==> #[trigger] self.queues@[k]@ == Self::published(
                        old(self).queues()[k],
                        s,
                        old(self).spec_capacity(),
                    ),
                forall|k: int|
                    0 <= k < n ==> (#[trigger] self.queues@[k]@).len() <= self.capacity,
            decreases n - i,
        {
            let mut q = self.queues.remove(i);
            let ghost qpre = q@;
            if q.len() >= self.capacity {
                q.remove(0);
                proof {
                    assert(q@ =~= qpre.drop_first());
                }
            }
            q.push(s);
            proof {
                assert(q@ =~= Self::published(qpre, s, self.capacity));
            }
            self.queues.insert(i, q);
            i += 1;
        }
        proof {
            assert(final(self).queues().len() == old(self).queues().len());
        }
    }

    /// Takes the oldest pending message of a subscriber, preserving the
    /// publication order; nothing when its queue is empty.
    pub fn receive(&mut self, id: usize) -> (r: Option<AnyState>)
        requires
            old(self).wf(),
            id < old(self).queues().len(),
        ensures
            final(self).wf(),
            final(self).spec_capacity() == old(self).spec_capacity(),
            final(self).spec_max_subscribers() == old(self).spec_max_subscribers(),
            final(self).queues().len() == old(self).queues().len(),
            forall|i: int|
                0 <= i < old(self).queues().len() && i != id ==> #[trigger] final(self).queues()[i]
                    == old(self).queues()[i],
            match r {
                Some(s) => old(self).queues()[id as int].len() > 0 && s == old(
                    self,
                ).queues()[id as int][0] && final(self).queues()[id as int] == old(
                    self,
                ).queues()[id as int].drop_first(),
                None => old(self).queues()[id as int].len() == 0 && final(self).queues()[id as int]
                    == old(self).queues()[id as int],
            },
    {
        let mut q = self.queues.remove(id);
        let ghost qpre = q@;
        let r: Option<AnyState>;
        if q.len() > 0 {
            let s = q.remove(0);
            proof {
                assert(q@ =~= qpre.drop_first());
            }
            r = Some(s);
        } else {
            r = None;
        }
        self.queues.insert(id, q);
        proof {
            assert(forall|i: int|
                0 <= i < old(self).queues().len() && i != id
                    ==> #[trigger] final(self).queues()[i] == old(self).queues()[i]);
        }
        r
    }
}

} // verus!
