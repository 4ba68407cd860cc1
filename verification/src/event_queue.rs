use crate::neuron_id::NeuronId;
use crate::num::Num;
use crate::Timestep;
use vstd::prelude::*;

verus! {

/// An externally scheduled stimulus: inject current `weight` into neuron
/// `neuron` at time step `at`.
#[derive(Debug, Copy, Clone, PartialEq, Eq, Structural)]
pub struct Event {
    pub at: Timestep,
    pub neuron: NeuronId,
    pub weight: Num,
}

/// Whether some queued event is due at exactly time `at`.
pub open spec fn spec_has_ready(q: Seq<Event>, at: int) -> bool {
    exists|i: int| 0 <= i < q.len() && (#[trigger] q[i]).at == at
}

/// The position of the earliest-queued event due at exactly time `at`.
pub open spec fn spec_first_ready(q: Seq<Event>, at: int) -> int
    decreases q.len(),
{
    if q.len() == 0 {
        0
    } else if q[0].at == at {
        0
    } else {
        1 + spec_first_ready(q.drop_first(), at)
    }
}

proof fn lemma_first_ready(q: Seq<Event>, at: int, i: int)
    requires
        0 <= i < q.len(),
        q[i].at == at,
        forall|j: int| 0 <= j < i ==> (#[trigger] q[j]).at != at,
    ensures
        spec_has_ready(q, at),
        spec_first_ready(q, at) == i,
    decreases i,
{
    reveal_with_fuel(spec_first_ready, 2);
    if i > 0 {
        assert forall|j: int| 0 <= j < i - 1 implies (#[trigger] q.drop_first()[j]).at != at by {
            assert(q.drop_first()[j] == q[j + 1]);
        };
        assert(q.drop_first()[i - 1] == q[i]);
        lemma_first_ready(q.drop_first(), at, i - 1);
    }
}

/// A min-priority queue of external stimulus events, ordered by ascending
/// scheduled time step; insertion order decides among events due at the
/// same step.
pub struct EventQueue {
    events: Vec<Event>,
}

impl View for EventQueue {
    type V = Seq<Event>;

    closed spec fn view(&self) -> Seq<Event> {
        self.events@
    }
}

impl EventQueue {
    /// An empty queue.
    pub fn new() -> (r: EventQueue)
        ensures
            r@ == Seq::<Event>::empty(),
    {
        let r = EventQueue { events: Vec::new() };
        proof {
            assert(r@ =~= Seq::<Event>::empty());
        }
        r
    }

    /// Add an event to the queue.
    pub fn push(&mut self, ev: Event)
        ensures
            final(self)@ == old(self)@.push(ev),
    {
        self.events.push(ev);
    }

    /// How many events are queued.
    pub fn len(&self) -> (r: usize)
        ensures
            r == self@.len(),
    {
        self.events.len()
    }

    /// Pop one event due at exactly time `at`, if any: the earliest-queued
    /// such event is removed and returned; `None` is returned, and the
    /// queue left unchanged, when the queue is empty or every queued event
    /// is still in the future. Repeated calls drain all events due at
    /// `at`, one per call.
    ///
    /// Querying with a time later than a queued event's would mean a
    /// stale event was never processed; callers must not do so.
    pub fn pop_next_event_at(&mut self, at: Timestep) -> (r: Option<Event>)
        requires
            forall|i: int| 0 <= i < old(self)@.len() ==> (#[trigger] old(self)@[i]).at >= at,
        ensures
            !spec_has_ready(old(self)@, at as int) ==> r is None && final(self)@ == old(self)@,
            spec_has_ready(old(self)@, at as int) ==> r == Some(
                old(self)@[spec_first_ready(old(self)@, at as int)],
            ) && final(self)@ == old(self)@.remove(spec_first_ready(old(self)@, at as int)),
    {
        let n = self.events.len();
        let mut j: usize = 0;
        while j < n
            invariant
                n == self@.len(),
                j <= n,
                *self == *old(self),
                forall|i: int| 0 <= i < n ==> (#[trigger] self@[i]).at >= at,
                forall|jj: int| 0 <= jj < j ==> (#[trigger] self@[jj]).at != at,
            decreases n - j,
        {
            if self.events[j].at <= at {
                proof {
                    lemma_first_ready(self@, at as int, j as int);
                }
                let ev = self.events.remove(j);
                return Some(ev);
            }
            j = j + 1;
        }
        proof {
            assert(!spec_has_ready(self@, at as int));
        }
        None
    }
}

} // verus!
