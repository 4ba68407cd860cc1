use crate::synapse_id::SynapseId;
use vstd::arithmetic::div_mod::{
    lemma_fundamental_div_mod, lemma_mod_bound, lemma_mod_sub_multiples_vanish,
};
use vstd::prelude::*;

verus! {

/// The time-indexed scheduling buffer for delayed spike delivery: a fixed
/// ring of slots, indexed by `time % size`, each holding the synapses
/// whose spikes fall due at one of the next `size` time steps.
///
/// The ghost map `pending` records, for each absolute time step of the
/// current window, exactly which synapse ids are due then — so a spike
/// scheduled for `T + delay` comes back out at exactly `T + delay`,
/// never earlier or later.
pub struct FutureSpikes {
    slots: Vec<Vec<SynapseId>>,
    pending: Ghost<Map<int, Seq<int>>>,
}

/// Two distinct non-negative times less than one window apart never share
/// a ring slot.
proof fn lemma_mod_window_distinct(a: int, b: int, n: int)
    requires
        0 < n,
        0 <= a,
        0 <= b,
        a != b,
        b - a < n,
        a - b < n,
    ensures
        a % n != b % n,
{
    lemma_fundamental_div_mod(a, n);
    lemma_fundamental_div_mod(b, n);
    lemma_mod_bound(a, n);
    lemma_mod_bound(b, n);
    if a % n == b % n {
        let k = b / n - a / n;
        assert(b - a == n * k) by (nonlinear_arith)
            requires
                a == n * (a / n) + (a % n),
                b == n * (b / n) + (b % n),
                a % n == b % n,
                k == b / n - a / n,
        ;
        assert(k == 0) by (nonlinear_arith)
            requires
                -n < n * k < n,
                n > 0,
        ;
        assert(false);
    }
}

impl FutureSpikes {
    /// The number of ring slots.
    pub closed spec fn size(&self) -> int {
        self.slots@.len() as int
    }

    /// The synapse ids due at each absolute time step of the window.
    pub closed spec fn pending(&self) -> Map<int, Seq<int>> {
        self.pending@
    }

    /// Well-formed at current time `now`: the schedule covers exactly the
    /// next `size` time steps, and each ring slot holds exactly what is
    /// due at its time.
    pub closed spec fn wf(&self, now: int) -> bool {
        &&& self.slots@.len() >= 2
        &&& forall|t: int|
            now <= t < now + self.size() ==> #[trigger] self.pending().dom().contains(t)
        &&& forall|t: int|
            #[trigger] self.pending().dom().contains(t) ==> now <= t < now + self.size()
        &&& forall|t: int|
            now <= t < now + self.size() ==> #[trigger] self.pending()[t] == self.slots@[t % (
            self.slots@.len() as int)]@.map_values(|id: SynapseId| id@)
    }

    /// Every scheduled synapse id is below `b`.
    pub open spec fn ids_below(&self, b: int) -> bool {
        forall|t: int, j: int|
            self.pending().dom().contains(t) && 0 <= j < self.pending()[t].len() ==> 0 <= (
            #[trigger] self.pending()[t][j]) < b
    }

    /// The number of ring slots.
    pub fn slot_len(&self) -> (r: usize)
        ensures
            r as int == self.size(),
    {
        self.slots.len()
    }

    /// An empty buffer of `size` slots, well-formed at time zero.
    pub fn new(size: usize) -> (r: FutureSpikes)
        requires
            2 <= size,
        ensures
            r.size() == size,
            r.wf(0),
            forall|t: int| 0 <= t < size ==> #[trigger] r.pending()[t] == Seq::<int>::empty(),
            forall|b: int| #[trigger] r.ids_below(b),
    {
        let mut slots: Vec<Vec<SynapseId>> = Vec::new();
        let mut i: usize = 0;
        while i < size
            invariant
                i <= size,
                slots@.len() == i,
                forall|j: int| 0 <= j < i ==> (#[trigger] slots@[j])@.len() == 0,
            decreases size - i,
        {
            slots.push(Vec::new());
            i = i + 1;
        }
        let r = FutureSpikes {
            slots,
            pending: Ghost(Map::<int, Seq<int>>::new(|t: int| 0 <= t < size, |t: int| Seq::empty())),
        };
        proof {
            assert forall|t: int| 0 <= t < size implies #[trigger] r.pending()[t] == r.slots@[t % (
            r.slots@.len() as int)]@.map_values(|id: SynapseId| id@) by {
                lemma_mod_bound(t, size as int);
                assert(r.slots@[t % (size as int)]@.len() == 0);
                assert(r.slots@[t % (size as int)]@.map_values(|id: SynapseId| id@)
                    =~= Seq::<int>::empty());
            };
            assert forall|b: int| #[trigger] r.ids_below(b) by {
                assert forall|t: int, j: int|
                    r.pending().dom().contains(t) && 0 <= j < r.pending()[t].len() implies 0 <= (
                #[trigger] r.pending()[t][j]) < b by {
                    assert(r.pending()[t].len() == 0);
                };
            };
        }
        r
    }

    /// Schedule the spike of `synapse_id` for delivery at time `due`,
    /// which must fall within the current window.
    pub fn schedule(&mut self, synapse_id: SynapseId, now: usize, due: usize)
        requires
            old(self).wf(now as int),
            now <= due,
            (due as int) < now as int + old(self).size(),
        ensures
            final(self).wf(now as int),
            final(self).size() == old(self).size(),
            final(self).pending() == old(self).pending().insert(
                due as int,
                old(self).pending()[due as int].push(synapse_id@),
            ),
            forall|b: int|
                old(self).ids_below(b) && synapse_id@ < b ==> #[trigger] final(self).ids_below(b),
    {
        let len = self.slots.len();
        let idx = due % len;
        let ghost prev = *self;
        proof {
            use_type_invariant(&synapse_id);
            lemma_mod_bound(due as int, len as int);
        }
        let mut slot = self.slots.remove(idx);
        slot.push(synapse_id);
        self.slots.insert(idx, slot);
        self.pending = Ghost(
            self.pending@.insert(due as int, self.pending@[due as int].push(synapse_id@)),
        );
        proof {
            assert(prev == *old(self));
            assert(self.slots@ =~= prev.slots@.update(idx as int, self.slots@[idx as int]));
            assert forall|t: int| #[trigger] self.pending().dom().contains(t) implies now as int
                <= t < now as int + self.size() by {
                if t != due as int {
                    assert(prev.pending().dom().contains(t));
                }
            };
            assert forall|t: int|
                now as int <= t < now as int + self.size() implies #[trigger] self.pending()[t]
                == self.slots@[t % (self.slots@.len() as int)]@.map_values(
                |id: SynapseId| id@,
            ) by {
                if t == due as int {
                    assert(self.pending()[t] == prev.pending()[t].push(synapse_id@));
                    assert(self.slots@[idx as int]@ =~= prev.slots@[idx as int]@.push(synapse_id));
                    assert(self.slots@[idx as int]@.map_values(|id: SynapseId| id@)
                        =~= prev.slots@[idx as int]@.map_values(|id: SynapseId| id@).push(
                        synapse_id@,
                    ));
                } else {
                    lemma_mod_window_distinct(t, due as int, len as int);
                    lemma_mod_bound(t, len as int);
                    assert(self.pending()[t] == prev.pending()[t]);
                }
            };
            assert forall|b: int|
                old(self).ids_below(b) && synapse_id@ < b implies #[trigger] self.ids_below(
                b,
            ) by {
                assert forall|t: int, j: int|
                    self.pending().dom().contains(t) && 0 <= j < self.pending()[t].len() implies 0
                    <= (#[trigger] self.pending()[t][j]) < b by {
                    assert(prev.pending().dom().contains(due as int));
                    if t == due as int && j == prev.pending()[t].len() {
                        assert(self.pending()[t][j] == synapse_id@);
                    } else {
                        assert(prev.pending().dom().contains(t));
                        assert(prev.pending()[t][j] == self.pending()[t][j]);
                        assert(0 <= prev.pending()[t][j] < b);
                    }
                };
            };
        }
    }

    /// Remove and return exactly the spikes due at time `now`, clearing
    /// their slot; afterwards the buffer is well-formed for time
    /// `now + 1`, with a fresh empty entry at the far end of the window.
    pub fn drain_current(&mut self, now: usize) -> (spikes: Vec<SynapseId>)
        requires
            old(self).wf(now as int),
            now + old(self).size() <= usize::MAX,
        ensures
            final(self).size() == old(self).size(),
            final(self).wf(now as int + 1),
            spikes@.map_values(|id: SynapseId| id@) == old(self).pending()[now as int],
            final(self).pending() == old(self).pending().remove(now as int).insert(
                now as int + old(self).size(),
                Seq::<int>::empty(),
            ),
            forall|b: int| #[trigger] old(self).ids_below(b) ==> final(self).ids_below(b),
            forall|b: int|
                #[trigger] old(self).ids_below(b) ==> forall|k: int|
                    0 <= k < spikes@.len() ==> 0 <= (#[trigger] spikes@[k])@ < b,
    {
        let len = self.slots.len();
        let idx = now % len;
        let ghost prev = *self;
        proof {
            lemma_mod_bound(now as int, len as int);
        }
        let spikes = self.slots.remove(idx);
        self.slots.insert(idx, Vec::new());
        self.pending = Ghost(
            self.pending@.remove(now as int).insert(
                now as int + self.slots.len() as int,
                Seq::<int>::empty(),
            ),
        );
        proof {
            assert(prev == *old(self));
            assert(self.slots@ =~= prev.slots@.update(idx as int, self.slots@[idx as int]));
            assert(spikes@.map_values(|id: SynapseId| id@) == prev.pending()[now as int]);
            let far = now as int + len as int;
            assert forall|t: int| #[trigger] self.pending().dom().contains(t) implies now as int
                + 1 <= t < now as int + 1 + self.size() by {
                if t != far {
                    assert(prev.pending().dom().contains(t));
                }
            };
            lemma_mod_sub_multiples_vanish(far, len as int);
            assert(far % (len as int) == idx as int);
            assert forall|t: int|
                now as int + 1 <= t < now as int + 1 + self.size() implies #[trigger] self.pending(
            )[t] == self.slots@[t % (self.slots@.len() as int)]@.map_values(
                |id: SynapseId| id@,
            ) by {
                if t == far {
                    assert(self.pending()[t] =~= Seq::<int>::empty());
                    assert(self.slots@[idx as int]@.map_values(|id: SynapseId| id@)
                        =~= Seq::<int>::empty());
                } else {
                    lemma_mod_window_distinct(t, now as int, len as int);
                    lemma_mod_bound(t, len as int);
                    assert(self.pending()[t] == prev.pending()[t]);
                }
            };
            assert forall|b: int| #[trigger] old(self).ids_below(b) implies self.ids_below(
                b,
            ) by {
                assert forall|t: int, j: int|
                    self.pending().dom().contains(t) && 0 <= j < self.pending()[t].len() implies 0
                    <= (#[trigger] self.pending()[t][j]) < b by {
                    if t != far {
                        assert(prev.pending().dom().contains(t));
                        assert(prev.pending()[t][j] == self.pending()[t][j]);
                        assert(0 <= prev.pending()[t][j] < b);
                    }
                };
            };
            assert forall|b: int| #[trigger] old(self).ids_below(b) implies (forall|k: int|
                0 <= k < spikes@.len() ==> 0 <= (#[trigger] spikes@[k])@ < b) by {
                assert forall|k: int| 0 <= k < spikes@.len() implies 0 <= (
                #[trigger] spikes@[k])@ < b by {
                    assert(prev.pending().dom().contains(now as int));
                    assert(prev.pending()[now as int][k] == spikes@.map_values(
                        |id: SynapseId| id@,
                    )[k]);
                    assert(0 <= prev.pending()[now as int][k] < b);
                };
            };
        }
        spikes
    }
}

} // verus!
