use crate::neuron::{spec_neuron_step, Neuron, NeuronModel};
use crate::neuron_config::NeuronConfig;
use crate::neuron_id::NeuronId;
use crate::neuron_state::{
    spec_fires, NeuronState, NeuronStateModel, INITIAL_U, INITIAL_V,
};
use crate::num::{sat_add, sat_mul, sat_sub, Num};
use crate::stdp::StdpConfig;
use crate::synapse::{Synapse, SynapseModel};
use crate::synapse_delay::SynapseDelay;
use crate::synapse_id::SynapseId;
use crate::Delay;
use vstd::prelude::*;

verus! {

/// `x` clamped into the interval `[lo, hi]`.
pub open spec fn spec_clamp(x: int, lo: int, hi: int) -> int {
    if x < lo {
        lo
    } else if x > hi {
        hi
    } else {
        x
    }
}

fn clamp(value: Num, min: Num, max: Num) -> (r: Num)
    ensures
        r@ == spec_clamp(value@, min@, max@),
{
    if value.lt(min) {
        min
    } else if max.lt(value) {
        max
    } else {
        value
    }
}

/// Image of one synapse after a weight-update pass: the pending change
/// `eff_d` is applied to the weight, the result clamped into `[lo, hi]`,
/// and `eff_d` decayed.
pub open spec fn spec_weight_update(syn: SynapseModel, lo: int, hi: int, decay: int)
    -> SynapseModel {
    SynapseModel {
        weight: spec_clamp(sat_add(syn.weight, syn.eff_d), lo, hi),
        eff_d: sat_mul(syn.eff_d, decay),
        ..syn
    }
}

/// Image of a network after `connect(pre, post, delay, weight)`: a fresh
/// synapse is appended, registered as outgoing at `pre` and as incoming at
/// `post`, and the recorded maximum delay is raised if needed.
pub open spec fn spec_connect(m: NetworkModel, pre: int, post: int, delay: int, weight: int)
    -> NetworkModel {
    let sid = m.synapses.len() as int;
    let syn = SynapseModel { pre_neuron: pre, post_neuron: post, delay, weight, eff_d: 0 };
    let ns1 = m.neurons.update(
        pre,
        NeuronModel { post_synapses: m.neurons[pre].post_synapses.push(sid), ..m.neurons[pre] },
    );
    let ns2 = ns1.update(
        post,
        NeuronModel { pre_synapses: ns1[post].pre_synapses.push(sid), ..ns1[post] },
    );
    NetworkModel {
        neurons: ns2,
        synapses: m.synapses.push(syn),
        max_delay: if delay > m.max_delay {
            delay
        } else {
            m.max_delay
        },
    }
}

/// Image of a network after neuron `f` is connected to every neuron of
/// `to`, in order, with one fixed delay and weight.
pub open spec fn spec_connect_row(m: NetworkModel, f: int, to: Seq<int>, delay: int, weight: int)
    -> NetworkModel
    decreases to.len(),
{
    if to.len() == 0 {
        m
    } else {
        spec_connect_row(spec_connect(m, f, to[0], delay, weight), f, to.drop_first(), delay, weight)
    }
}

/// Image of a network after every neuron of `from` is connected to every
/// neuron of `to`, in order, with one fixed delay and weight.
pub open spec fn spec_connect_all(
    m: NetworkModel,
    from: Seq<int>,
    to: Seq<int>,
    delay: int,
    weight: int,
) -> NetworkModel
    decreases from.len(),
{
    if from.len() == 0 {
        m
    } else {
        spec_connect_all(
            spec_connect_row(m, from[0], to, delay, weight),
            from.drop_first(),
            to,
            delay,
            weight,
        )
    }
}

proof fn lemma_connect_row_push(m: NetworkModel, f: int, to: Seq<int>, delay: int, weight: int, x: int)
    ensures
        spec_connect_row(m, f, to.push(x), delay, weight) == spec_connect(
            spec_connect_row(m, f, to, delay, weight),
            f,
            x,
            delay,
            weight,
        ),
    decreases to.len(),
{
    reveal_with_fuel(spec_connect_row, 3);
    if to.len() == 0 {
        assert(to.push(x).drop_first() =~= Seq::<int>::empty());
    } else {
        assert(to.push(x).drop_first() =~= to.drop_first().push(x));
        lemma_connect_row_push(spec_connect(m, f, to[0], delay, weight), f, to.drop_first(), delay, weight, x);
    }
}

proof fn lemma_connect_all_push(
    m: NetworkModel,
    from: Seq<int>,
    to: Seq<int>,
    delay: int,
    weight: int,
    x: int,
)
    ensures
        spec_connect_all(m, from.push(x), to, delay, weight) == spec_connect_row(
            spec_connect_all(m, from, to, delay, weight),
            x,
            to,
            delay,
            weight,
        ),
    decreases from.len(),
{
    reveal_with_fuel(spec_connect_all, 3);
    if from.len() == 0 {
        assert(from.push(x).drop_first() =~= Seq::<int>::empty());
    } else {
        assert(from.push(x).drop_first() =~= from.drop_first().push(x));
        lemma_connect_all_push(
            spec_connect_row(m, from[0], to, delay, weight),
            from.drop_first(),
            to,
            delay,
            weight,
            x,
        );
    }
}

/// An invariant violation reported by the network at call time.
#[derive(Debug, PartialEq, Eq, Clone, Copy, Structural)]
pub enum NetworkError {
    /// A neuron id did not refer to a neuron of this network.
    InvalidNeuronId,
    /// A synaptic delay of zero was passed to `connect`.
    InvalidDelay,
}

/// Mathematical image of a whole network.
#[verifier::ext_equal]
pub struct NetworkModel {
    pub neurons: Seq<NeuronModel>,
    pub synapses: Seq<SynapseModel>,
    /// The largest delay of any synapse connected so far (zero while the
    /// network has no synapses).
    pub max_delay: int,
}

/// A synapse record is consistent with the network that owns it: both
/// endpoints exist and the delay lies in `1 ..= max_delay`.
pub open spec fn spec_synapse_ok(m: NetworkModel, syn: SynapseModel) -> bool {
    &&& 0 <= syn.pre_neuron < m.neurons.len()
    &&& 0 <= syn.post_neuron < m.neurons.len()
    &&& 1 <= syn.delay <= m.max_delay
}

/// Well-formedness of a network model: ids fit in 32 bits, every synapse
/// record is consistent, the recorded maximum delay is attained, and every
/// neuron's synapse lists name exactly synapses for which the neuron is
/// target (`pre_synapses`) respectively source (`post_synapses`).
pub open spec fn wf_network(m: NetworkModel) -> bool {
    &&& m.neurons.len() < 0x1_0000_0000
    &&& m.synapses.len() < 0x1_0000_0000
    &&& 0 <= m.max_delay <= 255
    &&& (m.synapses.len() == 0 ==> m.max_delay == 0)
    &&& (m.max_delay > 0 ==> exists|s: int|
        0 <= s < m.synapses.len() && (#[trigger] m.synapses[s]).delay == m.max_delay)
    &&& forall|s: int|
        0 <= s < m.synapses.len() ==> spec_synapse_ok(m, #[trigger] m.synapses[s])
    &&& forall|i: int, k: int|
        0 <= i < m.neurons.len() && 0 <= k < m.neurons[i].pre_synapses.len() ==> {
            &&& 0 <= #[trigger] m.neurons[i].pre_synapses[k] < m.synapses.len()
            &&& m.synapses[m.neurons[i].pre_synapses[k]].post_neuron == i
        }
    &&& forall|i: int, k: int|
        0 <= i < m.neurons.len() && 0 <= k < m.neurons[i].post_synapses.len() ==> {
            &&& 0 <= #[trigger] m.neurons[i].post_synapses[k] < m.synapses.len()
            &&& m.synapses[m.neurons[i].post_synapses[k]].pre_neuron == i
        }
}

/// An operation that keeps the graph structure — the synapse lists of
/// every neuron, the endpoints and delay of every synapse, and the
/// recorded maximum delay — keeps the network well-formed, whatever it
/// does to the numeric state.
proof fn lemma_wf_same_structure(m1: NetworkModel, m2: NetworkModel)
    requires
        wf_network(m1),
        m2.neurons.len() == m1.neurons.len(),
        m2.synapses.len() == m1.synapses.len(),
        m2.max_delay == m1.max_delay,
        forall|i: int|
            0 <= i < m1.neurons.len() ==> (#[trigger] m2.neurons[i]).pre_synapses
                == m1.neurons[i].pre_synapses && m2.neurons[i].post_synapses
                == m1.neurons[i].post_synapses,
        forall|s: int|
            0 <= s < m1.synapses.len() ==> (#[trigger] m2.synapses[s]).pre_neuron
                == m1.synapses[s].pre_neuron && m2.synapses[s].post_neuron
                == m1.synapses[s].post_neuron && m2.synapses[s].delay == m1.synapses[s].delay,
    ensures
        wf_network(m2),
{
    assert forall|s: int| 0 <= s < m2.synapses.len() implies spec_synapse_ok(
        m2,
        #[trigger] m2.synapses[s],
    ) by {
        assert(spec_synapse_ok(m1, m1.synapses[s]));
        assert(m2.synapses[s].delay == m1.synapses[s].delay);
    };
    if m2.max_delay > 0 {
        let s0 = choose|s: int|
            0 <= s < m1.synapses.len() && (#[trigger] m1.synapses[s]).delay == m1.max_delay;
        assert(m2.synapses[s0].delay == m2.max_delay);
    }
    assert forall|i: int, k: int|
        0 <= i < m2.neurons.len() && 0 <= k < m2.neurons[i].pre_synapses.len() implies (0 <= (
        #[trigger] m2.neurons[i].pre_synapses[k]) < m2.synapses.len()
        && m2.synapses[m2.neurons[i].pre_synapses[k]].post_neuron == i) by {
        assert(m2.neurons[i].pre_synapses == m1.neurons[i].pre_synapses);
        let sid = m1.neurons[i].pre_synapses[k];
        assert(0 <= sid < m1.synapses.len() && m1.synapses[sid].post_neuron == i);
        assert(m2.synapses[sid].post_neuron == m1.synapses[sid].post_neuron);
    };
    assert forall|i: int, k: int|
        0 <= i < m2.neurons.len() && 0 <= k < m2.neurons[i].post_synapses.len() implies (0 <= (
        #[trigger] m2.neurons[i].post_synapses[k]) < m2.synapses.len()
        && m2.synapses[m2.neurons[i].post_synapses[k]].pre_neuron == i) by {
        assert(m2.neurons[i].post_synapses == m1.neurons[i].post_synapses);
        let sid = m1.neurons[i].post_synapses[k];
        assert(0 <= sid < m1.synapses.len() && m1.synapses[sid].pre_neuron == i);
        assert(m2.synapses[sid].pre_neuron == m1.synapses[sid].pre_neuron);
    };
}

/// Image of a network after one spike arrives over synapse `s`: the
/// synapse's weight is added to the target neuron's synaptic input, and
/// the difference between the source and target plasticity traces is
/// accumulated into the synapse's `eff_d`.
pub open spec fn spec_deliver_one(m: NetworkModel, s: int) -> NetworkModel {
    let syn = m.synapses[s];
    let pre_stdp = m.neurons[syn.pre_neuron].stdp;
    let post = m.neurons[syn.post_neuron];
    NetworkModel {
        neurons: m.neurons.update(
            syn.post_neuron,
            NeuronModel { i_inp: sat_add(post.i_inp, syn.weight), ..post },
        ),
        synapses: m.synapses.update(
            s,
            SynapseModel { eff_d: sat_add(syn.eff_d, sat_sub(pre_stdp, post.stdp)), ..syn },
        ),
        ..m
    }
}

/// Image of a network after the spikes of `ids` arrive, in order.
pub open spec fn spec_deliver_seq(m: NetworkModel, ids: Seq<int>) -> NetworkModel
    decreases ids.len(),
{
    if ids.len() == 0 {
        m
    } else {
        spec_deliver_seq(spec_deliver_one(m, ids[0]), ids.drop_first())
    }
}

proof fn lemma_deliver_seq_push(m: NetworkModel, ids: Seq<int>, x: int)
    ensures
        spec_deliver_seq(m, ids.push(x)) == spec_deliver_one(spec_deliver_seq(m, ids), x),
    decreases ids.len(),
{
    reveal_with_fuel(spec_deliver_seq, 3);
    if ids.len() == 0 {
        assert(ids.push(x).drop_first() =~= Seq::<int>::empty());
    } else {
        assert(ids.push(x).drop_first() =~= ids.drop_first().push(x));
        lemma_deliver_seq_push(spec_deliver_one(m, ids[0]), ids.drop_first(), x);
    }
}

/// Synapse list after `amount` is added to the `eff_d` of synapse `sid`.
pub open spec fn spec_credit_one(syns: Seq<SynapseModel>, sid: int, amount: int)
    -> Seq<SynapseModel> {
    syns.update(sid, SynapseModel { eff_d: sat_add(syns[sid].eff_d, amount), ..syns[sid] })
}

/// Synapse list after `amount` is added to the `eff_d` of every synapse
/// in `ids`, in order.
pub open spec fn spec_credit_seq(syns: Seq<SynapseModel>, ids: Seq<int>, amount: int)
    -> Seq<SynapseModel>
    decreases ids.len(),
{
    if ids.len() == 0 {
        syns
    } else {
        spec_credit_seq(spec_credit_one(syns, ids[0], amount), ids.drop_first(), amount)
    }
}

proof fn lemma_credit_seq_push(syns: Seq<SynapseModel>, ids: Seq<int>, amount: int, x: int)
    ensures
        spec_credit_seq(syns, ids.push(x), amount) == spec_credit_one(
            spec_credit_seq(syns, ids, amount),
            x,
            amount,
        ),
    decreases ids.len(),
{
    reveal_with_fuel(spec_credit_seq, 3);
    if ids.len() == 0 {
        assert(ids.push(x).drop_first() =~= Seq::<int>::empty());
    } else {
        assert(ids.push(x).drop_first() =~= ids.drop_first().push(x));
        lemma_credit_seq_push(spec_credit_one(syns, ids[0], amount), ids.drop_first(), amount, x);
    }
}

/// Image of a network after neuron `nid` fires: its own plasticity trace
/// is added to the `eff_d` of every one of its incoming synapses — a
/// crude backward credit assignment for the connections that may have led
/// to the firing.
pub open spec fn spec_excite(m: NetworkModel, nid: int) -> NetworkModel {
    NetworkModel {
        synapses: spec_credit_seq(
            m.synapses,
            m.neurons[nid].pre_synapses,
            m.neurons[nid].stdp,
        ),
        ..m
    }
}

/// Every neuron advanced by one time step (the pure numeric part of the
/// update pass).
pub open spec fn spec_advance_neurons(ns: Seq<NeuronModel>, fire_reset: int, decay: int)
    -> Seq<NeuronModel> {
    ns.map_values(|n: NeuronModel| spec_neuron_step(n, fire_reset, decay))
}

/// Indices below `k` of the neurons that fire this step (in ascending
/// order), judged by their pre-step state.
pub open spec fn spec_fired_upto(ns: Seq<NeuronModel>, k: int) -> Seq<int>
    decreases k,
{
    if k <= 0 {
        Seq::empty()
    } else if spec_fires(ns[k - 1].state) {
        spec_fired_upto(ns, k - 1).push(k - 1)
    } else {
        spec_fired_upto(ns, k - 1)
    }
}

/// Indices of all neurons that fire this step, in ascending order.
pub open spec fn spec_fired(ns: Seq<NeuronModel>) -> Seq<int> {
    spec_fired_upto(ns, ns.len() as int)
}

proof fn lemma_fired_upto_bounds(ns: Seq<NeuronModel>, k: int)
    ensures
        forall|j: int|
            0 <= j < spec_fired_upto(ns, k).len() ==> 0 <= #[trigger] spec_fired_upto(ns, k)[j]
                < k,
    decreases k,
{
    reveal_with_fuel(spec_fired_upto, 2);
    if k > 0 {
        lemma_fired_upto_bounds(ns, k - 1);
        let prev = spec_fired_upto(ns, k - 1);
        if spec_fires(ns[k - 1].state) {
            assert(spec_fired_upto(ns, k) == prev.push(k - 1));
            assert forall|j: int|
                0 <= j < spec_fired_upto(ns, k).len() implies 0 <= #[trigger] spec_fired_upto(
                ns,
                k,
            )[j] < k by {
                if j < prev.len() {
                    assert(spec_fired_upto(ns, k)[j] == prev[j]);
                } else {
                    assert(spec_fired_upto(ns, k)[j] == k - 1);
                }
            };
        }
    } else {
        assert(spec_fired_upto(ns, k) =~= Seq::<int>::empty());
    }
}

/// Image of a network after the first `k` neurons have been processed by
/// the per-step update pass: each neuron in turn advances by 1 ms under
/// its accumulated input and, if it fired, credits its incoming synapses
/// with its just-reset plasticity trace.
pub open spec fn spec_update_pass(m: NetworkModel, fire_reset: int, decay: int, k: int)
    -> NetworkModel
    decreases k,
{
    if k <= 0 {
        m
    } else {
        let before = spec_update_pass(m, fire_reset, decay, k - 1);
        let i = k - 1;
        let stepped = NetworkModel {
            neurons: before.neurons.update(
                i,
                spec_neuron_step(before.neurons[i], fire_reset, decay),
            ),
            ..before
        };
        if spec_fires(before.neurons[i].state) {
            spec_excite(stepped, i)
        } else {
            stepped
        }
    }
}

/// In the update pass, neurons are advanced independently: after the
/// first `k` neurons are processed, the prefix holds advanced neurons,
/// the suffix untouched ones, and nothing else of the network's shape has
/// changed.
proof fn lemma_update_pass_neurons(m: NetworkModel, fire_reset: int, decay: int, k: int)
    requires
        wf_network(m),
        0 <= k <= m.neurons.len(),
    ensures
        wf_network(spec_update_pass(m, fire_reset, decay, k)),
        spec_update_pass(m, fire_reset, decay, k).neurons.len() == m.neurons.len(),
        spec_update_pass(m, fire_reset, decay, k).synapses.len() == m.synapses.len(),
        spec_update_pass(m, fire_reset, decay, k).max_delay == m.max_delay,
        forall|j: int|
            k <= j < m.neurons.len() ==> #[trigger] spec_update_pass(
                m,
                fire_reset,
                decay,
                k,
            ).neurons[j] == m.neurons[j],
        forall|j: int|
            0 <= j < k ==> #[trigger] spec_update_pass(m, fire_reset, decay, k).neurons[j]
                == spec_neuron_step(m.neurons[j], fire_reset, decay),
    decreases k,
{
    if k > 0 {
        lemma_update_pass_neurons(m, fire_reset, decay, k - 1);
        let before = spec_update_pass(m, fire_reset, decay, k - 1);
        let i = k - 1;
        let stepped = NetworkModel {
            neurons: before.neurons.update(
                i,
                spec_neuron_step(before.neurons[i], fire_reset, decay),
            ),
            ..before
        };
        lemma_wf_same_structure(before, stepped);
        if spec_fires(before.neurons[i].state) {
            let ids = stepped.neurons[i].pre_synapses;
            assert forall|j: int| 0 <= j < ids.len() implies 0 <= #[trigger] ids[j]
                < stepped.synapses.len() by {
                assert(0 <= stepped.neurons[i].pre_synapses[j] < stepped.synapses.len());
            };
            lemma_credit_seq_structure(
                stepped.synapses,
                stepped.neurons[i].pre_synapses,
                stepped.neurons[i].stdp,
            );
            lemma_wf_same_structure(stepped, spec_excite(stepped, i));
        }
    }
}

/// Crediting synapses touches only their `eff_d` accumulators: length,
/// endpoints, delays and weights are all kept.
proof fn lemma_credit_seq_structure(syns: Seq<SynapseModel>, ids: Seq<int>, amount: int)
    requires
        forall|j: int| 0 <= j < ids.len() ==> 0 <= #[trigger] ids[j] < syns.len(),
    ensures
        spec_credit_seq(syns, ids, amount).len() == syns.len(),
        forall|s: int|
            0 <= s < syns.len() ==> {
                &&& (#[trigger] spec_credit_seq(syns, ids, amount)[s]).pre_neuron
                    == syns[s].pre_neuron
                &&& spec_credit_seq(syns, ids, amount)[s].post_neuron == syns[s].post_neuron
                &&& spec_credit_seq(syns, ids, amount)[s].delay == syns[s].delay
                &&& spec_credit_seq(syns, ids, amount)[s].weight == syns[s].weight
            },
    decreases ids.len(),
{
    reveal_with_fuel(spec_credit_seq, 2);
    if ids.len() > 0 {
        let once = spec_credit_one(syns, ids[0], amount);
        assert forall|j: int| 0 <= j < ids.drop_first().len() implies 0 <= #[trigger] ids.drop_first()[j]
            < once.len() by {
            assert(ids.drop_first()[j] == ids[j + 1]);
        };
        lemma_credit_seq_structure(once, ids.drop_first(), amount);
    }
}

/// The network with every neuron's synaptic input current zeroed.
pub open spec fn spec_reset_inputs(m: NetworkModel) -> NetworkModel {
    NetworkModel {
        neurons: m.neurons.map_values(|n: NeuronModel| NeuronModel { i_inp: 0, ..n }),
        ..m
    }
}

/// The saved numeric states of all neurons, in id order.
pub open spec fn spec_neuron_states(m: NetworkModel) -> Seq<NeuronStateModel> {
    m.neurons.map_values(|n: NeuronModel| n.state)
}

/// The network with each neuron's numeric state replaced from `ss`.
pub open spec fn spec_restore_states(m: NetworkModel, ss: Seq<NeuronStateModel>)
    -> NetworkModel {
    NetworkModel {
        neurons: m.neurons.map(|i: int, n: NeuronModel| NeuronModel { state: ss[i], ..n }),
        ..m
    }
}

/// The weights of all synapses, in id order.
pub open spec fn spec_synapse_weights(m: NetworkModel) -> Seq<int> {
    m.synapses.map_values(|s: SynapseModel| s.weight)
}

/// The network with each synapse's weight replaced from `ws`.
pub open spec fn spec_restore_weights(m: NetworkModel, ws: Seq<int>) -> NetworkModel {
    NetworkModel {
        synapses: m.synapses.map(|i: int, s: SynapseModel| SynapseModel { weight: ws[i], ..s }),
        ..m
    }
}

/// Round trip: restoring the neuron states just saved from a network
/// leaves the network exactly as it was, so a simulation resumed from a
/// snapshot continues as if it had never been interrupted.
pub proof fn lemma_restore_saved_states(m: NetworkModel)
    ensures
        spec_restore_states(m, spec_neuron_states(m)) == m,
{
    assert(spec_restore_states(m, spec_neuron_states(m)).neurons =~~= m.neurons);
    assert(spec_restore_states(m, spec_neuron_states(m)) =~~= m);
}

/// Round trip: restoring the synapse weights just saved from a network
/// leaves the network exactly as it was.
pub proof fn lemma_restore_saved_weights(m: NetworkModel)
    ensures
        spec_restore_weights(m, spec_synapse_weights(m)) == m,
{
    assert(spec_restore_weights(m, spec_synapse_weights(m)).synapses =~~= m.synapses);
    assert(spec_restore_weights(m, spec_synapse_weights(m)) =~~= m);
}

/// The model of a freshly created neuron with the given configuration.
pub open spec fn spec_fresh_neuron(config: crate::neuron_config::NeuronConfigModel)
    -> NeuronModel {
    NeuronModel {
        state: NeuronStateModel { v: INITIAL_V as int, u: INITIAL_U as int },
        config,
        i_ext: 0,
        i_inp: 0,
        stdp: 0,
        pre_synapses: Seq::empty(),
        post_synapses: Seq::empty(),
    }
}

/// The graph of neurons and synapses, with all of their mutable state.
#[derive(Debug)]
pub struct Network {
    neurons: Vec<Neuron>,
    synapses: Vec<Synapse>,
    max_delay: u8,
}

impl View for Network {
    type V = NetworkModel;

    closed spec fn view(&self) -> NetworkModel {
        NetworkModel {
            neurons: self.neurons@.map_values(|n: Neuron| n@),
            synapses: self.synapses@.map_values(|s: Synapse| s@),
            max_delay: self.max_delay as int,
        }
    }
}

impl Network {
    /// The network's internal invariant.
    pub open spec fn wf(&self) -> bool {
        wf_network(self@)
    }

    /// An empty network: no neurons, no synapses.
    pub fn new() -> (r: Network)
        ensures
            r.wf(),
            r@.neurons.len() == 0,
            r@.synapses.len() == 0,
            r@.max_delay == 0,
    {
        Network { neurons: Vec::new(), synapses: Vec::new(), max_delay: 0 }
    }

    /// Append a neuron with the given configuration and return its id.
    pub fn create_neuron(&mut self, config: NeuronConfig) -> (neuron_id: NeuronId)
        requires
            old(self).wf(),
            old(self)@.neurons.len() < 0xffff_ffff,
        ensures
            final(self).wf(),
            neuron_id@ == old(self)@.neurons.len(),
            final(self)@.neurons == old(self)@.neurons.push(spec_fresh_neuron(config@)),
            final(self)@.synapses == old(self)@.synapses,
            final(self)@.max_delay == old(self)@.max_delay,
    {
        let neuron = Neuron {
            state: NeuronState::new(),
            config,
            stdp: Num::new(0),
            i_ext: Num::new(0),
            i_inp: Num::new(0),
            pre_synapses: Vec::new(),
            post_synapses: Vec::new(),
        };
        let neuron_id = NeuronId::from_index(self.neurons.len());
        self.neurons.push(neuron);
        proof {
            assert(self@.neurons =~~= old(self)@.neurons.push(spec_fresh_neuron(config@)));
        }
        neuron_id
    }

    /// Shared access to one neuron.
    pub fn get_neuron(&self, neuron_id: NeuronId) -> (r: &Neuron)
        requires
            0 <= neuron_id@ < self@.neurons.len(),
        ensures
            r@ == self@.neurons[neuron_id@],
    {
        &self.neurons[neuron_id.index()]
    }

    /// Shared access to one neuron (alias of `get_neuron`).
    pub fn neuron_ref(&self, neuron_id: NeuronId) -> (r: &Neuron)
        requires
            0 <= neuron_id@ < self@.neurons.len(),
        ensures
            r@ == self@.neurons[neuron_id@],
    {
        self.get_neuron(neuron_id)
    }

    /// How many neurons the network holds.
    pub fn total_neurons(&self) -> (r: usize)
        ensures
            r == self@.neurons.len(),
    {
        self.neurons.len()
    }

    /// How many synapses the network holds.
    pub fn total_synapses(&self) -> (r: usize)
        ensures
            r == self@.synapses.len(),
    {
        self.synapses.len()
    }

    /// The largest delay of any synapse connected so far, as a plain
    /// number of steps (zero while there are no synapses).
    pub fn max_delay(&self) -> (r: u8)
        ensures
            r as int == self@.max_delay,
    {
        self.max_delay
    }

    /// The largest synapse delay. The network must have at least one
    /// synapse.
    pub fn max_synapse_delay(&self) -> (r: SynapseDelay)
        requires
            self.wf(),
            self@.synapses.len() > 0,
        ensures
            r@ == self@.max_delay,
    {
        proof {
            assert(spec_synapse_ok(self@, self@.synapses[0]));
        }
        SynapseDelay::new(self.max_delay)
    }

    /// Zero every neuron's synaptic input current `i_inp`; external input
    /// `i_ext` is untouched.
    pub fn reset_all_input_currents(&mut self)
        requires
            old(self).wf(),
        ensures
            final(self).wf(),
            final(self)@ == spec_reset_inputs(old(self)@),
            final(self)@.neurons.len() == old(self)@.neurons.len(),
            forall|i: int|
                0 <= i < old(self)@.neurons.len() ==> final(self)@.neurons[i]
                    == (NeuronModel { i_inp: 0, ..old(self)@.neurons[i] }),
            final(self)@.synapses == old(self)@.synapses,
            final(self)@.max_delay == old(self)@.max_delay,
    {
        let n = self.neurons.len();
        let mut i: usize = 0;
        while i < n
            invariant
                self.wf(),
                n == self@.neurons.len(),
                i <= n,
                forall|j: int|
                    0 <= j < i ==> self@.neurons[j]
                        == (NeuronModel { i_inp: 0, ..old(self)@.neurons[j] }),
                forall|j: int| i <= j < n ==> self@.neurons[j] == old(self)@.neurons[j],
                self@.synapses == old(self)@.synapses,
                self@.max_delay == old(self)@.max_delay,
            decreases n - i,
        {
            let ghost prev = self@;
            let ghost prev_vec = self.neurons@;
            let mut neuron = self.neurons.remove(i);
            neuron.i_inp = Num::new(0);
            self.neurons.insert(i, neuron);
            proof {
                assert(self.neurons@ =~= prev_vec.update(i as int, self.neurons@[i as int]));
                assert(self@.neurons =~= prev.neurons.update(
                    i as int,
                    NeuronModel { i_inp: 0, ..prev.neurons[i as int] },
                ));
                lemma_wf_same_structure(prev, self@);
            }
            i = i + 1;
        }
        proof {
            assert(self@ =~~= spec_reset_inputs(old(self)@));
        }
    }

    /// Shared access to one synapse record.
    pub fn get_synapse(&self, synapse_id: SynapseId) -> (r: &Synapse)
        requires
            0 <= synapse_id@ < self@.synapses.len(),
        ensures
            r@ == self@.synapses[synapse_id@],
    {
        &self.synapses[synapse_id.index()]
    }

    /// Overwrite the synapse record at index `i`.
    fn set_synapse(&mut self, i: usize, syn: Synapse)
        requires
            i < old(self)@.synapses.len(),
        ensures
            final(self)@.synapses == old(self)@.synapses.update(i as int, syn@),
            final(self)@.neurons == old(self)@.neurons,
            final(self)@.max_delay == old(self)@.max_delay,
    {
        self.synapses.set(i, syn);
        proof {
            assert(self@.synapses =~= old(self)@.synapses.update(i as int, syn@));
        }
    }

    /// Connect `pre_neuron` (source) to `post_neuron` (target) with the
    /// given conduction delay and starting weight.
    ///
    /// Fails with `InvalidNeuronId` when either endpoint is out of range
    /// and with `InvalidDelay` when the delay is zero; on failure the
    /// network is unchanged.
    pub fn connect(
        &mut self,
        pre_neuron: NeuronId,
        post_neuron: NeuronId,
        delay: Delay,
        weight: Num,
    ) -> (r: Result<SynapseId, NetworkError>)
        requires
            old(self).wf(),
            old(self)@.synapses.len() < 0xffff_ffff,
        ensures
            final(self).wf(),
            r is Ok <==> (0 <= pre_neuron@ < old(self)@.neurons.len()
                && 0 <= post_neuron@ < old(self)@.neurons.len() && delay >= 1),
            !(0 <= pre_neuron@ < old(self)@.neurons.len() && 0 <= post_neuron@ < old(
                self,
            )@.neurons.len()) ==> r == Result::<SynapseId, NetworkError>::Err(
                NetworkError::InvalidNeuronId,
            ) && final(self)@ == old(self)@,
            (0 <= pre_neuron@ < old(self)@.neurons.len() && 0 <= post_neuron@ < old(
                self,
            )@.neurons.len() && delay == 0) ==> r == Result::<SynapseId, NetworkError>::Err(
                NetworkError::InvalidDelay,
            ) && final(self)@ == old(self)@,
            r is Ok ==> r->Ok_0@ == old(self)@.synapses.len() && final(self)@ == spec_connect(
                old(self)@,
                pre_neuron@,
                post_neuron@,
                delay as int,
                weight@,
            ),
    {
        if !(pre_neuron.index() < self.neurons.len() && post_neuron.index()
            < self.neurons.len()) {
            return Err(NetworkError::InvalidNeuronId);
        }
        if delay == 0 {
            return Err(NetworkError::InvalidDelay);
        }

        if delay > self.max_delay {
            self.max_delay = delay;
        }

        let synapse = Synapse {
            pre_neuron,
            post_neuron,
            synapse_delay: SynapseDelay::new(delay),
            weight,
            eff_d: Num::new(0),
        };
        let synapse_id = SynapseId::from_index(self.synapses.len());

        self.synapses.push(synapse);
        proof {
            assert(self@.synapses =~= old(self)@.synapses.push(
                SynapseModel {
                    pre_neuron: pre_neuron@,
                    post_neuron: post_neuron@,
                    delay: delay as int,
                    weight: weight@,
                    eff_d: 0,
                },
            ));
        }

        let ghost m1 = self@;
        let pre_idx = pre_neuron.index();
        let ghost prev_vec = self.neurons@;
        let mut source = self.neurons.remove(pre_idx);
        source.post_synapses.push(synapse_id);
        self.neurons.insert(pre_idx, source);
        proof {
            assert(self.neurons@ =~= prev_vec.update(pre_idx as int, self.neurons@[pre_idx as int]));
            assert(self@.neurons =~~= m1.neurons.update(
                pre_neuron@,
                NeuronModel {
                    post_synapses: m1.neurons[pre_neuron@].post_synapses.push(
                        old(self)@.synapses.len() as int,
                    ),
                    ..m1.neurons[pre_neuron@]
                },
            ));
        }

        let ghost m2 = self@;
        let post_idx = post_neuron.index();
        let ghost prev_vec2 = self.neurons@;
        let mut target = self.neurons.remove(post_idx);
        target.pre_synapses.push(synapse_id);
        self.neurons.insert(post_idx, target);
        proof {
            assert(self.neurons@ =~= prev_vec2.update(
                post_idx as int,
                self.neurons@[post_idx as int],
            ));
            assert(self@.neurons =~~= m2.neurons.update(
                post_neuron@,
                NeuronModel {
                    pre_synapses: m2.neurons[post_neuron@].pre_synapses.push(
                        old(self)@.synapses.len() as int,
                    ),
                    ..m2.neurons[post_neuron@]
                },
            ));
            assert(self@ =~~= spec_connect(
                old(self)@,
                pre_neuron@,
                post_neuron@,
                delay as int,
                weight@,
            ));
        }

        proof {
            let m0 = old(self)@;
            let mf = self@;
            let sid = m0.synapses.len() as int;
            let pre = pre_neuron@;
            let post = post_neuron@;
            assert forall|s: int| 0 <= s < mf.synapses.len() implies spec_synapse_ok(
                mf,
                #[trigger] mf.synapses[s],
            ) by {
                if s < sid {
                    assert(spec_synapse_ok(m0, m0.synapses[s]));
                }
            };
            if delay as int >= m0.max_delay {
                assert(mf.synapses[sid].delay == mf.max_delay);
            } else {
                let s0 = choose|s: int|
                    0 <= s < m0.synapses.len() && (#[trigger] m0.synapses[s]).delay
                        == m0.max_delay;
                assert(mf.synapses[s0].delay == mf.max_delay);
            }
            assert forall|i: int, k: int|
                0 <= i < mf.neurons.len() && 0 <= k < mf.neurons[i].pre_synapses.len() implies (0
                <= (#[trigger] mf.neurons[i].pre_synapses[k]) < mf.synapses.len()
                && mf.synapses[mf.neurons[i].pre_synapses[k]].post_neuron == i) by {
                if i == post && k == m0.neurons[i].pre_synapses.len() {
                    assert(mf.neurons[i].pre_synapses[k] == sid);
                    assert(mf.synapses[sid].post_neuron == i);
                } else {
                    assert(0 <= m0.neurons[i].pre_synapses[k] < m0.synapses.len()
                        && m0.synapses[m0.neurons[i].pre_synapses[k]].post_neuron == i);
                }
            };
            assert forall|i: int, k: int|
                0 <= i < mf.neurons.len() && 0 <= k < mf.neurons[i].post_synapses.len() implies (0
                <= (#[trigger] mf.neurons[i].post_synapses[k]) < mf.synapses.len()
                && mf.synapses[mf.neurons[i].post_synapses[k]].pre_neuron == i) by {
                if i == pre && k == m0.neurons[i].post_synapses.len() {
                    assert(mf.neurons[i].post_synapses[k] == sid);
                    assert(mf.synapses[sid].pre_neuron == i);
                } else {
                    assert(0 <= m0.neurons[i].post_synapses[k] < m0.synapses.len()
                        && m0.synapses[m0.neurons[i].post_synapses[k]].pre_neuron == i);
                }
            };
        }

        Ok(synapse_id)
    }

    /// Connect every neuron of `from_neurons` to every neuron of
    /// `to_neurons`, in order, all with the same delay and starting
    /// weight.
    pub fn connect_all(
        &mut self,
        from_neurons: &Vec<NeuronId>,
        to_neurons: &Vec<NeuronId>,
        delay: Delay,
        weight: Num,
    )
        requires
            old(self).wf(),
            delay >= 1,
            forall|i: int|
                0 <= i < from_neurons@.len() ==> 0 <= (#[trigger] from_neurons@[i])@ < old(
                    self,
                )@.neurons.len(),
            forall|i: int|
                0 <= i < to_neurons@.len() ==> 0 <= (#[trigger] to_neurons@[i])@ < old(
                    self,
                )@.neurons.len(),
            old(self)@.synapses.len() + from_neurons@.len() * to_neurons@.len() < 0xffff_ffff,
        ensures
            final(self).wf(),
            final(self)@ == spec_connect_all(
                old(self)@,
                from_neurons@.map_values(|id: NeuronId| id@),
                to_neurons@.map_values(|id: NeuronId| id@),
                delay as int,
                weight@,
            ),
    {
        let ghost from_ints = from_neurons@.map_values(|id: NeuronId| id@);
        let ghost to_ints = to_neurons@.map_values(|id: NeuronId| id@);
        let ghost nf = from_ints.len() as int;
        let ghost nt = to_ints.len() as int;
        let n_from = from_neurons.len();
        let n_to = to_neurons.len();
        let mut i: usize = 0;
        proof {
            assert(from_ints.take(0) =~= Seq::<int>::empty());
        }
        while i < n_from
            invariant
                old(self).wf(),
                self.wf(),
                i <= n_from,
                n_from == from_ints.len(),
                n_to == to_ints.len(),
                nf == from_ints.len() as int,
                nt == to_ints.len() as int,
                delay >= 1,
                from_ints == from_neurons@.map_values(|id: NeuronId| id@),
                to_ints == to_neurons@.map_values(|id: NeuronId| id@),
                forall|ii: int|
                    0 <= ii < from_neurons@.len() ==> 0 <= (#[trigger] from_neurons@[ii])@ < old(
                        self,
                    )@.neurons.len(),
                forall|ii: int|
                    0 <= ii < to_neurons@.len() ==> 0 <= (#[trigger] to_neurons@[ii])@ < old(
                        self,
                    )@.neurons.len(),
                old(self)@.synapses.len() + nf * nt < 0xffff_ffff,
                self@.neurons.len() == old(self)@.neurons.len(),
                self@.synapses.len() == old(self)@.synapses.len() + i as int * nt,
                self@ == spec_connect_all(
                    old(self)@,
                    from_ints.take(i as int),
                    to_ints,
                    delay as int,
                    weight@,
                ),
            decreases n_from - i,
        {
            let from = from_neurons[i];
            let ghost row_start = self@;
            let mut j: usize = 0;
            proof {
                assert(to_ints.take(0) =~= Seq::<int>::empty());
                assert(i as int * nt + nt <= nf * nt) by (nonlinear_arith)
                    requires
                        0 <= i as int,
                        i as int + 1 <= nf,
                        0 <= nt,
                ;
            }
            while j < n_to
                invariant
                    old(self).wf(),
                    self.wf(),
                    j <= n_to,
                    i < n_from,
                    n_from == from_ints.len(),
                    n_to == to_ints.len(),
                    nf == from_ints.len() as int,
                    nt == to_ints.len() as int,
                    delay >= 1,
                    from_ints == from_neurons@.map_values(|id: NeuronId| id@),
                    to_ints == to_neurons@.map_values(|id: NeuronId| id@),
                    from == from_neurons@[i as int],
                    forall|ii: int|
                        0 <= ii < from_neurons@.len() ==> 0 <= (#[trigger] from_neurons@[ii])@
                            < old(self)@.neurons.len(),
                    forall|ii: int|
                        0 <= ii < to_neurons@.len() ==> 0 <= (#[trigger] to_neurons@[ii])@ < old(
                            self,
                        )@.neurons.len(),
                    old(self)@.synapses.len() + nf * nt < 0xffff_ffff,
                    i as int * nt + nt <= nf * nt,
                    self@.neurons.len() == old(self)@.neurons.len(),
                    self@.synapses.len() == old(self)@.synapses.len() + i as int * nt + j as int,
                    row_start == spec_connect_all(
                        old(self)@,
                        from_ints.take(i as int),
                        to_ints,
                        delay as int,
                        weight@,
                    ),
                    self@ == spec_connect_row(
                        row_start,
                        from_ints[i as int],
                        to_ints.take(j as int),
                        delay as int,
                        weight@,
                    ),
                decreases n_to - j,
            {
                let to = to_neurons[j];
                let ghost before = self@;
                let _result = self.connect(from, to, delay, weight);
                proof {
                    assert(_result is Ok);
                    assert(self@ == spec_connect(
                        before,
                        from_ints[i as int],
                        to_ints[j as int],
                        delay as int,
                        weight@,
                    ));
                    lemma_connect_row_push(
                        row_start,
                        from_ints[i as int],
                        to_ints.take(j as int),
                        delay as int,
                        weight@,
                        to_ints[j as int],
                    );
                    assert(to_ints.take(j as int + 1) =~= to_ints.take(j as int).push(
                        to_ints[j as int],
                    ));
                }
                j = j + 1;
            }
            proof {
                assert(to_ints.take(nt) =~= to_ints);
                assert((i as int + 1) * nt == i as int * nt + nt) by (nonlinear_arith);
                lemma_connect_all_push(
                    old(self)@,
                    from_ints.take(i as int),
                    to_ints,
                    delay as int,
                    weight@,
                    from_ints[i as int],
                );
                assert(from_ints.take(i as int + 1) =~= from_ints.take(i as int).push(
                    from_ints[i as int],
                ));
            }
            i = i + 1;
        }
        proof {
            assert(from_ints.take(nf) =~= from_ints);
        }
    }

    /// Apply every synapse's accumulated `eff_d` to its weight, clamp the
    /// result into `[min_syn_weight, max_syn_weight]`, then decay `eff_d`.
    /// After the pass every weight lies within the given interval.
    pub fn update_synapse_weights(
        &mut self,
        min_syn_weight: Num,
        max_syn_weight: Num,
        eff_d_decay: Num,
    )
        requires
            old(self).wf(),
            min_syn_weight@ <= max_syn_weight@,
        ensures
            final(self).wf(),
            final(self)@.neurons == old(self)@.neurons,
            final(self)@.max_delay == old(self)@.max_delay,
            final(self)@.synapses.len() == old(self)@.synapses.len(),
            forall|s: int|
                0 <= s < old(self)@.synapses.len() ==> final(self)@.synapses[s]
                    == spec_weight_update(
                    #[trigger] old(self)@.synapses[s],
                    min_syn_weight@,
                    max_syn_weight@,
                    eff_d_decay@,
                ),
            forall|s: int|
                0 <= s < final(self)@.synapses.len() ==> min_syn_weight@ <= (
                #[trigger] final(self)@.synapses[s]).weight <= max_syn_weight@,
    {
        let n = self.synapses.len();
        let mut i: usize = 0;
        while i < n
            invariant
                self.wf(),
                n == self@.synapses.len(),
                i <= n,
                min_syn_weight@ <= max_syn_weight@,
                self@.neurons == old(self)@.neurons,
                self@.max_delay == old(self)@.max_delay,
                self@.synapses.len() == old(self)@.synapses.len(),
                forall|s: int|
                    0 <= s < i ==> self@.synapses[s] == spec_weight_update(
                        #[trigger] old(self)@.synapses[s],
                        min_syn_weight@,
                        max_syn_weight@,
                        eff_d_decay@,
                    ),
                forall|s: int| i <= s < n ==> self@.synapses[s] == old(self)@.synapses[s],
            decreases n - i,
        {
            let syn = self.synapses[i];
            let new_weight = syn.weight.add(syn.eff_d);

            // Restrict the synapse weight to min_syn_weight .. max_syn_weight.
            let weight = clamp(new_weight, min_syn_weight, max_syn_weight);
            let eff_d = syn.eff_d.mul(eff_d_decay);
            let ghost mp = self@;
            self.set_synapse(i, Synapse { weight, eff_d, ..syn });
            proof {
                lemma_wf_same_structure(mp, self@);
            }
            i = i + 1;
        }
        proof {
            assert forall|s: int| 0 <= s < self@.synapses.len() implies min_syn_weight@ <= (
            #[trigger] self@.synapses[s]).weight <= max_syn_weight@ by {
                assert(self@.synapses[s] == spec_weight_update(
                    old(self)@.synapses[s],
                    min_syn_weight@,
                    max_syn_weight@,
                    eff_d_decay@,
                ));
            };
        }
    }

    /// Set neuron `neuron_id`'s external input current to `current`.
    pub fn set_external_input(&mut self, neuron_id: NeuronId, current: Num)
        requires
            old(self).wf(),
            0 <= neuron_id@ < old(self)@.neurons.len(),
        ensures
            final(self).wf(),
            final(self)@.neurons == old(self)@.neurons.update(
                neuron_id@,
                NeuronModel { i_ext: current@, ..old(self)@.neurons[neuron_id@] },
            ),
            final(self)@.synapses == old(self)@.synapses,
            final(self)@.max_delay == old(self)@.max_delay,
    {
        let idx = neuron_id.index();
        let mut neuron = self.neurons.remove(idx);
        neuron.i_ext = current;
        self.neurons.insert(idx, neuron);
        proof {
            assert(self@.neurons =~= old(self)@.neurons.update(
                neuron_id@,
                NeuronModel { i_ext: current@, ..old(self)@.neurons[neuron_id@] },
            ));
        }
    }

    /// Read neuron `neuron_id`'s external input current.
    pub fn get_external_input(&self, neuron_id: NeuronId) -> (r: Num)
        requires
            0 <= neuron_id@ < self@.neurons.len(),
        ensures
            r@ == self@.neurons[neuron_id@].i_ext,
    {
        self.neurons[neuron_id.index()].i_ext
    }

    /// Add `additional_current` to neuron `neuron_id`'s external input.
    pub fn increase_external_input(&mut self, neuron_id: NeuronId, additional_current: Num)
        requires
            old(self).wf(),
            0 <= neuron_id@ < old(self)@.neurons.len(),
        ensures
            final(self).wf(),
            final(self)@.neurons == old(self)@.neurons.update(
                neuron_id@,
                NeuronModel {
                    i_ext: sat_add(
                        old(self)@.neurons[neuron_id@].i_ext,
                        additional_current@,
                    ),
                    ..old(self)@.neurons[neuron_id@]
                },
            ),
            final(self)@.synapses == old(self)@.synapses,
            final(self)@.max_delay == old(self)@.max_delay,
    {
        let idx = neuron_id.index();
        let mut neuron = self.neurons.remove(idx);
        neuron.i_ext = neuron.i_ext.add(additional_current);
        self.neurons.insert(idx, neuron);
        proof {
            assert(self@.neurons =~= old(self)@.neurons.update(
                neuron_id@,
                NeuronModel {
                    i_ext: sat_add(
                        old(self)@.neurons[neuron_id@].i_ext,
                        additional_current@,
                    ),
                    ..old(self)@.neurons[neuron_id@]
                },
            ));
        }
    }

    /// The numeric state (potential and recovery) of every neuron, in id
    /// order.
    pub fn save_state(&self) -> (r: Vec<NeuronState>)
        ensures
            r@.len() == self@.neurons.len(),
            r@.map_values(|s: NeuronState| s@) == spec_neuron_states(self@),
    {
        let mut states: Vec<NeuronState> = Vec::new();
        let n = self.neurons.len();
        let mut i: usize = 0;
        while i < n
            invariant
                i <= n,
                n == self@.neurons.len(),
                states@.len() == i,
                forall|j: int| 0 <= j < i ==> (#[trigger] states@[j])@ == self@.neurons[j].state,
            decreases n - i,
        {
            let state = self.neurons[i].state;
            states.push(state);
            i = i + 1;
        }
        proof {
            assert(states@.map_values(|s: NeuronState| s@) =~= spec_neuron_states(self@));
        }
        states
    }

    /// Replace every neuron's numeric state with the corresponding entry
    /// of `states` (as produced by `save_state`).
    pub fn restore_state(&mut self, states: &Vec<NeuronState>)
        requires
            old(self).wf(),
            states@.len() == old(self)@.neurons.len(),
        ensures
            final(self).wf(),
            final(self)@ == spec_restore_states(
                old(self)@,
                states@.map_values(|s: NeuronState| s@),
            ),
    {
        let n = self.neurons.len();
        let mut i: usize = 0;
        while i < n
            invariant
                old(self).wf(),
                self.wf(),
                i <= n,
                n == self@.neurons.len(),
                n == old(self)@.neurons.len(),
                states@.len() == n,
                self@.synapses == old(self)@.synapses,
                self@.max_delay == old(self)@.max_delay,
                forall|j: int|
                    0 <= j < i ==> self@.neurons[j] == (NeuronModel {
                        state: states@[j]@,
                        ..old(self)@.neurons[j]
                    }),
                forall|j: int| i <= j < n ==> self@.neurons[j] == old(self)@.neurons[j],
            decreases n - i,
        {
            let ghost prev = self@;
            let ghost prev_vec = self.neurons@;
            let mut neuron = self.neurons.remove(i);
            neuron.state = states[i];
            self.neurons.insert(i, neuron);
            proof {
                assert(self.neurons@ =~= prev_vec.update(i as int, self.neurons@[i as int]));
                assert(self@.neurons =~~= prev.neurons.update(
                    i as int,
                    NeuronModel { state: states@[i as int]@, ..prev.neurons[i as int] },
                ));
                lemma_wf_same_structure(prev, self@);
            }
            i = i + 1;
        }
        proof {
            assert(self@ =~~= spec_restore_states(
                old(self)@,
                states@.map_values(|s: NeuronState| s@),
            ));
        }
    }

    /// The weight of every synapse, in id order.
    pub fn save_weights(&self) -> (r: Vec<Num>)
        ensures
            r@.len() == self@.synapses.len(),
            r@.map_values(|w: Num| w@) == spec_synapse_weights(self@),
    {
        let mut weights: Vec<Num> = Vec::new();
        let n = self.synapses.len();
        let mut i: usize = 0;
        while i < n
            invariant
                i <= n,
                n == self@.synapses.len(),
                weights@.len() == i,
                forall|j: int|
                    0 <= j < i ==> (#[trigger] weights@[j])@ == self@.synapses[j].weight,
            decreases n - i,
        {
            let weight = self.synapses[i].weight;
            weights.push(weight);
            i = i + 1;
        }
        proof {
            assert(weights@.map_values(|w: Num| w@) =~= spec_synapse_weights(self@));
        }
        weights
    }

    /// Replace every synapse's weight with the corresponding entry of
    /// `weights` (as produced by `save_weights`).
    pub fn restore_weights(&mut self, weights: &Vec<Num>)
        requires
            old(self).wf(),
            weights@.len() == old(self)@.synapses.len(),
        ensures
            final(self).wf(),
            final(self)@ == spec_restore_weights(
                old(self)@,
                weights@.map_values(|w: Num| w@),
            ),
    {
        let n = self.synapses.len();
        let mut i: usize = 0;
        while i < n
            invariant
                old(self).wf(),
                self.wf(),
                i <= n,
                n == self@.synapses.len(),
                n == old(self)@.synapses.len(),
                weights@.len() == n,
                self@.neurons == old(self)@.neurons,
                self@.max_delay == old(self)@.max_delay,
                forall|j: int|
                    0 <= j < i ==> self@.synapses[j] == (SynapseModel {
                        weight: weights@[j]@,
                        ..old(self)@.synapses[j]
                    }),
                forall|j: int| i <= j < n ==> self@.synapses[j] == old(self)@.synapses[j],
            decreases n - i,
        {
            let ghost prev = self@;
            let mut synapse = self.synapses[i];
            synapse.weight = weights[i];
            self.set_synapse(i, synapse);
            proof {
                lemma_wf_same_structure(prev, self@);
            }
            i = i + 1;
        }
        proof {
            assert(self@ =~~= spec_restore_weights(
                old(self)@,
                weights@.map_values(|w: Num| w@),
            ));
        }
    }

    /// One delayed spike arrives over `firing_synapse`: add the synapse's
    /// weight to the target neuron's synaptic input and accumulate the
    /// source/target trace difference into the synapse's `eff_d`.
    pub fn process_firing_synapse(&mut self, firing_synapse: SynapseId)
        requires
            old(self).wf(),
            0 <= firing_synapse@ < old(self)@.synapses.len(),
        ensures
            final(self).wf(),
            final(self)@ == spec_deliver_one(old(self)@, firing_synapse@),
            final(self)@.neurons.len() == old(self)@.neurons.len(),
            final(self)@.synapses.len() == old(self)@.synapses.len(),
            final(self)@.max_delay == old(self)@.max_delay,
    {
        proof {
            assert(spec_synapse_ok(self@, self@.synapses[firing_synapse@]));
        }
        let syn = self.synapses[firing_synapse.index()];

        let pre_neuron_stdp = self.neurons[syn.pre_neuron.index()].stdp;
        let post_idx = syn.post_neuron.index();

        let ghost prev_vec = self.neurons@;
        let mut post_neuron = self.neurons.remove(post_idx);
        let post_neuron_stdp = post_neuron.stdp;
        post_neuron.i_inp = post_neuron.i_inp.add(syn.weight);
        self.neurons.insert(post_idx, post_neuron);
        proof {
            assert(self.neurons@ =~= prev_vec.update(post_idx as int, self.neurons@[post_idx as int]));
        }

        // A spike arriving at the target means the source fired `delay`
        // steps ago; if the target has fired more recently, the trace
        // difference depresses the synapse.
        let mut updated = syn;
        updated.eff_d = syn.eff_d.add(pre_neuron_stdp.sub(post_neuron_stdp));
        self.set_synapse(firing_synapse.index(), updated);
        proof {
            assert(self@ =~~= spec_deliver_one(old(self)@, firing_synapse@));
            lemma_wf_same_structure(old(self)@, self@);
        }
    }

    /// Deliver the spikes of `firing_synapses`, in order.
    pub fn process_firing_synapses(&mut self, firing_synapses: &Vec<SynapseId>)
        requires
            old(self).wf(),
            forall|k: int|
                0 <= k < firing_synapses@.len() ==> 0 <= (#[trigger] firing_synapses@[k])@ < old(
                    self,
                )@.synapses.len(),
        ensures
            final(self).wf(),
            final(self)@ == spec_deliver_seq(
                old(self)@,
                firing_synapses@.map_values(|id: SynapseId| id@),
            ),
            final(self)@.neurons.len() == old(self)@.neurons.len(),
            final(self)@.synapses.len() == old(self)@.synapses.len(),
            final(self)@.max_delay == old(self)@.max_delay,
    {
        let ghost ids = firing_synapses@.map_values(|id: SynapseId| id@);
        let n = firing_synapses.len();
        let mut k: usize = 0;
        proof {
            assert(ids.take(0) =~= Seq::<int>::empty());
        }
        while k < n
            invariant
                self.wf(),
                n == firing_synapses@.len(),
                k <= n,
                ids == firing_synapses@.map_values(|id: SynapseId| id@),
                forall|j: int|
                    0 <= j < n ==> 0 <= (#[trigger] firing_synapses@[j])@ < old(
                        self,
                    )@.synapses.len(),
                self@.synapses.len() == old(self)@.synapses.len(),
                self@.neurons.len() == old(self)@.neurons.len(),
                self@.max_delay == old(self)@.max_delay,
                self@ == spec_deliver_seq(old(self)@, ids.take(k as int)),
            decreases n - k,
        {
            let syn_id = firing_synapses[k];
            self.process_firing_synapse(syn_id);
            proof {
                lemma_deliver_seq_push(old(self)@, ids.take(k as int), ids[k as int]);
                assert(ids.take(k as int + 1) =~= ids.take(k as int).push(ids[k as int]));
            }
            k = k + 1;
        }
        proof {
            assert(ids.take(n as int) =~= ids);
        }
    }

    /// Neuron `neuron_id` has just fired: add its plasticity trace to the
    /// `eff_d` of each of its incoming synapses, crediting the
    /// connections that may have led to the firing. The weights
    /// themselves change only in the batched weight-update pass.
    pub fn excite_all_pre_synapses_of_neuron(&mut self, neuron_id: NeuronId)
        requires
            old(self).wf(),
            0 <= neuron_id@ < old(self)@.neurons.len(),
        ensures
            final(self).wf(),
            final(self)@ == spec_excite(old(self)@, neuron_id@),
    {
        let nidx = neuron_id.index();
        let amount = self.neurons[nidx].stdp;
        let n_pre = self.neurons[nidx].pre_synapses.len();
        let ghost ids = self@.neurons[neuron_id@].pre_synapses;
        let mut k: usize = 0;
        proof {
            assert(ids.take(0) =~= Seq::<int>::empty());
        }
        while k < n_pre
            invariant
                self.wf(),
                0 <= neuron_id@ < self@.neurons.len(),
                nidx as int == neuron_id@,
                k <= n_pre,
                self@.neurons == old(self)@.neurons,
                self@.max_delay == old(self)@.max_delay,
                amount@ == self@.neurons[neuron_id@].stdp,
                ids == self@.neurons[neuron_id@].pre_synapses,
                n_pre == ids.len(),
                self@.synapses.len() == old(self)@.synapses.len(),
                self@.synapses == spec_credit_seq(
                    old(self)@.synapses,
                    ids.take(k as int),
                    amount@,
                ),
            decreases n_pre - k,
        {
            let synapse_id = self.neurons[nidx].pre_synapses[k];
            proof {
                assert(0 <= self@.neurons[neuron_id@].pre_synapses[k as int]
                    < self@.synapses.len());
                assert(synapse_id@ == self@.neurons[neuron_id@].pre_synapses[k as int]);
            }
            let mut synapse = self.synapses[synapse_id.index()];
            synapse.eff_d = synapse.eff_d.add(amount);
            let ghost mp = self@;
            self.set_synapse(synapse_id.index(), synapse);
            proof {
                lemma_wf_same_structure(mp, self@);
                lemma_credit_seq_push(
                    old(self)@.synapses,
                    ids.take(k as int),
                    amount@,
                    ids[k as int],
                );
                assert(ids.take(k as int + 1) =~= ids.take(k as int).push(ids[k as int]));
            }
            k = k + 1;
        }
        proof {
            assert(ids.take(n_pre as int) =~= ids);
            assert(self@ =~~= spec_excite(old(self)@, neuron_id@));
        }
    }

    /// One full per-step update pass: advance every neuron in ascending
    /// id order, and for each neuron that fires, credit its incoming
    /// synapses with its just-reset trace. Returns the ids of the neurons
    /// that fired, in ascending order.
    pub fn update_state(&mut self, stdp_config: StdpConfig) -> (fired: Vec<NeuronId>)
        requires
            old(self).wf(),
        ensures
            final(self).wf(),
            final(self)@ == spec_update_pass(
                old(self)@,
                stdp_config.fire_reset@,
                stdp_config.decay@,
                old(self)@.neurons.len() as int,
            ),
            final(self)@.neurons == spec_advance_neurons(
                old(self)@.neurons,
                stdp_config.fire_reset@,
                stdp_config.decay@,
            ),
            final(self)@.max_delay == old(self)@.max_delay,
            final(self)@.synapses.len() == old(self)@.synapses.len(),
            fired@.map_values(|id: NeuronId| id@) == spec_fired(old(self)@.neurons),
            forall|j: int|
                0 <= j < fired@.len() ==> 0 <= (#[trigger] fired@[j])@ < old(
                    self,
                )@.neurons.len(),
    {
        let ghost fire_reset = stdp_config.fire_reset@;
        let ghost decay = stdp_config.decay@;
        let mut fired: Vec<NeuronId> = Vec::new();
        let n = self.neurons.len();
        let mut i: usize = 0;
        while i < n
            invariant
                old(self).wf(),
                self.wf(),
                i <= n,
                n == old(self)@.neurons.len(),
                n < 0x1_0000_0000,
                fire_reset == stdp_config.fire_reset@,
                decay == stdp_config.decay@,
                self@.neurons.len() == n,
                self@ == spec_update_pass(old(self)@, fire_reset, decay, i as int),
                fired@.map_values(|id: NeuronId| id@) == spec_fired_upto(
                    old(self)@.neurons,
                    i as int,
                ),
                forall|j: int| 0 <= j < fired@.len() ==> 0 <= (#[trigger] fired@[j])@ < n,
            decreases n - i,
        {
            proof {
                lemma_update_pass_neurons(old(self)@, fire_reset, decay, i as int);
            }
            let ghost prev = self@;
            let ghost prev_vec = self.neurons@;
            let mut neuron = self.neurons.remove(i);
            let activity = neuron.update_state(stdp_config);
            self.neurons.insert(i, neuron);
            proof {
                assert(self.neurons@ =~= prev_vec.update(i as int, self.neurons@[i as int]));
                assert(self@.neurons =~~= prev.neurons.update(
                    i as int,
                    spec_neuron_step(prev.neurons[i as int], fire_reset, decay),
                ));
                assert(self@ =~~= (NetworkModel {
                    neurons: prev.neurons.update(
                        i as int,
                        spec_neuron_step(prev.neurons[i as int], fire_reset, decay),
                    ),
                    ..prev
                }));
                lemma_wf_same_structure(prev, self@);
            }
            let ghost fired_prev = fired@;

            if activity.fires() {
                let neuron_id = NeuronId::from_index(i);
                fired.push(neuron_id);
                self.excite_all_pre_synapses_of_neuron(neuron_id);
                proof {
                    assert(fired@.map_values(|id: NeuronId| id@) =~= fired_prev.map_values(
                        |id: NeuronId| id@,
                    ).push(i as int));
                }
            }
            proof {
                assert(self@ == spec_update_pass(old(self)@, fire_reset, decay, i as int + 1));
                assert(fired@.map_values(|id: NeuronId| id@) == spec_fired_upto(
                    old(self)@.neurons,
                    i as int + 1,
                ));
            }
            i = i + 1;
        }
        proof {
            lemma_update_pass_neurons(old(self)@, fire_reset, decay, n as int);
            assert(self@.neurons =~= spec_advance_neurons(old(self)@.neurons, fire_reset, decay));
        }
        fired
    }
}

} // verus!
