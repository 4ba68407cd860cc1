use crate::future_spikes::FutureSpikes;
use crate::network::{
    spec_deliver_seq, spec_fired, spec_reset_inputs, spec_synapse_ok, spec_update_pass,
    wf_network, Network, NetworkModel,
};
use crate::neuron_id::NeuronId;
use crate::recorder::EventRecorder;
use crate::stdp::StdpConfig;
use crate::synapse_delay::SynapseDelay;
use crate::Timestep;
use vstd::prelude::*;

verus! {

/// Whether `n` is a power of two.
pub open spec fn spec_is_power_of_two(n: int) -> bool
    decreases n,
{
    if n == 1 {
        true
    } else if n < 1 || n % 2 != 0 {
        false
    } else {
        spec_is_power_of_two(n / 2)
    }
}

/// The spike schedule after the outgoing synapses `outs` (walked front to
/// back) each have a delivery added at `t` plus their own delay.
pub open spec fn spec_schedule_outgoing(
    p: Map<int, Seq<int>>,
    m: NetworkModel,
    outs: Seq<int>,
    t: int,
) -> Map<int, Seq<int>>
    decreases outs.len(),
{
    if outs.len() == 0 {
        p
    } else {
        let due = t + m.synapses[outs[0]].delay;
        spec_schedule_outgoing(p.insert(due, p[due].push(outs[0])), m, outs.drop_first(), t)
    }
}

/// The spike schedule after every neuron of `fired` (walked front to
/// back) has deliveries added for all of its outgoing synapses.
pub open spec fn spec_schedule_fired(
    p: Map<int, Seq<int>>,
    m: NetworkModel,
    fired: Seq<int>,
    t: int,
) -> Map<int, Seq<int>>
    decreases fired.len(),
{
    if fired.len() == 0 {
        p
    } else {
        spec_schedule_fired(
            spec_schedule_outgoing(p, m, m.neurons[fired[0]].post_synapses, t),
            m,
            fired.drop_first(),
            t,
        )
    }
}

proof fn lemma_schedule_outgoing_push(
    p: Map<int, Seq<int>>,
    m: NetworkModel,
    outs: Seq<int>,
    t: int,
    x: int,
)
    ensures
        spec_schedule_outgoing(p, m, outs.push(x), t) == spec_schedule_outgoing(
            p,
            m,
            outs,
            t,
        ).insert(
            t + m.synapses[x].delay,
            spec_schedule_outgoing(p, m, outs, t)[t + m.synapses[x].delay].push(x),
        ),
    decreases outs.len(),
{
    reveal_with_fuel(spec_schedule_outgoing, 3);
    if outs.len() == 0 {
        assert(outs.push(x).drop_first() =~= Seq::<int>::empty());
    } else {
        assert(outs.push(x).drop_first() =~= outs.drop_first().push(x));
        let due0 = t + m.synapses[outs[0]].delay;
        lemma_schedule_outgoing_push(
            p.insert(due0, p[due0].push(outs[0])),
            m,
            outs.drop_first(),
            t,
            x,
        );
    }
}

proof fn lemma_schedule_fired_push(
    p: Map<int, Seq<int>>,
    m: NetworkModel,
    fired: Seq<int>,
    t: int,
    x: int,
)
    ensures
        spec_schedule_fired(p, m, fired.push(x), t) == spec_schedule_outgoing(
            spec_schedule_fired(p, m, fired, t),
            m,
            m.neurons[x].post_synapses,
            t,
        ),
    decreases fired.len(),
{
    reveal_with_fuel(spec_schedule_fired, 3);
    if fired.len() == 0 {
        assert(fired.push(x).drop_first() =~= Seq::<int>::empty());
    } else {
        assert(fired.push(x).drop_first() =~= fired.drop_first().push(x));
        lemma_schedule_fired_push(
            spec_schedule_outgoing(p, m, m.neurons[fired[0]].post_synapses, t),
            m,
            fired.drop_first(),
            t,
            x,
        );
    }
}

/// The image of one whole simulation step on the network: synaptic
/// inputs cleared, the spikes of `due` delivered in order, then every
/// neuron advanced by one step with its STDP bookkeeping.
pub open spec fn spec_network_step(
    m: NetworkModel,
    due: Seq<int>,
    fire_reset: int,
    decay: int,
) -> NetworkModel {
    let delivered = spec_deliver_seq(spec_reset_inputs(m), due);
    spec_update_pass(delivered, fire_reset, decay, delivered.neurons.len() as int)
}

/// Drives a network through discrete time: keeps the clock, delivers
/// delayed spikes when they fall due, and schedules the spikes of newly
/// fired neurons.
pub struct Simulator {
    current_time_step: Timestep,
    future_spikes: FutureSpikes,
    stdp_config: StdpConfig,
}

impl Simulator {
    /// The current time step.
    pub closed spec fn time(&self) -> int {
        self.current_time_step as int
    }

    /// The number of ring slots; every synapse delay must stay strictly
    /// below it.
    pub closed spec fn slot_count(&self) -> int {
        self.future_spikes.size()
    }

    /// The synapse ids scheduled for each upcoming time step.
    pub closed spec fn pending(&self) -> Map<int, Seq<int>> {
        self.future_spikes.pending()
    }

    /// The configured STDP trace reset value.
    pub closed spec fn stdp_fire_reset(&self) -> int {
        self.stdp_config.fire_reset@
    }

    /// The configured per-step STDP trace decay.
    pub closed spec fn stdp_decay(&self) -> int {
        self.stdp_config.decay@
    }

    /// The simulator's internal invariant.
    pub closed spec fn wf(&self) -> bool {
        self.future_spikes.wf(self.time())
    }

    /// Every scheduled synapse id is below `b`.
    pub closed spec fn ids_below(&self, b: int) -> bool {
        self.future_spikes.ids_below(b)
    }

    /// A simulator for a network whose synapse delays are at most
    /// `max_delay`: the spike ring is sized to the smallest power of two
    /// strictly greater than the maximum delay, so a scheduled spike can
    /// never wrap around onto the current slot. Time starts at zero with
    /// nothing scheduled.
    pub fn new(max_delay: SynapseDelay, stdp_config: StdpConfig) -> (r: Simulator)
        requires
            max_delay@ >= 2,
        ensures
            r.wf(),
            r.time() == 0,
            r.slot_count() > max_delay@,
            spec_is_power_of_two(r.slot_count()),
            r.stdp_fire_reset() == stdp_config.fire_reset@,
            r.stdp_decay() == stdp_config.decay@,
            forall|t: int|
                0 <= t < r.slot_count() ==> #[trigger] r.pending()[t] == Seq::<int>::empty(),
            forall|b: int| #[trigger] r.ids_below(b),
    {
        let md = max_delay.get() as usize;
        proof {
            use_type_invariant(&max_delay);
        }
        let mut size: usize = 1;
        while size <= md
            invariant
                1 <= size <= 512,
                md <= 255,
                spec_is_power_of_two(size as int),
            decreases 2 * md - size,
        {
            proof {
                assert((2 * size as int) % 2 == 0 && (2 * size as int) / 2 == size as int);
                assert(spec_is_power_of_two(2 * size as int));
            }
            size = size * 2;
        }
        Simulator {
            current_time_step: 0,
            future_spikes: FutureSpikes::new(size),
            stdp_config,
        }
    }

    /// The current time step.
    pub fn current_time_step(&self) -> (r: Timestep)
        ensures
            r as int == self.time(),
    {
        self.current_time_step
    }

    /// The number of slots of the spike ring.
    pub fn ring_size(&self) -> (r: usize)
        ensures
            r as int == self.slot_count(),
    {
        self.future_spikes.slot_len()
    }

    /// One discrete time step, in this exact order: zero every neuron's
    /// synaptic input, deliver every spike due now, advance every neuron
    /// (reporting each firing to `recorder` and crediting its incoming
    /// synapses), schedule the fired neurons' outgoing spikes for
    /// delivery after their delays, and advance the clock.
    ///
    /// External input currents have to be set beforehand by calling
    /// `set_external_input`.
    pub fn step<R: EventRecorder>(
        &mut self,
        network: &mut Network,
        recorder: &mut R,
    )
        requires
            old(self).wf(),
            old(network).wf(),
            old(network)@.max_delay < old(self).slot_count(),
            old(self).ids_below(old(network)@.synapses.len() as int),
            old(self).time() + old(self).slot_count() <= usize::MAX,
        ensures
            final(self).wf(),
            final(network).wf(),
            final(self).time() == old(self).time() + 1,
            final(self).slot_count() == old(self).slot_count(),
            final(self).stdp_fire_reset() == old(self).stdp_fire_reset(),
            final(self).stdp_decay() == old(self).stdp_decay(),
            final(network)@ == spec_network_step(
                old(network)@,
                old(self).pending()[old(self).time()],
                old(self).stdp_fire_reset(),
                old(self).stdp_decay(),
            ),
            final(self).pending() == spec_schedule_fired(
                old(self).pending().remove(old(self).time()).insert(
                    old(self).time() + old(self).slot_count(),
                    Seq::<int>::empty(),
                ),
                final(network)@,
                spec_fired(
                    spec_deliver_seq(
                        spec_reset_inputs(old(network)@),
                        old(self).pending()[old(self).time()],
                    ).neurons,
                ),
                old(self).time(),
            ),
            final(self).ids_below(final(network)@.synapses.len() as int),
            final(network)@.max_delay == old(network)@.max_delay,
            final(network)@.synapses.len() == old(network)@.synapses.len(),
            final(network)@.neurons.len() == old(network)@.neurons.len(),
    {
        let time_step = self.current_time_step;
        let ghost t = time_step as int;
        let ghost syn_count = old(network)@.synapses.len() as int;

        // Clear all input currents.
        network.reset_all_input_currents();

        // Deliver all the synaptic input that falls due at this step.
        let spikes = self.future_spikes.drain_current(time_step);
        proof {
            assert(old(self).future_spikes.ids_below(syn_count));
        }
        network.process_firing_synapses(&spikes);

        // Advance every neuron; the network credits the incoming
        // synapses of each neuron that fires.
        let fired = network.update_state(self.stdp_config);

        let ghost mfinal = network@;
        let ghost p1 = old(self).pending().remove(t).insert(
            t + old(self).slot_count(),
            Seq::<int>::empty(),
        );
        let ghost fired_ints = fired@.map_values(|id: NeuronId| id@);

        let next = time_step + 1;
        let nf = fired.len();
        let mut k: usize = 0;
        proof {
            assert(fired_ints.take(0) =~= Seq::<int>::empty());
            assert(self.future_spikes.pending() == p1);
        }
        while k < nf
            invariant
                k <= nf,
                nf == fired@.len(),
                network.wf(),
                network@ == mfinal,
                wf_network(mfinal),
                self.current_time_step == time_step,
                t == time_step as int,
                next == time_step + 1,
                time_step + self.future_spikes.size() <= usize::MAX,
                mfinal.max_delay < self.future_spikes.size(),
                fired_ints == fired@.map_values(|id: NeuronId| id@),
                forall|j: int|
                    0 <= j < fired@.len() ==> 0 <= (#[trigger] fired@[j])@ < mfinal.neurons.len(),
                self.future_spikes.wf(next as int),
                self.future_spikes.size() == old(self).slot_count(),
                self.future_spikes.pending() == spec_schedule_fired(
                    p1,
                    mfinal,
                    fired_ints.take(k as int),
                    t,
                ),
                self.future_spikes.ids_below(mfinal.synapses.len() as int),
                self.stdp_config == old(self).stdp_config,
            decreases nf - k,
        {
            let neuron_id = fired[k];
            recorder.record_fire(neuron_id, time_step);

            let n_out = network.get_neuron(neuron_id).post_synapses.len();
            let ghost outs = network@.neurons[neuron_id@].post_synapses;
            let ghost p2 = self.future_spikes.pending();
            let mut j: usize = 0;
            proof {
                assert(outs.take(0) =~= Seq::<int>::empty());
            }
            while j < n_out
                invariant
                    j <= n_out,
                    network.wf(),
                    network@ == mfinal,
                    wf_network(mfinal),
                    0 <= neuron_id@ < mfinal.neurons.len(),
                    outs == mfinal.neurons[neuron_id@].post_synapses,
                    n_out == outs.len(),
                    self.current_time_step == time_step,
                    t == time_step as int,
                    next == time_step + 1,
                    time_step + self.future_spikes.size() <= usize::MAX,
                    mfinal.max_delay < self.future_spikes.size(),
                    self.future_spikes.wf(next as int),
                    self.future_spikes.size() == old(self).slot_count(),
                    self.future_spikes.pending() == spec_schedule_outgoing(
                        p2,
                        mfinal,
                        outs.take(j as int),
                        t,
                    ),
                    self.future_spikes.ids_below(mfinal.synapses.len() as int),
                    self.stdp_config == old(self).stdp_config,
                decreases n_out - j,
            {
                let syn_id = network.get_neuron(neuron_id).post_synapses[j];
                proof {
                    assert(0 <= mfinal.neurons[neuron_id@].post_synapses[j as int]
                        < mfinal.synapses.len());
                    assert(syn_id@ == outs[j as int]);
                    assert(spec_synapse_ok(mfinal, mfinal.synapses[syn_id@]));
                }
                let synapse_delay = network.get_synapse(syn_id).synapse_delay;
                let due = time_step + (synapse_delay.get() as usize);
                self.future_spikes.schedule(syn_id, next, due);
                proof {
                    lemma_schedule_outgoing_push(p2, mfinal, outs.take(j as int), t, outs[j as int]);
                    assert(outs.take(j as int + 1) =~= outs.take(j as int).push(outs[j as int]));
                }
                j = j + 1;
            }
            proof {
                assert(outs.take(n_out as int) =~= outs);
                lemma_schedule_fired_push(p1, mfinal, fired_ints.take(k as int), t, fired_ints[k as int]);
                assert(fired_ints.take(k as int + 1) =~= fired_ints.take(k as int).push(
                    fired_ints[k as int],
                ));
            }
            k = k + 1;
        }
        proof {
            assert(fired_ints.take(nf as int) =~= fired_ints);
        }

        self.current_time_step = next;
    }
}

} // verus!
