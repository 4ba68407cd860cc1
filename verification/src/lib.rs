//! Simulation of networks of Izhikevich spiking neurons with delayed
//! synaptic transmission and spike-timing-dependent plasticity (STDP).
//!
//! All model quantities (potentials, currents, weights, traces) are held in
//! the saturating fixed-point scalar type [`Num`], so every part of the
//! engine carries an exact contract.

use vstd::prelude::*;

mod event_queue;
mod future_spikes;
mod network;
mod neuron;
mod neuron_config;
mod neuron_id;
mod neuron_state;
mod num;
mod recorder;
mod simulator;
mod stdp;
mod synapse;
mod synapse_delay;
mod synapse_id;

pub use crate::event_queue::spec_first_ready;
pub use crate::event_queue::spec_has_ready;
pub use crate::event_queue::Event;
pub use crate::event_queue::EventQueue;
pub use crate::future_spikes::FutureSpikes;
pub use crate::network::spec_advance_neurons;
pub use crate::network::spec_clamp;
pub use crate::network::spec_connect;
pub use crate::network::spec_credit_one;
pub use crate::network::spec_credit_seq;
pub use crate::network::spec_deliver_one;
pub use crate::network::spec_deliver_seq;
pub use crate::network::spec_excite;
pub use crate::network::spec_fired;
pub use crate::network::spec_fired_upto;
pub use crate::network::spec_fresh_neuron;
pub use crate::network::spec_neuron_states;
pub use crate::network::spec_reset_inputs;
pub use crate::network::spec_restore_states;
pub use crate::network::spec_restore_weights;
pub use crate::network::spec_synapse_ok;
pub use crate::network::spec_synapse_weights;
pub use crate::network::spec_update_pass;
pub use crate::network::spec_weight_update;
pub use crate::network::lemma_restore_saved_states;
pub use crate::network::lemma_restore_saved_weights;
pub use crate::network::wf_network;
pub use crate::network::Network;
pub use crate::network::NetworkError;
pub use crate::network::NetworkModel;
pub use crate::neuron::spec_neuron_step;
pub use crate::neuron::Neuron;
pub use crate::neuron::NeuronModel;
pub use crate::neuron_config::spec_excitatory;
pub use crate::neuron_config::spec_inhibitory;
pub use crate::neuron_config::NeuronConfig;
pub use crate::neuron_config::NeuronConfigModel;
pub use crate::neuron_config::NeuronType;
pub use crate::neuron_id::NeuronId;
pub use crate::neuron_state::lemma_resting_neuron_never_fires;
pub use crate::neuron_state::spec_calc;
pub use crate::neuron_state::spec_du;
pub use crate::neuron_state::spec_dv;
pub use crate::neuron_state::spec_fires;
pub use crate::neuron_state::spec_iter_steps;
pub use crate::neuron_state::spec_potential;
pub use crate::neuron_state::spec_resting_state;
pub use crate::neuron_state::spec_step_1ms;
pub use crate::neuron_state::NeuronActivity;
pub use crate::neuron_state::NeuronState;
pub use crate::neuron_state::NeuronStateModel;
pub use crate::num::sat_add;
pub use crate::num::sat_mul;
pub use crate::num::sat_sub;
pub use crate::num::Num;
pub use crate::num::FRAC;
pub use crate::num::MAX_RAW;
pub use crate::recorder::DummyRecorder;
pub use crate::recorder::EventRecorder;
pub use crate::recorder::FireRecorder;
pub use crate::simulator::spec_is_power_of_two;
pub use crate::simulator::spec_network_step;
pub use crate::simulator::spec_schedule_fired;
pub use crate::simulator::spec_schedule_outgoing;
pub use crate::simulator::Simulator;
pub use crate::stdp::StdpConfig;
pub use crate::synapse::Synapse;
pub use crate::synapse::SynapseModel;
pub use crate::synapse_delay::SynapseDelay;
pub use crate::synapse_id::SynapseId;

verus! {

/// Discrete simulation time, in 1 ms steps.
pub type Timestep = usize;

/// A synaptic conduction delay given as a plain number of time steps.
pub type Delay = u8;

/// A scalar constrained to the closed unit interval [0, 1].
#[derive(Debug, PartialEq, Eq, Clone, Copy, Structural)]
pub struct Closed01(Num);

impl View for Closed01 {
    type V = int;

    closed spec fn view(&self) -> int {
        self.0@
    }
}

impl Closed01 {
    #[verifier::type_invariant]
    pub open spec fn inv(self) -> bool {
        0 <= self@ <= FRAC as int
    }

    pub fn new(f: Num) -> (r: Closed01)
        requires
            0 <= f@ <= FRAC as int,
        ensures
            r@ == f@,
    {
        Closed01(f)
    }

    pub fn get(self) -> (r: Num)
        ensures
            r@ == self@,
            0 <= r@ <= FRAC as int,
    {
        proof {
            use_type_invariant(&self);
        }
        self.0
    }
}

} // verus!
