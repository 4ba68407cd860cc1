use crate::neuron_config::{NeuronConfig, NeuronConfigModel};
use crate::neuron_state::{spec_fires, spec_step_1ms, NeuronActivity, NeuronState, NeuronStateModel};
use crate::num::{sat_add, sat_mul, Num};
use crate::stdp::StdpConfig;
use crate::synapse_id::SynapseId;
use vstd::prelude::*;

verus! {

/// Mathematical image of a neuron: numeric state, static parameters,
/// accumulated input currents, plasticity trace, and the ids of the
/// synapses it takes part in.
#[verifier::ext_equal]
pub struct NeuronModel {
    pub state: NeuronStateModel,
    pub config: NeuronConfigModel,
    pub i_ext: int,
    pub i_inp: int,
    pub stdp: int,
    pub pre_synapses: Seq<int>,
    pub post_synapses: Seq<int>,
}

/// One neuron of the network.
///
/// `pre_synapses` lists the synapses for which this neuron is the target
/// (incoming connections); `post_synapses` those for which it is the
/// source (outgoing connections).
#[derive(Debug)]
pub struct Neuron {
    /// Internal two-variable numeric state.
    pub state: NeuronState,

    /// Static model parameters.
    pub config: NeuronConfig,

    /// External (injected) input current; persists until overwritten.
    pub i_ext: Num,

    /// Synaptic input current; reset to zero at the start of each step.
    pub i_inp: Num,

    /// Plasticity trace: reset to a fixed value when the neuron fires and
    /// decayed multiplicatively on every silent step.
    pub stdp: Num,

    /// Incoming synapses (this neuron is the target).
    pub pre_synapses: Vec<SynapseId>,

    /// Outgoing synapses (this neuron is the source).
    pub post_synapses: Vec<SynapseId>,
}

impl View for Neuron {
    type V = NeuronModel;

    open spec fn view(&self) -> NeuronModel {
        NeuronModel {
            state: self.state@,
            config: self.config@,
            i_ext: self.i_ext@,
            i_inp: self.i_inp@,
            stdp: self.stdp@,
            pre_synapses: self.pre_synapses@.map_values(|id: SynapseId| id@),
            post_synapses: self.post_synapses@.map_values(|id: SynapseId| id@),
        }
    }
}

/// Image of one neuron after one simulation step: the numeric state
/// advances by 1 ms under the summed input current, and the plasticity
/// trace is reset on firing or decayed otherwise. Everything else is
/// untouched.
pub open spec fn spec_neuron_step(n: NeuronModel, fire_reset: int, decay: int) -> NeuronModel {
    NeuronModel {
        state: spec_step_1ms(n.state, sat_add(n.i_ext, n.i_inp), n.config),
        stdp: if spec_fires(n.state) {
            fire_reset
        } else {
            sat_mul(n.stdp, decay)
        },
        ..n
    }
}

impl Neuron {
    /// Advance the neuron by one time step under its accumulated input
    /// current and update its plasticity trace.
    pub fn update_state(&mut self, stdp_config: StdpConfig) -> (activity: NeuronActivity)
        ensures
            final(self)@ == spec_neuron_step(
                old(self)@,
                stdp_config.fire_reset@,
                stdp_config.decay@,
            ),
            activity is Fires <==> spec_fires(old(self)@.state),
    {
        // Summed synaptic input.
        let syn_i = self.i_ext.add(self.i_inp);

        let (new_state, activity) = self.state.step_1ms(syn_i, &self.config);
        self.state = new_state;

        match activity {
            NeuronActivity::Fires => {
                // Reset the neuron's plasticity trace to a high value.
                self.stdp = stdp_config.fire_reset;
            },
            NeuronActivity::Silent => {
                // Decay the plasticity trace.
                self.stdp = self.stdp.mul(stdp_config.decay);
            },
        }

        activity
    }
}

} // verus!
