use crate::neuron_id::NeuronId;
use crate::num::Num;
use crate::synapse_delay::SynapseDelay;
use vstd::prelude::*;

verus! {

/// Mathematical image of a synapse: endpoints and delay as plain
/// integers, weight and efficacy derivative as raw fixed-point values.
#[verifier::ext_equal]
pub struct SynapseModel {
    pub pre_neuron: int,
    pub post_neuron: int,
    pub delay: int,
    pub weight: int,
    pub eff_d: int,
}

/// A directed connection from `pre_neuron` (source) to `post_neuron`
/// (target). Endpoints and delay are fixed at connect time; the weight and
/// the efficacy derivative `eff_d` (the accumulator of pending STDP weight
/// change) mutate over the simulation's lifetime.
#[derive(Debug, Clone, Copy)]
pub struct Synapse {
    pub pre_neuron: NeuronId,
    pub post_neuron: NeuronId,
    pub synapse_delay: SynapseDelay,
    pub weight: Num,
    pub eff_d: Num,
}

impl View for Synapse {
    type V = SynapseModel;

    open spec fn view(&self) -> SynapseModel {
        SynapseModel {
            pre_neuron: self.pre_neuron@,
            post_neuron: self.post_neuron@,
            delay: self.synapse_delay@,
            weight: self.weight@,
            eff_d: self.eff_d@,
        }
    }
}

} // verus!
