use crate::num::Num;
use vstd::prelude::*;

verus! {

/// Spike-Timing-Dependent Plasticity (STDP) configuration.
#[derive(Debug, Copy, Clone)]
pub struct StdpConfig {
    /// Multiplicative decay applied to each neuron's plasticity trace on
    /// every simulator time step in which the neuron stays silent.
    pub decay: Num,

    /// The value a neuron's plasticity trace is reset to when it fires.
    pub fire_reset: Num,
}

impl Default for StdpConfig {
    /// Decay of 0.95 per step; trace reset to 0.1 on firing.
    fn default() -> (r: Self)
        ensures
            r.decay@ == 950_000,
            r.fire_reset@ == 100_000,
    {
        StdpConfig { decay: Num::new(950_000), fire_reset: Num::new(100_000) }
    }
}

} // verus!
