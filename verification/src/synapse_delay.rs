use vstd::prelude::*;

verus! {

/// A synaptic conduction delay, in whole time steps. A delay of zero is
/// invalid: a spike can never arrive in the very step that produced it.
#[derive(Debug, PartialEq, PartialOrd, Ord, Eq, Clone, Copy, Structural)]
pub struct SynapseDelay(u8);

impl View for SynapseDelay {
    type V = int;

    closed spec fn view(&self) -> int {
        self.0 as int
    }
}

impl SynapseDelay {
    /// Every delay is at least one time step.
    #[verifier::type_invariant]
    pub open spec fn inv(self) -> bool {
        1 <= self@ <= 255
    }

    pub fn new(delay: u8) -> (r: SynapseDelay)
        requires
            delay > 0,
        ensures
            r@ == delay as int,
    {
        SynapseDelay(delay)
    }

    pub fn get(self) -> (r: u8)
        ensures
            r as int == self@,
    {
        self.0
    }
}

} // verus!
