use vstd::prelude::*;

verus! {

/// Dense, zero-based index of a neuron in its owning network.
/// Stable for the lifetime of the network; never reused.
#[derive(Debug, PartialEq, Eq, Clone, Copy, Structural)]
pub struct NeuronId(u32);

impl View for NeuronId {
    type V = int;

    closed spec fn view(&self) -> int {
        self.0 as int
    }
}

impl NeuronId {
    /// An id is the 32-bit index it wraps, so its value is never
    /// negative.
    #[verifier::type_invariant]
    pub open spec fn inv(self) -> bool {
        0 <= self@ < 0x1_0000_0000
    }

    pub(crate) fn from_index(index: usize) -> (r: NeuronId)
        requires
            index < 0x1_0000_0000,
        ensures
            r@ == index as int,
    {
        NeuronId(index as u32)
    }

    /// The position of the neuron in the network's dense neuron list.
    pub fn index(&self) -> (r: usize)
        ensures
            r as int == self@,
    {
        self.0 as usize
    }
}

} // verus!
