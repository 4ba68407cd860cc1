use crate::neuron_id::NeuronId;
use crate::Timestep;
use vstd::prelude::*;

verus! {

/// A sink for firing notifications: the simulator reports each neuron
/// that fires, together with the time step, exactly once.
pub trait EventRecorder {
    fn record_fire(&mut self, neuron_id: NeuronId, time_step: Timestep);
}

/// A recorder that keeps every reported firing, in report order.
#[derive(Debug)]
pub struct FireRecorder {
    pub events: Vec<(NeuronId, Timestep)>,
}

impl FireRecorder {
    pub fn new() -> (r: FireRecorder)
        ensures
            r.events@.len() == 0,
    {
        FireRecorder { events: Vec::new() }
    }
}

impl EventRecorder for FireRecorder {
    fn record_fire(&mut self, neuron_id: NeuronId, time_step: Timestep) {
        self.events.push((neuron_id, time_step));
    }
}

/// A recorder that discards every notification.
#[derive(Debug)]
pub struct DummyRecorder;

impl EventRecorder for DummyRecorder {
    fn record_fire(&mut self, _neuron_id: NeuronId, _time_step: Timestep) {
    }
}

} // verus!
