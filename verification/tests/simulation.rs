use izhikevich_neurons::{
    Event, EventQueue, FireRecorder, Network, NeuronConfig, Num, Simulator, StdpConfig,
    SynapseDelay,
};

#[test]
fn delayed_spike_arrives_exactly_after_its_delay() {
    // Two neurons, one synapse source -> target with delay 2, weight 5.0;
    // constant current 7.0 into the source makes it fire at some step T;
    // the target's synaptic input must be exactly 5.0 at step T + 2 and
    // exactly 0.0 at every other step up to then.
    let mut network = Network::new();
    let source = network.create_neuron(NeuronConfig::regular_spiking());
    let target = network.create_neuron(NeuronConfig::regular_spiking());
    let _ = network.connect(source, target, 2, Num::new(5_000_000)).unwrap();

    let mut sim = Simulator::new(SynapseDelay::new(4), StdpConfig::default());
    let mut recorder = FireRecorder::new();

    network.set_external_input(source, Num::new(7_000_000));

    let mut i_inp_trace: Vec<i64> = Vec::new();
    let mut first_fire: Option<usize> = None;
    for t in 0..2000 {
        sim.step(&mut network, &mut recorder);
        i_inp_trace.push(network.get_neuron(target).i_inp.raw());
        if first_fire.is_none() {
            if let Some(&(id, at)) = recorder.events.first() {
                assert_eq!(id, source);
                assert_eq!(at, t);
                first_fire = Some(at);
            }
        }
        if let Some(fire_at) = first_fire {
            if t == fire_at + 2 {
                break;
            }
        }
    }

    let fire_at = first_fire.expect("the driven neuron must fire");
    for (t, &i_inp) in i_inp_trace.iter().enumerate() {
        if t == fire_at + 2 {
            assert_eq!(i_inp, 5_000_000);
        } else {
            assert_eq!(i_inp, 0);
        }
    }
}

#[test]
fn plasticity_trace_resets_and_decays() {
    let mut network = Network::new();
    let neuron = network.create_neuron(NeuronConfig::regular_spiking());
    let mut sim = Simulator::new(SynapseDelay::new(2), StdpConfig::default());
    let mut recorder = FireRecorder::new();

    network.set_external_input(neuron, Num::new(7_000_000));
    let mut steps_after_fire: Option<u32> = None;
    for _ in 0..2000 {
        sim.step(&mut network, &mut recorder);
        if let Some(n) = steps_after_fire {
            steps_after_fire = Some(n + 1);
        }
        if steps_after_fire.is_none() && !recorder.events.is_empty() {
            // The trace was just reset to 0.1.
            assert_eq!(network.get_neuron(neuron).stdp.raw(), 100_000);
            steps_after_fire = Some(0);
        }
        if steps_after_fire == Some(1) {
            // One silent step later it has decayed once: 0.1 * 0.95.
            assert_eq!(network.get_neuron(neuron).stdp.raw(), 95_000);
            return;
        }
    }
    panic!("the driven neuron never fired");
}

#[test]
fn weights_stay_in_range_during_learning() {
    let mut network = Network::new();
    let a = network.create_neuron(NeuronConfig::regular_spiking());
    let b = network.create_neuron(NeuronConfig::regular_spiking());
    let _ = network.connect(a, b, 2, Num::new(9_000_000)).unwrap();
    let _ = network.connect(b, a, 3, Num::new(9_000_000)).unwrap();

    let mut sim = Simulator::new(SynapseDelay::new(4), StdpConfig::default());
    let mut recorder = FireRecorder::new();
    network.set_external_input(a, Num::new(7_000_000));
    network.set_external_input(b, Num::new(7_500_000));

    for t in 0..1000 {
        sim.step(&mut network, &mut recorder);
        // The observable potential never exceeds the firing threshold.
        assert!(network.get_neuron(a).state.potential().raw() <= 30_000_000);
        assert!(network.get_neuron(b).state.potential().raw() <= 30_000_000);
        if t % 50 == 0 {
            network.update_synapse_weights(
                Num::new(0),
                Num::new(10_000_000),
                Num::new(900_000),
            );
            for w in network.save_weights().iter() {
                assert!(0 <= w.raw() && w.raw() <= 10_000_000);
            }
        }
    }
    assert!(!recorder.events.is_empty());
}

#[test]
fn ring_is_sized_strictly_above_the_maximum_delay() {
    let sim = Simulator::new(SynapseDelay::new(40), StdpConfig::default());
    assert_eq!(sim.ring_size(), 64);
    assert_eq!(sim.current_time_step(), 0);

    // A maximum delay that is itself a power of two still gets a
    // strictly larger ring, so a full-delay spike cannot wrap onto the
    // slot being delivered.
    let sim2 = Simulator::new(SynapseDelay::new(8), StdpConfig::default());
    assert_eq!(sim2.ring_size(), 16);
}

#[test]
fn event_queue_pops_only_ready_events() {
    let mut network = Network::new();
    let n0 = network.create_neuron(NeuronConfig::regular_spiking());
    let n1 = network.create_neuron(NeuronConfig::regular_spiking());

    let mut queue = EventQueue::new();
    assert!(queue.pop_next_event_at(0).is_none());

    queue.push(Event { at: 9, neuron: n1, weight: Num::new(4_000_000) });
    queue.push(Event { at: 5, neuron: n0, weight: Num::new(7_000_000) });
    queue.push(Event { at: 5, neuron: n1, weight: Num::new(3_000_000) });

    // Nothing is due before the earliest timestamp.
    assert!(queue.pop_next_event_at(4).is_none());

    // At step 5, the two ready events come out one per call, in
    // insertion order, and then the queue reports nothing more.
    let first = queue.pop_next_event_at(5).unwrap();
    assert_eq!(first.neuron, n0);
    assert_eq!(first.weight.raw(), 7_000_000);
    let second = queue.pop_next_event_at(5).unwrap();
    assert_eq!(second.neuron, n1);
    assert_eq!(second.weight.raw(), 3_000_000);
    assert!(queue.pop_next_event_at(5).is_none());

    let third = queue.pop_next_event_at(9).unwrap();
    assert_eq!(third.at, 9);
    assert_eq!(queue.len(), 0);
}

#[test]
fn event_queue_drives_external_inputs() {
    let mut network = Network::new();
    let neuron = network.create_neuron(NeuronConfig::regular_spiking());
    let mut sim = Simulator::new(SynapseDelay::new(2), StdpConfig::default());
    let mut recorder = FireRecorder::new();

    let mut queue = EventQueue::new();
    queue.push(Event { at: 3, neuron, weight: Num::new(7_000_000) });

    for _ in 0..500 {
        let now = sim.current_time_step();
        while let Some(ev) = queue.pop_next_event_at(now) {
            network.set_external_input(ev.neuron, ev.weight);
        }
        sim.step(&mut network, &mut recorder);
    }
    // The stimulus injected at step 3 eventually makes the neuron fire.
    assert!(!recorder.events.is_empty());
    assert!(recorder.events[0].1 >= 3);
}

#[test]
fn resumed_simulation_fires_like_an_uninterrupted_one() {
    let stdp = StdpConfig::default();

    // Continuous run: 400 steps.
    let mut net_a = Network::new();
    let a0 = net_a.create_neuron(NeuronConfig::regular_spiking());
    let a1 = net_a.create_neuron(NeuronConfig::chattering());
    let mut sim_a = Simulator::new(SynapseDelay::new(2), stdp);
    let mut rec_a = FireRecorder::new();
    net_a.set_external_input(a0, Num::new(7_000_000));
    net_a.set_external_input(a1, Num::new(6_000_000));
    for _ in 0..400 {
        sim_a.step(&mut net_a, &mut rec_a);
    }

    // Interrupted run: 200 steps, snapshot, restore into a fresh
    // network, then 200 more steps under the same external inputs.
    let mut net_b = Network::new();
    let b0 = net_b.create_neuron(NeuronConfig::regular_spiking());
    let b1 = net_b.create_neuron(NeuronConfig::chattering());
    let mut sim_b = Simulator::new(SynapseDelay::new(2), stdp);
    let mut rec_b = FireRecorder::new();
    net_b.set_external_input(b0, Num::new(7_000_000));
    net_b.set_external_input(b1, Num::new(6_000_000));
    for _ in 0..200 {
        sim_b.step(&mut net_b, &mut rec_b);
    }
    let states = net_b.save_state();
    let weights = net_b.save_weights();

    let mut net_c = Network::new();
    let c0 = net_c.create_neuron(NeuronConfig::regular_spiking());
    let c1 = net_c.create_neuron(NeuronConfig::chattering());
    net_c.restore_state(&states);
    net_c.restore_weights(&weights);
    net_c.set_external_input(c0, Num::new(7_000_000));
    net_c.set_external_input(c1, Num::new(6_000_000));
    let mut sim_c = Simulator::new(SynapseDelay::new(2), stdp);
    let mut rec_c = FireRecorder::new();
    for _ in 0..200 {
        sim_c.step(&mut net_c, &mut rec_c);
    }

    // The continuous run's later firings match the resumed run's,
    // shifted by the snapshot time.
    let late_a: Vec<(usize, usize)> = rec_a
        .events
        .iter()
        .filter(|&&(_, t)| t >= 200)
        .map(|&(id, t)| (id.index(), t - 200))
        .collect();
    let resumed: Vec<(usize, usize)> =
        rec_c.events.iter().map(|&(id, t)| (id.index(), t)).collect();
    assert_eq!(late_a, resumed);
    assert!(!resumed.is_empty());
    let _ = (b1, c1);
}

#[test]
fn external_input_is_sticky_and_additive() {
    let mut network = Network::new();
    let neuron = network.create_neuron(NeuronConfig::regular_spiking());
    assert_eq!(network.get_external_input(neuron).raw(), 0);

    network.set_external_input(neuron, Num::new(3_000_000));
    assert_eq!(network.get_external_input(neuron).raw(), 3_000_000);
    network.increase_external_input(neuron, Num::new(1_500_000));
    assert_eq!(network.get_external_input(neuron).raw(), 4_500_000);

    // Stepping does not clear the external input, only the synaptic one.
    let mut sim = Simulator::new(SynapseDelay::new(2), StdpConfig::default());
    let mut sink = izhikevich_neurons::DummyRecorder;
    for _ in 0..10 {
        sim.step(&mut network, &mut sink);
    }
    assert_eq!(network.get_external_input(neuron).raw(), 4_500_000);
    assert_eq!(network.get_neuron(neuron).i_inp.raw(), 0);
}
