use izhikevich_neurons::{Network, NetworkError, NeuronConfig, Num};

#[test]
fn test_network() {
    let mut network = Network::new();
    let n1 = network.create_neuron(NeuronConfig::regular_spiking());
    let n2 = network.create_neuron(NeuronConfig::regular_spiking());
    assert_eq!(2, network.total_neurons());

    let _syn1 = network.connect(n1, n2, 3, Num::new(1_000_000)).unwrap();
    assert_eq!(0, network.get_neuron(n1).pre_synapses.len());
    assert_eq!(1, network.get_neuron(n1).post_synapses.len());
}

#[test]
fn connect_with_zero_delay_fails() {
    let mut network = Network::new();
    let n1 = network.create_neuron(NeuronConfig::regular_spiking());
    let n2 = network.create_neuron(NeuronConfig::regular_spiking());

    let result = network.connect(n1, n2, 0, Num::new(5_000_000));
    assert_eq!(result, Err(NetworkError::InvalidDelay));
    // The failed connect left the network unchanged.
    assert_eq!(0, network.total_synapses());
    assert_eq!(0, network.max_delay());

    // A delay of one is the smallest accepted value.
    let ok = network.connect(n1, n2, 1, Num::new(5_000_000));
    assert!(ok.is_ok());
    assert_eq!(1, network.total_synapses());
    assert_eq!(1, network.max_delay());
}

#[test]
fn connect_with_bad_neuron_id_fails() {
    let mut donor = Network::new();
    let d0 = donor.create_neuron(NeuronConfig::regular_spiking());
    let d1 = donor.create_neuron(NeuronConfig::regular_spiking());
    let d2 = donor.create_neuron(NeuronConfig::regular_spiking());
    let _ = d0;
    let _ = d1;

    // An id minted by a larger network is out of range for this one.
    let mut network = Network::new();
    let n0 = network.create_neuron(NeuronConfig::regular_spiking());
    let result = network.connect(n0, d2, 2, Num::new(1_000_000));
    assert_eq!(result, Err(NetworkError::InvalidNeuronId));
    assert_eq!(0, network.total_synapses());
}

#[test]
fn weight_update_clamps_into_range() {
    let mut network = Network::new();
    let n1 = network.create_neuron(NeuronConfig::regular_spiking());
    let n2 = network.create_neuron(NeuronConfig::regular_spiking());

    // Weight 50.0 lies far above the admissible maximum of 10.0.
    let _ = network.connect(n1, n2, 2, Num::new(50_000_000)).unwrap();
    // Weight -3.0 lies below the admissible minimum of 0.0.
    let low = network.connect(n1, n2, 2, Num::new(-3_000_000)).unwrap();
    // Weight 7.5 is admissible and must pass through unchanged.
    let _ = network.connect(n2, n1, 2, Num::new(7_500_000)).unwrap();

    network.update_synapse_weights(Num::new(0), Num::new(10_000_000), Num::new(900_000));

    let weights = network.save_weights();
    assert_eq!(weights[0].raw(), 10_000_000);
    assert_eq!(weights[1].raw(), 0);
    assert_eq!(weights[2].raw(), 7_500_000);
    for w in weights.iter() {
        assert!(0 <= w.raw() && w.raw() <= 10_000_000);
    }
    assert_eq!(network.get_synapse(low).eff_d.raw(), 0);
}

#[test]
fn max_synapse_delay_is_largest_connected() {
    let mut network = Network::new();
    let n1 = network.create_neuron(NeuronConfig::regular_spiking());
    let n2 = network.create_neuron(NeuronConfig::regular_spiking());
    let _ = network.connect(n1, n2, 7, Num::new(1_000_000)).unwrap();
    let _ = network.connect(n2, n1, 40, Num::new(1_000_000)).unwrap();
    let _ = network.connect(n1, n2, 12, Num::new(1_000_000)).unwrap();
    assert_eq!(network.max_delay(), 40);
    assert_eq!(network.max_synapse_delay().get(), 40);
}

#[test]
fn save_and_restore_state_round_trip() {
    let mut network = Network::new();
    let n1 = network.create_neuron(NeuronConfig::regular_spiking());
    let n2 = network.create_neuron(NeuronConfig::chattering());
    let _ = network.connect(n1, n2, 2, Num::new(5_000_000)).unwrap();

    // Move the network away from its initial state.
    network.set_external_input(n1, Num::new(7_000_000));
    for _ in 0..50 {
        let _ = network.update_state(izhikevich_neurons::StdpConfig::default());
    }

    let states = network.save_state();
    let weights = network.save_weights();
    let before: Vec<(i64, i64)> = [n1, n2]
        .iter()
        .map(|&id| {
            let neuron = network.get_neuron(id);
            (neuron.state.potential().raw(), neuron.state.recovery().raw())
        })
        .collect();

    // Restoring what was just saved must leave everything as it was.
    network.restore_state(&states);
    network.restore_weights(&weights);

    let after: Vec<(i64, i64)> = [n1, n2]
        .iter()
        .map(|&id| {
            let neuron = network.get_neuron(id);
            (neuron.state.potential().raw(), neuron.state.recovery().raw())
        })
        .collect();
    assert_eq!(before, after);
    let weights_after = network.save_weights();
    assert_eq!(
        weights.iter().map(|w| w.raw()).collect::<Vec<_>>(),
        weights_after.iter().map(|w| w.raw()).collect::<Vec<_>>()
    );
}

#[test]
fn connect_all_links_every_pair() {
    let mut network = Network::new();
    let mut inputs = Vec::new();
    for _ in 0..3 {
        inputs.push(network.create_neuron(NeuronConfig::regular_spiking()));
    }
    let mut outputs = Vec::new();
    for _ in 0..2 {
        outputs.push(network.create_neuron(NeuronConfig::regular_spiking()));
    }

    network.connect_all(&inputs, &outputs, 2, Num::new(2_000_000));

    assert_eq!(network.total_synapses(), 6);
    for &i in &inputs {
        assert_eq!(network.get_neuron(i).post_synapses.len(), 2);
        assert_eq!(network.get_neuron(i).pre_synapses.len(), 0);
    }
    for &o in &outputs {
        assert_eq!(network.get_neuron(o).pre_synapses.len(), 3);
        assert_eq!(network.get_neuron(o).post_synapses.len(), 0);
    }
    assert_eq!(network.max_delay(), 2);
}
