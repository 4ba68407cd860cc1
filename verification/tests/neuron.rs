use izhikevich_neurons::{
    Closed01, NeuronConfig, NeuronState, NeuronType, Num, StdpConfig, FRAC, MAX_RAW,
};

#[test]
fn resting_neuron_stays_silent_for_a_thousand_steps() {
    let config = NeuronConfig::regular_spiking();
    let mut state = NeuronState::new();
    for _ in 0..1000 {
        let (next, activity) = state.step_1ms(Num::new(0), &config);
        assert!(!activity.fires());
        state = next;
    }
    // The zero-input regular-spiking neuron sits exactly at rest.
    assert_eq!(state.potential().raw(), -70_000_000);
    assert_eq!(state.recovery().raw(), -14_000_000);
}

#[test]
fn potential_never_exceeds_threshold() {
    let config = NeuronConfig::regular_spiking();
    let mut state = NeuronState::new();
    let mut fired = false;
    // Drive the neuron hard; the observable potential stays clamped.
    for _ in 0..2000 {
        assert!(state.potential().raw() <= 30_000_000);
        let (next, activity) = state.step_1ms(Num::new(20_000_000), &config);
        if activity.fires() {
            fired = true;
            // Right after a spike the potential reads the reset value c.
            assert_eq!(next.potential().raw(), -65_000_000);
        }
        state = next;
    }
    assert!(fired);
}

#[test]
fn excitatory_config_formula() {
    // r = 0.5: c = -65 + 15 * 0.25 = -61.25, d = 8 - 6 * 0.25 = 6.5.
    let cfg = NeuronConfig::excitatory(Closed01::new(Num::new(500_000)));
    assert_eq!(cfg.a_value().raw(), 20_000);
    assert_eq!(cfg.b_value().raw(), 200_000);
    assert_eq!(cfg.c_value().raw(), -61_250_000);
    assert_eq!(cfg.d_value().raw(), 6_500_000);
}

#[test]
fn inhibitory_config_formula() {
    // r = 0.5: a = 0.02 + 0.08 * 0.5 = 0.06, b = 0.25 - 0.05 * 0.5 = 0.225.
    let cfg = NeuronConfig::inhibitory(Closed01::new(Num::new(500_000)));
    assert_eq!(cfg.a_value().raw(), 60_000);
    assert_eq!(cfg.b_value().raw(), 225_000);
    assert_eq!(cfg.c_value().raw(), -65_000_000);
    assert_eq!(cfg.d_value().raw(), 2_000_000);
}

#[test]
fn named_configs_match_the_unit_interval_endpoints() {
    let rs = NeuronConfig::regular_spiking();
    assert_eq!(rs.c_value().raw(), -65_000_000);
    assert_eq!(rs.d_value().raw(), 8_000_000);

    // Chattering: r = 1, so c = -50 and d = 2.
    let ch = NeuronConfig::chattering();
    assert_eq!(ch.c_value().raw(), -50_000_000);
    assert_eq!(ch.d_value().raw(), 2_000_000);

    let via_type = NeuronType::Chattering.to_config();
    assert_eq!(via_type.c_value().raw(), ch.c_value().raw());
    assert_eq!(via_type.d_value().raw(), ch.d_value().raw());
}

#[test]
fn stdp_config_default_values() {
    let stdp = StdpConfig::default();
    assert_eq!(stdp.decay.raw(), 950_000);
    assert_eq!(stdp.fire_reset.raw(), 100_000);
}

#[test]
fn num_arithmetic_is_exact_and_saturating() {
    // 1.5 * 2.5 == 3.75, exactly.
    assert_eq!(Num::new(1_500_000).mul(Num::new(2_500_000)).raw(), 3_750_000);
    // Signs: (-1.5) * 2.5 == -3.75, truncated toward zero.
    assert_eq!(Num::new(-1_500_000).mul(Num::new(2_500_000)).raw(), -3_750_000);
    // Products below one raw unit truncate to zero.
    assert_eq!(Num::new(1).mul(Num::new(500_000)).raw(), 0);
    // Addition and multiplication saturate at the representable bounds.
    assert_eq!(Num::new(MAX_RAW).add(Num::new(MAX_RAW)).raw(), MAX_RAW);
    assert_eq!(Num::new(-MAX_RAW).sub(Num::new(MAX_RAW)).raw(), -MAX_RAW);
    assert_eq!(Num::new(MAX_RAW).mul(Num::new(2 * FRAC)).raw(), MAX_RAW);
    // Comparisons follow the raw values.
    assert!(Num::new(-1).lt(Num::new(0)));
    assert!(Num::new(7).le(Num::new(7)));
}

#[test]
fn closed01_holds_its_value() {
    let half = Closed01::new(Num::new(500_000));
    assert_eq!(half.get().raw(), 500_000);
    let one = Closed01::new(Num::new(FRAC));
    assert_eq!(one.get().raw(), FRAC);
}
