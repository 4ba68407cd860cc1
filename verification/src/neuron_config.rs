use crate::num::{sat_add, sat_mul, sat_sub, Num, FRAC};
use crate::Closed01;
use vstd::prelude::*;

verus! {

/// Mathematical image of a neuron configuration: the four Izhikevich
/// parameters as raw fixed-point values.
#[verifier::ext_equal]
pub struct NeuronConfigModel {
    /// Rate of recovery.
    pub a: int,
    /// Sensitivity of the recovery variable `u` to the potential `v`.
    pub b: int,
    /// After-spike reset value of the potential `v`.
    pub c: int,
    /// After-spike increment of the recovery variable `u`.
    pub d: int,
}

/// A neuron's static configuration parameters, fixed at creation time.
#[derive(Debug, Clone, Copy)]
pub struct NeuronConfig {
    a: Num,
    b: Num,
    c: Num,
    d: Num,
}

impl View for NeuronConfig {
    type V = NeuronConfigModel;

    closed spec fn view(&self) -> NeuronConfigModel {
        NeuronConfigModel { a: self.a@, b: self.b@, c: self.c@, d: self.d@ }
    }
}

/// Parameters of an excitatory cell: `a = 0.02`, `b = 0.2`,
/// `c = -65 + 15 r^2`, `d = 8 - 6 r^2`, for `r` in [0, 1].
pub open spec fn spec_excitatory(r: int) -> NeuronConfigModel {
    let r2 = sat_mul(r, r);
    NeuronConfigModel {
        a: 20_000,
        b: 200_000,
        c: sat_add(-65_000_000, sat_mul(15_000_000, r2)),
        d: sat_sub(8_000_000, sat_mul(6_000_000, r2)),
    }
}

/// Parameters of an inhibitory cell: `a = 0.02 + 0.08 r`,
/// `b = 0.25 - 0.05 r`, `c = -65`, `d = 2`, for `r` in [0, 1].
pub open spec fn spec_inhibitory(r: int) -> NeuronConfigModel {
    NeuronConfigModel {
        a: sat_add(20_000, sat_mul(80_000, r)),
        b: sat_sub(250_000, sat_mul(50_000, r)),
        c: -65_000_000,
        d: 2_000_000,
    }
}

impl NeuronConfig {
    /// Rate of recovery.
    pub fn a_value(&self) -> (r: Num)
        ensures
            r@ == self@.a,
    {
        self.a
    }

    /// Sensitivity of the recovery variable `u` to the potential `v`.
    pub fn b_value(&self) -> (r: Num)
        ensures
            r@ == self@.b,
    {
        self.b
    }

    /// After-spike reset value of the potential `v`.
    pub fn c_value(&self) -> (r: Num)
        ensures
            r@ == self@.c,
    {
        self.c
    }

    /// After-spike increment of the recovery variable `u`.
    pub fn d_value(&self) -> (r: Num)
        ensures
            r@ == self@.d,
    {
        self.d
    }

    /// Excitatory cell configuration, where `r` is a random variable
    /// uniformly distributed in [0, 1] chosen by the caller.
    pub fn excitatory(r: Closed01) -> (cfg: NeuronConfig)
        ensures
            cfg@ == spec_excitatory(r@),
    {
        let rv = r.get();
        let r2 = rv.mul(rv);
        NeuronConfig {
            a: Num::new(20_000),
            b: Num::new(200_000),
            c: Num::new(-65_000_000).add(Num::new(15_000_000).mul(r2)),
            d: Num::new(8_000_000).sub(Num::new(6_000_000).mul(r2)),
        }
    }

    /// Inhibitory cell configuration, where `r` is a random variable
    /// uniformly distributed in [0, 1] chosen by the caller.
    pub fn inhibitory(r: Closed01) -> (cfg: NeuronConfig)
        ensures
            cfg@ == spec_inhibitory(r@),
    {
        let rv = r.get();
        NeuronConfig {
            a: Num::new(20_000).add(Num::new(80_000).mul(rv)),
            b: Num::new(250_000).sub(Num::new(50_000).mul(rv)),
            c: Num::new(-65_000_000),
            d: Num::new(2_000_000),
        }
    }

    /// Regular spiking (RS) cell configuration.
    pub fn regular_spiking() -> (cfg: NeuronConfig)
        ensures
            cfg@ == spec_excitatory(0),
    {
        NeuronConfig::excitatory(Closed01::new(Num::new(0)))
    }

    /// Chattering (CH) cell configuration.
    pub fn chattering() -> (cfg: NeuronConfig)
        ensures
            cfg@ == spec_excitatory(FRAC as int),
    {
        NeuronConfig::excitatory(Closed01::new(Num::new(FRAC)))
    }
}

/// One of the broad neuron types; converts directly into a `NeuronConfig`.
pub enum NeuronType {
    Excitatory(Closed01),
    Inhibitory(Closed01),
    RegularSpiking,
    Chattering,
}

impl NeuronType {
    /// The configuration parameters this neuron type stands for.
    pub fn to_config(self) -> (cfg: NeuronConfig)
        ensures
            cfg@ == match self {
                NeuronType::Excitatory(r) => spec_excitatory(r@),
                NeuronType::Inhibitory(r) => spec_inhibitory(r@),
                NeuronType::RegularSpiking => spec_excitatory(0),
                NeuronType::Chattering => spec_excitatory(FRAC as int),
            },
    {
        match self {
            NeuronType::Excitatory(r) => NeuronConfig::excitatory(r),
            NeuronType::Inhibitory(r) => NeuronConfig::inhibitory(r),
            NeuronType::RegularSpiking => NeuronConfig::regular_spiking(),
            NeuronType::Chattering => NeuronConfig::chattering(),
        }
    }
}

} // verus!
