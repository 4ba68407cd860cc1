use crate::neuron_config::{NeuronConfig, NeuronConfigModel};
use crate::num::{sat_add, sat_mul, sat_sub, Num};
use vstd::prelude::*;

verus! {

/// Raw potential at which a neuron fires and is reset to `c`.
pub const RESET_THRESHOLD: i64 = 30_000_000;

/// Initial membrane potential of a fresh neuron (-70 mV).
pub const INITIAL_V: i64 = -70_000_000;

/// Initial recovery value of a fresh neuron (-14).
pub const INITIAL_U: i64 = -14_000_000;

/// Half of a time step, used for the two-half-step integration.
pub const HALF_STEP: i64 = 500_000;

/// Mathematical image of a neuron state: potential and recovery as raw
/// fixed-point values.
#[verifier::ext_equal]
pub struct NeuronStateModel {
    /// Membrane potential of the neuron (in mV).
    pub v: int,
    /// Recovery variable.
    pub u: int,
}

/// The two-variable state of one Izhikevich neuron.
#[derive(Copy, Clone, Debug, PartialEq, Eq, Structural)]
pub struct NeuronState {
    /// Membrane potential of the neuron (in mV).
    v: Num,
    /// Recovery variable.
    u: Num,
}

/// Describes the activity of a neuron after one step of simulation.
/// A neuron either fires an action potential or it is silent.
#[derive(Copy, Clone, Debug, PartialEq, Eq, Structural)]
pub enum NeuronActivity {
    /// The neuron fires an action potential.
    Fires,
    /// The neuron is silent.
    Silent,
}

impl NeuronActivity {
    pub fn fires(&self) -> (r: bool)
        ensures
            r == (self is Fires),
    {
        *self == NeuronActivity::Fires
    }
}

/// Rate of change of the potential:
/// `dv/dt = 0.04 v^2 + 5 v + 140 - u + i_syn`, evaluated with the
/// saturating fixed-point operations in the order the code applies them.
pub open spec fn spec_dv(u: int, v: int, i_syn: int) -> int {
    sat_add(
        sat_sub(sat_add(sat_mul(sat_add(sat_mul(40_000, v), 5_000_000), v), 140_000_000), u),
        i_syn,
    )
}

/// Rate of change of the recovery variable: `du/dt = a (b v - u)`.
pub open spec fn spec_du(u: int, v: int, a: int, b: int) -> int {
    sat_mul(a, sat_sub(sat_mul(b, v), u))
}

/// One forward-Euler sub-step of length `dt`, both variables updated from
/// the pre-step values.
pub open spec fn spec_calc(s: NeuronStateModel, dt: int, i_syn: int, cfg: NeuronConfigModel)
    -> NeuronStateModel {
    NeuronStateModel {
        v: sat_add(s.v, sat_mul(dt, spec_dv(s.u, s.v, i_syn))),
        u: sat_add(s.u, sat_mul(dt, spec_du(s.u, s.v, cfg.a, cfg.b))),
    }
}

/// A neuron fires exactly when its raw potential reached the threshold.
pub open spec fn spec_fires(s: NeuronStateModel) -> bool {
    s.v >= RESET_THRESHOLD as int
}

/// State after one 1 ms step: two fixed half-steps of integration while
/// below threshold, or the after-spike reset `v := c`, `u := u + d`.
pub open spec fn spec_step_1ms(s: NeuronStateModel, i_syn: int, cfg: NeuronConfigModel)
    -> NeuronStateModel {
    if spec_fires(s) {
        NeuronStateModel { v: cfg.c, u: sat_add(s.u, cfg.d) }
    } else {
        spec_calc(
            spec_calc(s, HALF_STEP as int, i_syn, cfg),
            HALF_STEP as int,
            i_syn,
            cfg,
        )
    }
}

/// The externally observable potential: the raw value clamped at the
/// threshold.
pub open spec fn spec_potential(s: NeuronStateModel) -> int {
    if s.v < RESET_THRESHOLD as int {
        s.v
    } else {
        RESET_THRESHOLD as int
    }
}

impl View for NeuronState {
    type V = NeuronStateModel;

    closed spec fn view(&self) -> NeuronStateModel {
        NeuronStateModel { v: self.v@, u: self.u@ }
    }
}

fn dv(u: Num, v: Num, i_syn: Num) -> (r: Num)
    ensures
        r@ == spec_dv(u@, v@, i_syn@),
{
    Num::new(40_000).mul(v).add(Num::new(5_000_000)).mul(v).add(Num::new(140_000_000)).sub(
        u,
    ).add(i_syn)
}

fn du(u: Num, v: Num, a: Num, b: Num) -> (r: Num)
    ensures
        r@ == spec_du(u@, v@, a@, b@),
{
    a.mul(b.mul(v).sub(u))
}

impl NeuronState {
    /// A fresh neuron state: `v = -70.0`, `u = -14.0`.
    pub fn new() -> (r: NeuronState)
        ensures
            r@.v == INITIAL_V as int,
            r@.u == INITIAL_U as int,
    {
        NeuronState { v: Num::new(INITIAL_V), u: Num::new(INITIAL_U) }
    }

    /// The observable membrane potential, never above the reset threshold.
    pub fn potential(&self) -> (r: Num)
        ensures
            r@ == spec_potential(self@),
            r@ <= RESET_THRESHOLD as int,
    {
        let threshold = Num::new(RESET_THRESHOLD);
        if self.v.lt(threshold) {
            self.v
        } else {
            threshold
        }
    }

    /// The recovery variable.
    pub fn recovery(&self) -> (r: Num)
        ensures
            r@ == self@.u,
    {
        self.u
    }

    fn calc(self, dt: Num, i_syn: Num, config: &NeuronConfig) -> (r: NeuronState)
        ensures
            r@ == spec_calc(self@, dt@, i_syn@, config@),
    {
        NeuronState {
            v: self.v.add(dt.mul(dv(self.u, self.v, i_syn))),
            u: self.u.add(dt.mul(du(self.u, self.v, config.a_value(), config.b_value()))),
        }
    }

    /// Advance the state by exactly 1 ms under input current `i_syn` and
    /// report whether the neuron fired.
    pub fn step_1ms(self, i_syn: Num, config: &NeuronConfig) -> (r: (NeuronState, NeuronActivity))
        ensures
            r.0@ == spec_step_1ms(self@, i_syn@, config@),
            r.1 is Fires <==> spec_fires(self@),
    {
        if self.v.lt(Num::new(RESET_THRESHOLD)) {
            (
                // Split into two half-steps (0.5 ms) for numerical stability.
                self.calc(Num::new(HALF_STEP), i_syn, config).calc(
                    Num::new(HALF_STEP),
                    i_syn,
                    config,
                ),
                NeuronActivity::Silent,
            )
        } else {
            (
                NeuronState { v: config.c_value(), u: self.u.add(config.d_value()) },
                NeuronActivity::Fires,
            )
        }
    }
}

/// The initial state every neuron is created with.
pub open spec fn spec_resting_state() -> NeuronStateModel {
    NeuronStateModel { v: INITIAL_V as int, u: INITIAL_U as int }
}

/// The state after `k` whole 1 ms steps under a constant input current.
pub open spec fn spec_iter_steps(
    s: NeuronStateModel,
    i_syn: int,
    cfg: NeuronConfigModel,
    k: nat,
) -> NeuronStateModel
    decreases k,
{
    if k == 0 {
        s
    } else {
        spec_step_1ms(spec_iter_steps(s, i_syn, cfg, (k - 1) as nat), i_syn, cfg)
    }
}

/// A freshly created regular-spiking neuron that receives no input
/// current sits exactly at a fixed point of the integrator: after any
/// number of steps it is still at its initial state, and it never fires.
pub proof fn lemma_resting_neuron_never_fires(k: nat)
    ensures
        spec_iter_steps(
            spec_resting_state(),
            0,
            crate::neuron_config::spec_excitatory(0),
            k,
        ) == spec_resting_state(),
        !spec_fires(spec_iter_steps(
            spec_resting_state(),
            0,
            crate::neuron_config::spec_excitatory(0),
            k,
        )),
    decreases k,
{
    let cfg = crate::neuron_config::spec_excitatory(0);
    let rest = spec_resting_state();
    if k > 0 {
        lemma_resting_neuron_never_fires((k - 1) as nat);
        assert(spec_dv(rest.u, rest.v, 0) == 0);
        assert(spec_du(rest.u, rest.v, cfg.a, cfg.b) == 0);
        assert(spec_calc(rest, HALF_STEP as int, 0, cfg) == rest);
        assert(spec_step_1ms(rest, 0, cfg) == rest);
    }
}

} // verus!
