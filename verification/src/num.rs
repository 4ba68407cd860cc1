//! The numerical scalar used for all neuron model quantities (potential,
//! recovery, currents, weights, plasticity traces).
//!
//! `Num` is a signed fixed-point number: a raw `i64` count of units of
//! `1 / FRAC`. All operations saturate at `± MAX_RAW / FRAC`, so they are
//! total and their results are pinned down exactly by the spec functions
//! below.

use vstd::prelude::*;

verus! {

/// Number of raw units that make up the model value 1.0.
pub const FRAC: i64 = 1_000_000;

/// Largest raw magnitude a `Num` can hold (one billion in model units).
pub const MAX_RAW: i64 = 1_000_000_000_000_000;

/// Clamp a raw value into the representable range.
pub open spec fn clip(x: int) -> int {
    if x > MAX_RAW as int {
        MAX_RAW as int
    } else if x < -(MAX_RAW as int) {
        -(MAX_RAW as int)
    } else {
        x
    }
}

/// Saturating sum of two raw values.
pub open spec fn sat_add(a: int, b: int) -> int {
    clip(a + b)
}

/// Saturating difference of two raw values.
pub open spec fn sat_sub(a: int, b: int) -> int {
    clip(a - b)
}

pub open spec fn abs_int(a: int) -> int {
    if a < 0 {
        -a
    } else {
        a
    }
}

/// Fixed-point product of two raw values, truncated toward zero.
pub open spec fn mul_trunc(a: int, b: int) -> int {
    let m = (abs_int(a) * abs_int(b)) / (FRAC as int);
    if (a < 0) == (b < 0) {
        m
    } else {
        -m
    }
}

/// Saturating fixed-point product of two raw values.
pub open spec fn sat_mul(a: int, b: int) -> int {
    clip(mul_trunc(a, b))
}

/// Fixed-point scalar: `raw` counts units of `1 / FRAC`.
#[derive(Clone, Copy, Debug, PartialEq, Eq, Structural)]
pub struct Num {
    raw: i64,
}

impl View for Num {
    type V = int;

    closed spec fn view(&self) -> int {
        self.raw as int
    }
}

impl Num {
    /// Every `Num` holds a raw value within the saturation range.
    #[verifier::type_invariant]
    pub open spec fn inv(self) -> bool {
        -(MAX_RAW as int) <= self@ <= MAX_RAW as int
    }

    /// Build a scalar from a raw count of `1 / FRAC` units.
    pub fn new(raw: i64) -> (r: Num)
        requires
            -MAX_RAW <= raw <= MAX_RAW,
        ensures
            r@ == raw,
    {
        Num { raw }
    }

    /// The raw count of `1 / FRAC` units.
    pub fn raw(self) -> (r: i64)
        ensures
            r == self@,
    {
        self.raw
    }

    /// Saturating addition.
    pub fn add(self, other: Num) -> (r: Num)
        ensures
            r@ == sat_add(self@, other@),
    {
        proof {
            use_type_invariant(&self);
            use_type_invariant(&other);
        }
        let s: i64 = self.raw + other.raw;
        let c: i64 = if s > MAX_RAW {
            MAX_RAW
        } else if s < -MAX_RAW {
            -MAX_RAW
        } else {
            s
        };
        Num { raw: c }
    }

    /// Saturating subtraction.
    pub fn sub(self, other: Num) -> (r: Num)
        ensures
            r@ == sat_sub(self@, other@),
    {
        proof {
            use_type_invariant(&self);
            use_type_invariant(&other);
        }
        let s: i64 = self.raw - other.raw;
        let c: i64 = if s > MAX_RAW {
            MAX_RAW
        } else if s < -MAX_RAW {
            -MAX_RAW
        } else {
            s
        };
        Num { raw: c }
    }

    /// Saturating fixed-point multiplication.
    pub fn mul(self, other: Num) -> (r: Num)
        ensures
            r@ == sat_mul(self@, other@),
    {
        proof {
            use_type_invariant(&self);
            use_type_invariant(&other);
        }
        let a = self.raw;
        let b = other.raw;
        let neg: bool = (a < 0) != (b < 0);
        let ma: u64 = if a < 0 {
            (-a) as u64
        } else {
            a as u64
        };
        let mb: u64 = if b < 0 {
            (-b) as u64
        } else {
            b as u64
        };
        proof {
            assert(ma as int == abs_int(a as int));
            assert(mb as int == abs_int(b as int));
            assert((ma as u128) * (mb as u128) == abs_int(a as int) * abs_int(b as int)
                && (ma as u128) * (mb as u128)
                    <= 1_000_000_000_000_000_000_000_000_000_000int) by (nonlinear_arith)
                requires
                    ma as int == abs_int(a as int),
                    mb as int == abs_int(b as int),
                    ma <= 1_000_000_000_000_000u64,
                    mb <= 1_000_000_000_000_000u64,
            ;
        }
        let p: u128 = ((ma as u128) * (mb as u128)) / (FRAC as u128);
        let capped: i64 = if p > (MAX_RAW as u128) {
            MAX_RAW
        } else {
            p as i64
        };
        let r: i64 = if neg {
            -capped
        } else {
            capped
        };
        Num { raw: r }
    }

    /// True when `self` is strictly below `other`.
    pub fn lt(self, other: Num) -> (r: bool)
        ensures
            r == (self@ < other@),
    {
        self.raw < other.raw
    }

    /// True when `self` is at or below `other`.
    pub fn le(self, other: Num) -> (r: bool)
        ensures
            r == (self@ <= other@),
    {
        self.raw <= other.raw
    }
}

} // verus!
