//! Fixed-point cashback percentages.
//!
//! A [`Percent`] stores `atomics` with an implied denominator of
//! [`PERCENT_SCALE`], so `atomics == PERCENT_SCALE` means 100%. Scaling an
//! amount by a percent rounds down, as integer token arithmetic does.

use vstd::prelude::*;

use vstd::arithmetic::div_mod::{
    lemma_fundamental_div_mod, lemma_hoist_over_denominator, lemma_div_is_ordered,
    lemma_mod_division_less_than_divisor,
};
use vstd::arithmetic::mul::{lemma_mul_inequality, lemma_mul_upper_bound};

verus! {

/// Number of atomic units in a whole (100%) percent.
pub const PERCENT_SCALE: u64 = 1_000_000_000_000_000_000;

/// A decimal fraction with 18 fractional digits: `atomics / PERCENT_SCALE`.
#[derive(Clone, Copy, Debug, PartialEq, Eq, Structural)]
pub struct Percent {
    pub atomics: u64,
}

impl Percent {
    /// The fraction is at most one, i.e. a true percentage.
    pub open spec fn le_one(self) -> bool {
        self.atomics <= PERCENT_SCALE
    }

    pub fn zero() -> (r: Percent)
        ensures
            r.atomics == 0,
    {
        Percent { atomics: 0 }
    }

    pub fn one() -> (r: Percent)
        ensures
            r.atomics == PERCENT_SCALE,
    {
        Percent { atomics: PERCENT_SCALE }
    }

    pub fn new(atomics: u64) -> (r: Percent)
        ensures
            r.atomics == atomics,
    {
        Percent { atomics }
    }

    pub fn is_zero(&self) -> (r: bool)
        ensures
            r == (self.atomics == 0),
    {
        self.atomics == 0
    }
}

/// `floor(a * n / d)` as unbounded-integer arithmetic.
pub open spec fn mul_div_spec(a: u128, n: u64, d: u64) -> int {
    (a as int * n as int) / d as int
}

/// The value an amount scaled by a percent: `floor(a * atomics / PERCENT_SCALE)`.
pub open spec fn apply_percent_spec(a: u128, p: Percent) -> int {
    mul_div_spec(a, p.atomics, PERCENT_SCALE)
}

/// Computes `floor(a * n / d)` exactly, reporting `None` when the result
/// does not fit in a `u128`.
pub fn mul_div_floor(a: u128, n: u64, d: u64) -> (r: Option<u128>)
    requires
        d > 0,
    ensures
        match r {
            Some(v) => v == mul_div_spec(a, n, d),
            None => mul_div_spec(a, n, d) > u128::MAX,
        },
{
    let q = a / (d as u128);
    let rem = a % (d as u128);
    proof {
        lemma_fundamental_div_mod(a as int, d as int);
        lemma_mod_division_less_than_divisor(a as int, d as int);
        // rem * n stays within u128: rem < d <= u64::MAX and n <= u64::MAX.
        lemma_mul_upper_bound(rem as int, d as int - 1, n as int, u64::MAX as int);
        // a * n == (q * n) * d + rem * n, hence floor splits into
        // q * n + floor(rem * n / d).
        assert((a as int) * (n as int) == (q as int * n as int) * (d as int)
            + (rem as int) * (n as int)) by (nonlinear_arith)
            requires
                a as int == (d as int) * (q as int) + rem as int,
        ;
        lemma_hoist_over_denominator(rem as int * n as int, q as int * n as int, d as nat);
    }
    let low = rem * (n as u128) / (d as u128);
    assert(low == (rem as int * n as int) / d as int);
    assert(mul_div_spec(a, n, d) == q as int * n as int + low as int);
    match q.checked_mul(n as u128) {
        None => {
            // q * n alone exceeds u128::MAX, so the full result does too.
            None
        },
        Some(high) => {
            high.checked_add(low)
        },
    }
}

/// Scaling by a percent that is at most one never grows the amount,
/// so the result always fits.
pub fn apply_percent(a: u128, p: Percent) -> (r: u128)
    requires
        p.le_one(),
    ensures
        r == apply_percent_spec(a, p),
        r <= a,
{
    proof {
        lemma_apply_percent_le(a, p);
    }
    let r = mul_div_floor(a, p.atomics, PERCENT_SCALE);
    match r {
        Some(v) => v,
        None => {
            proof {
                assert(false);
            }
            0
        },
    }
}

/// Scaling by a percent `<= 1` yields at most the original amount.
pub proof fn lemma_apply_percent_le(a: u128, p: Percent)
    requires
        p.le_one(),
    ensures
        0 <= apply_percent_spec(a, p) <= a,
{
    lemma_mul_inequality(p.atomics as int, PERCENT_SCALE as int, a as int);
    assert(a as int * p.atomics as int == p.atomics as int * a as int) by (nonlinear_arith);
    assert(a as int * PERCENT_SCALE as int == PERCENT_SCALE as int * a as int)
        by (nonlinear_arith);
    lemma_div_is_ordered(
        a as int * p.atomics as int,
        a as int * PERCENT_SCALE as int,
        PERCENT_SCALE as int,
    );
    vstd::arithmetic::div_mod::lemma_div_multiples_vanish(a as int, PERCENT_SCALE as int);
    assert(a as int * p.atomics as int / PERCENT_SCALE as int >= 0)
        by (nonlinear_arith);
}

} // verus!
