//! Energy units, interpreter-energy conversion, and the exchange-rate
//! arithmetic that turns energy into micro-currency amounts.
//!
//! The public energy unit is 1000 times coarser than the unit consumed by
//! the external bytecode interpreter.  Conversions always subtract in the
//! finer unit first and only then divide down to the coarse unit, so the
//! rounding matches the reference chain exactly.

use vstd::prelude::*;
use vstd::arithmetic::div_mod::{
    lemma_div_is_ordered, lemma_div_multiples_vanish, lemma_fundamental_div_mod,
    lemma_div_pos_is_pos,
};
use crate::engine::mul_div_floor_u64;

verus! {

/// The maximum energy a single invocation may reserve.  The exchange-rate
/// check guarantees that converting this much energy to micro-currency
/// stays representable for all accepted rates whose division is exact.
pub const MAX_ALLOWED_INVOKE_ENERGY: u64 = 100_000_000_000;

/// One unit of public energy equals this many interpreter-energy units.
pub const INTERPRETER_ENERGY_PER_ENERGY: u64 = 1000;

/// A rational exchange rate: `numerator / denominator`.  Both sides are
/// positive; a zero denominator or numerator never denotes a valid rate.
#[derive(Clone, Copy, Debug)]
pub struct ExchangeRate {
    pub numerator:   u64,
    pub denominator: u64,
}

impl ExchangeRate {
    /// A rate is well formed when both sides are positive.
    pub open spec fn wf(self) -> bool {
        self.numerator > 0 && self.denominator > 0
    }

    /// Construct a rate without checking positivity of the sides.
    pub fn new_unchecked(numerator: u64, denominator: u64) -> (r: ExchangeRate)
        ensures
            r.numerator == numerator,
            r.denominator == denominator,
    {
        ExchangeRate { numerator, denominator }
    }
}

/// The micro-currency value of one unit of energy under the two rates,
/// rounded down: `(n1 * n2) / (d1 * d2)`.
pub open spec fn spec_micro_ccd_per_energy(
    euro_per_energy: ExchangeRate,
    micro_ccd_per_euro: ExchangeRate,
) -> int {
    (euro_per_energy.numerator * micro_ccd_per_euro.numerator)
        / (euro_per_energy.denominator * micro_ccd_per_euro.denominator)
}

/// The exact micro-currency cost of `energy` under the two rates, rounded
/// down: `(n1 * n2 * energy) / (d1 * d2)`.
pub open spec fn spec_energy_cost(
    energy: int,
    euro_per_energy: ExchangeRate,
    micro_ccd_per_euro: ExchangeRate,
) -> int {
    (euro_per_energy.numerator * micro_ccd_per_euro.numerator * energy)
        / (euro_per_energy.denominator * micro_ccd_per_euro.denominator)
}

/// Whether a pair of rates is accepted: the per-energy micro-currency value
/// must not exceed `u64::MAX / MAX_ALLOWED_INVOKE_ENERGY`.
pub open spec fn spec_rates_within_bounds(
    euro_per_energy: ExchangeRate,
    micro_ccd_per_euro: ExchangeRate,
) -> bool {
    &&& euro_per_energy.wf()
    &&& micro_ccd_per_euro.wf()
    &&& spec_micro_ccd_per_energy(euro_per_energy, micro_ccd_per_euro)
        <= u64::MAX as int / MAX_ALLOWED_INVOKE_ENERGY as int
}

/// Rejection of an exchange-rate pair whose per-energy cost is out of range.
#[derive(Clone, Copy, Debug, PartialEq, Eq, Structural)]
pub struct ExchangeRateError;

/// Check the validity of a pair of exchange rates.
///
/// Accepts exactly the pairs for which the micro-currency cost of one energy
/// is at most `u64::MAX / MAX_ALLOWED_INVOKE_ENERGY`.
pub fn check_exchange_rates(
    euro_per_energy: ExchangeRate,
    micro_ccd_per_euro: ExchangeRate,
) -> (r: Result<(), ExchangeRateError>)
    requires
        euro_per_energy.wf(),
        micro_ccd_per_euro.wf(),
    ensures
        r is Ok <==> spec_rates_within_bounds(euro_per_energy, micro_ccd_per_euro),
{
    proof {
        lemma_rate_product_signs(euro_per_energy, micro_ccd_per_euro, 1);
    }
    let quotient = mul_div_floor_u64(
        euro_per_energy.numerator,
        micro_ccd_per_euro.numerator,
        1,
        euro_per_energy.denominator,
        micro_ccd_per_euro.denominator,
    );
    match quotient {
        Some(q) => {
            if q > u64::MAX / MAX_ALLOWED_INVOKE_ENERGY {
                Err(ExchangeRateError)
            } else {
                Ok(())
            }
        }
        None => Err(ExchangeRateError),
    }
}

/// Convert `energy` to a micro-currency amount under the two rates, rounding
/// down.  The caller must know that the exact cost is representable; the
/// rate check establishes this for every energy value up to
/// `MAX_ALLOWED_INVOKE_ENERGY` whenever the rate division is exact.
pub fn energy_to_amount(
    energy: u64,
    euro_per_energy: ExchangeRate,
    micro_ccd_per_euro: ExchangeRate,
) -> (r: u64)
    requires
        euro_per_energy.wf(),
        micro_ccd_per_euro.wf(),
        spec_energy_cost(energy as int, euro_per_energy, micro_ccd_per_euro) <= u64::MAX as int,
    ensures
        r == spec_energy_cost(energy as int, euro_per_energy, micro_ccd_per_euro),
{
    proof {
        lemma_rate_product_signs(euro_per_energy, micro_ccd_per_euro, energy as int);
    }
    let r = mul_div_floor_u64(
        euro_per_energy.numerator,
        micro_ccd_per_euro.numerator,
        energy,
        euro_per_energy.denominator,
        micro_ccd_per_euro.denominator,
    );
    match r {
        Some(cost) => cost,
        None => {
            // Unreachable: the precondition bounds the exact quotient.
            proof {
                assert(false);
            }
            0
        }
    }
}

/// Convert public energy to interpreter energy by multiplying by 1000.
pub fn to_interpreter_energy(energy: u64) -> (r: u64)
    requires
        energy <= MAX_ALLOWED_INVOKE_ENERGY,
    ensures
        r == energy * 1000,
{
    energy * 1000
}

/// Convert interpreter energy to public energy by dividing by 1000,
/// rounding down.
pub fn from_interpreter_energy(interpreter_energy: u64) -> (r: u64)
    ensures
        r == interpreter_energy / 1000,
{
    interpreter_energy / 1000
}

/// Subtraction that bottoms out at zero instead of wrapping.
pub fn saturating_sub(a: u64, b: u64) -> (r: u64)
    ensures
        b <= a ==> r == a - b,
        a < b ==> r == 0,
{
    if a >= b {
        a - b
    } else {
        0
    }
}

/// Checked subtraction of energy: on success the remaining energy drops by
/// `amount`; when `amount` exceeds what is left, nothing changes and the
/// call reports failure.
pub fn tick_energy(remaining_energy: &mut u64, amount: u64) -> (ok: bool)
    ensures
        ok == (amount <= *old(remaining_energy)),
        ok ==> *final(remaining_energy) == *old(remaining_energy) - amount,
        !ok ==> *final(remaining_energy) == *old(remaining_energy),
{
    if amount <= *remaining_energy {
        *remaining_energy = *remaining_energy - amount;
        true
    } else {
        false
    }
}

/// The numerator and denominator products of a pair of well-formed rates,
/// scaled by a non-negative energy, are non-negative and positive
/// respectively, and their quotient is non-negative.
proof fn lemma_rate_product_signs(
    euro_per_energy: ExchangeRate,
    micro_ccd_per_euro: ExchangeRate,
    energy: int,
)
    requires
        euro_per_energy.wf(),
        micro_ccd_per_euro.wf(),
        energy >= 0,
    ensures
        euro_per_energy.numerator * micro_ccd_per_euro.numerator * energy >= 0,
        euro_per_energy.denominator * micro_ccd_per_euro.denominator > 0,
        euro_per_energy.numerator * micro_ccd_per_euro.numerator * energy
            / (euro_per_energy.denominator * micro_ccd_per_euro.denominator) >= 0,
        euro_per_energy.numerator * micro_ccd_per_euro.numerator * 1
            == euro_per_energy.numerator * micro_ccd_per_euro.numerator,
{
    let n = (euro_per_energy.numerator * micro_ccd_per_euro.numerator) as int;
    let d = (euro_per_energy.denominator * micro_ccd_per_euro.denominator) as int;
    assert(n * energy >= 0 && d > 0) by (nonlinear_arith)
        requires
            euro_per_energy.numerator > 0,
            micro_ccd_per_euro.numerator > 0,
            euro_per_energy.denominator > 0,
            micro_ccd_per_euro.denominator > 0,
            energy >= 0,
            n == euro_per_energy.numerator * micro_ccd_per_euro.numerator,
            d == euro_per_energy.denominator * micro_ccd_per_euro.denominator,
    ;
    lemma_div_pos_is_pos(n * energy, d);
}

/// Converting an energy budget to interpreter energy and subtracting what
/// the interpreter reports as remaining never reports spending more energy
/// than was given, and the conversion back to the coarse unit rounds down.
pub proof fn lemma_interpreter_energy_never_overreports(energy: u64, remaining: u64)
    requires
        energy <= MAX_ALLOWED_INVOKE_ENERGY,
    ensures
        ({
            let given = energy * 1000;
            let spent = if remaining <= given { given - remaining } else { 0 };
            spent / 1000 <= energy
        }),
{
    let given = energy * 1000int;
    let spent: int = if remaining <= given { given - remaining } else { 0 };
    assert(spent <= given);
    lemma_div_is_ordered(spent, given, 1000);
    lemma_div_multiples_vanish(energy as int, 1000);
}

/// Energy cost is monotone in the energy argument: spending part of a
/// reserved budget never costs more than the whole budget would.
pub proof fn lemma_energy_cost_monotone(
    e1: int,
    e2: int,
    euro_per_energy: ExchangeRate,
    micro_ccd_per_euro: ExchangeRate,
)
    requires
        euro_per_energy.wf(),
        micro_ccd_per_euro.wf(),
        0 <= e1 <= e2,
    ensures
        spec_energy_cost(e1, euro_per_energy, micro_ccd_per_euro)
            <= spec_energy_cost(e2, euro_per_energy, micro_ccd_per_euro),
        spec_energy_cost(e1, euro_per_energy, micro_ccd_per_euro) >= 0,
{
    let n = (euro_per_energy.numerator * micro_ccd_per_euro.numerator) as int;
    let d = (euro_per_energy.denominator * micro_ccd_per_euro.denominator) as int;
    assert(n >= 0 && d > 0) by (nonlinear_arith)
        requires
            euro_per_energy.numerator > 0,
            micro_ccd_per_euro.numerator > 0,
            euro_per_energy.denominator > 0,
            micro_ccd_per_euro.denominator > 0,
            n == euro_per_energy.numerator * micro_ccd_per_euro.numerator,
            d == euro_per_energy.denominator * micro_ccd_per_euro.denominator,
    ;
    assert(n * e1 <= n * e2) by (nonlinear_arith)
        requires
            n >= 0,
            0 <= e1 <= e2,
    ;
    lemma_div_is_ordered(n * e1, n * e2, d);
    assert(n * e1 >= 0) by (nonlinear_arith)
        requires
            n >= 0,
            e1 >= 0,
    ;
    lemma_div_pos_is_pos(n * e1, d);
}

/// Converting zero energy costs nothing.
pub proof fn lemma_energy_cost_zero(
    euro_per_energy: ExchangeRate,
    micro_ccd_per_euro: ExchangeRate,
)
    requires
        euro_per_energy.wf(),
        micro_ccd_per_euro.wf(),
    ensures
        spec_energy_cost(0, euro_per_energy, micro_ccd_per_euro) == 0,
{
    let n = (euro_per_energy.numerator * micro_ccd_per_euro.numerator) as int;
    let d = (euro_per_energy.denominator * micro_ccd_per_euro.denominator) as int;
    assert(d > 0) by (nonlinear_arith)
        requires
            euro_per_energy.denominator > 0,
            micro_ccd_per_euro.denominator > 0,
            d == euro_per_energy.denominator * micro_ccd_per_euro.denominator,
    ;
    assert(n * 0 == 0) by (nonlinear_arith);
    assert(d * 0 == 0) by (nonlinear_arith);
    lemma_div_multiples_vanish(0, d);
}

/// Converting two energy portions separately never costs more than
/// converting their sum: the fee conversion rounds down.
pub proof fn lemma_energy_cost_subadditive(
    e1: int,
    e2: int,
    euro_per_energy: ExchangeRate,
    micro_ccd_per_euro: ExchangeRate,
)
    requires
        euro_per_energy.wf(),
        micro_ccd_per_euro.wf(),
        e1 >= 0,
        e2 >= 0,
    ensures
        spec_energy_cost(e1, euro_per_energy, micro_ccd_per_euro) + spec_energy_cost(
            e2,
            euro_per_energy,
            micro_ccd_per_euro,
        ) <= spec_energy_cost(e1 + e2, euro_per_energy, micro_ccd_per_euro),
{
    let n = (euro_per_energy.numerator * micro_ccd_per_euro.numerator) as int;
    let d = (euro_per_energy.denominator * micro_ccd_per_euro.denominator) as int;
    assert(n >= 0 && d > 0) by (nonlinear_arith)
        requires
            euro_per_energy.numerator > 0,
            micro_ccd_per_euro.numerator > 0,
            euro_per_energy.denominator > 0,
            micro_ccd_per_euro.denominator > 0,
            n == euro_per_energy.numerator * micro_ccd_per_euro.numerator,
            d == euro_per_energy.denominator * micro_ccd_per_euro.denominator,
    ;
    let q1 = (n * e1) / d;
    let q2 = (n * e2) / d;
    lemma_fundamental_div_mod(n * e1, d);
    lemma_fundamental_div_mod(n * e2, d);
    assert(n * (e1 + e2) == n * e1 + n * e2) by (nonlinear_arith);
    assert(d * (q1 + q2) == d * q1 + d * q2) by (nonlinear_arith);
    assert(d * (q1 + q2) <= n * (e1 + e2));
    lemma_div_is_ordered(d * (q1 + q2), n * (e1 + e2), d);
    lemma_div_multiples_vanish(q1 + q2, d);
}

/// For every accepted exchange-rate pair whose per-energy division is exact,
/// the cost of the maximum allowed invocation energy fits in 64 bits.
///
/// The exactness hypothesis cannot be dropped: a pair sitting exactly at the
/// acceptance bound with a large remainder can push the cost of the maximal
/// energy just above `u64::MAX`.
pub proof fn lemma_max_energy_cost_fits(
    euro_per_energy: ExchangeRate,
    micro_ccd_per_euro: ExchangeRate,
)
    requires
        spec_rates_within_bounds(euro_per_energy, micro_ccd_per_euro),
        (euro_per_energy.numerator * micro_ccd_per_euro.numerator)
            % (euro_per_energy.denominator * micro_ccd_per_euro.denominator) == 0,
    ensures
        spec_energy_cost(
            MAX_ALLOWED_INVOKE_ENERGY as int,
            euro_per_energy,
            micro_ccd_per_euro,
        ) <= u64::MAX as int,
{
    let n = (euro_per_energy.numerator * micro_ccd_per_euro.numerator) as int;
    let d = (euro_per_energy.denominator * micro_ccd_per_euro.denominator) as int;
    let e = MAX_ALLOWED_INVOKE_ENERGY as int;
    let q = n / d;
    assert(d > 0) by (nonlinear_arith)
        requires
            euro_per_energy.denominator > 0,
            micro_ccd_per_euro.denominator > 0,
            d == euro_per_energy.denominator * micro_ccd_per_euro.denominator,
    ;
    lemma_fundamental_div_mod(n, d);
    // n == d * q exactly, so the cost of e is q * e.
    assert(n == d * q);
    assert(n * e == d * (q * e)) by (nonlinear_arith)
        requires
            n == d * q,
    ;
    lemma_div_multiples_vanish(q * e, d);
    assert(spec_energy_cost(e, euro_per_energy, micro_ccd_per_euro) == q * e);
    // q <= u64::MAX / e, hence q * e <= u64::MAX.
    assert(q <= u64::MAX as int / e);
    lemma_fundamental_div_mod(u64::MAX as int, e);
    assert(q * e <= u64::MAX as int) by (nonlinear_arith)
        requires
            q <= u64::MAX as int / e,
            e > 0,
            u64::MAX as int == e * (u64::MAX as int / e) + (u64::MAX as int) % e,
            (u64::MAX as int) % e >= 0,
    ;
}

} // verus!
