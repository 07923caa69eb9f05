//! Tests of the energy arithmetic, exchange-rate checks and conversions.

use contract_testing::energy::{
    check_exchange_rates, energy_to_amount, from_interpreter_energy, saturating_sub, tick_energy,
    to_interpreter_energy, ExchangeRate, MAX_ALLOWED_INVOKE_ENERGY,
};

/// A few checks that the rate check behaves as documented.
#[test]
fn check_exchange_rates_works() {
    let max_allowed_micro_ccd_per_energy = u64::MAX / MAX_ALLOWED_INVOKE_ENERGY;
    check_exchange_rates(
        ExchangeRate::new_unchecked(max_allowed_micro_ccd_per_energy + 1, 1),
        ExchangeRate::new_unchecked(1, 1),
    )
    .expect_err("should fail");

    check_exchange_rates(
        ExchangeRate::new_unchecked(max_allowed_micro_ccd_per_energy / 2 + 1, 1),
        ExchangeRate::new_unchecked(2, 1),
    )
    .expect_err("should fail");

    check_exchange_rates(
        ExchangeRate::new_unchecked(max_allowed_micro_ccd_per_energy, 1),
        ExchangeRate::new_unchecked(1, 1),
    )
    .expect("should succeed");

    check_exchange_rates(
        ExchangeRate::new_unchecked(50000, 1),
        ExchangeRate::new_unchecked(1, 50000),
    )
    .expect("should succeed");
}

/// Under the default rates one energy costs exactly one micro-currency unit.
#[test]
fn energy_cost_exact_under_default_rates() {
    let euro_per_energy = ExchangeRate::new_unchecked(1, 50000);
    let micro_ccd_per_euro = ExchangeRate::new_unchecked(50000, 1);
    assert_eq!(energy_to_amount(0, euro_per_energy, micro_ccd_per_euro), 0);
    assert_eq!(energy_to_amount(1, euro_per_energy, micro_ccd_per_euro), 1);
    assert_eq!(energy_to_amount(12345, euro_per_energy, micro_ccd_per_euro), 12345);
}

/// The fee conversion rounds down, never to nearest.
#[test]
fn energy_cost_rounds_down() {
    let euro_per_energy = ExchangeRate::new_unchecked(2, 3);
    let micro_ccd_per_euro = ExchangeRate::new_unchecked(5, 7);
    // (2 * 5 * 20) / (3 * 7) = 200 / 21 = 9.52..., so 9.
    assert_eq!(energy_to_amount(20, euro_per_energy, micro_ccd_per_euro), 9);
    // (2 * 5 * 21) / 21 = 10 exactly.
    assert_eq!(energy_to_amount(21, euro_per_energy, micro_ccd_per_euro), 10);
}

/// Converting to interpreter energy and back never reports spending more
/// than was given, and rounds down.
#[test]
fn interpreter_energy_round_trip_never_overreports() {
    let given = to_interpreter_energy(5);
    assert_eq!(given, 5000);
    // The interpreter reports 1 fine-grained unit left: 4999 spent rounds
    // down to 4 coarse units, not up to 5.
    assert_eq!(from_interpreter_energy(saturating_sub(given, 1)), 4);
    // More remaining than given reports zero spend, not a wrapped value.
    assert_eq!(from_interpreter_energy(saturating_sub(given, 6000)), 0);
    assert_eq!(from_interpreter_energy(999), 0);
    assert_eq!(from_interpreter_energy(1000), 1);
}

/// Ticking energy subtracts exactly, and a failing tick changes nothing.
#[test]
fn tick_energy_checked_subtraction() {
    let mut remaining: u64 = 100;
    assert!(tick_energy(&mut remaining, 60));
    assert_eq!(remaining, 40);
    assert!(!tick_energy(&mut remaining, 41));
    assert_eq!(remaining, 40);
    assert!(tick_energy(&mut remaining, 40));
    assert_eq!(remaining, 0);
}
