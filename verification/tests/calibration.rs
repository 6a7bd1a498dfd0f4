use vault::client::organization_creation::{
    calibration_step, empirically_choose_argon_config, is_slow_enough, iteration_cost_of,
    Calibration,
};
use vault::data::ArgonConfig;
use vault::error::VaultError;

#[test]
fn operation_counts_grow_by_half_each_step() {
    let expected: [u64; 16] = [1, 1, 2, 3, 5, 7, 11, 17, 25, 38, 57, 86, 129, 194, 291, 437];
    for (step, cost) in expected.iter().enumerate() {
        assert_eq!(iteration_cost_of(step as u32), *cost);
    }
    assert_eq!(iteration_cost_of(20), 3325);
    assert_eq!(iteration_cost_of(40), 11057332);
    // 3^99 / 2^99, rounded down.
    assert_eq!(iteration_cost_of(99), 271040785023476824);
}

#[test]
fn operation_counts_are_the_whole_part_of_the_power() {
    let mut numerator: u128 = 1;
    let mut denominator: u128 = 1;
    for step in 0..80u32 {
        assert_eq!(iteration_cost_of(step), (numerator / denominator) as u64);
        numerator *= 3;
        denominator *= 2;
    }
}

#[test]
fn a_hash_is_slow_enough_from_10_seconds_on() {
    assert!(!is_slow_enough(0));
    assert!(!is_slow_enough(9_000_000_000));
    assert!(!is_slow_enough(9_999_999_999));
    assert!(is_slow_enough(10_000_000_000));
    assert!(is_slow_enough(11_000_000_000));
    assert!(is_slow_enough(u128::MAX));
}

#[test]
fn a_memory_limit_that_the_hash_refuses_ends_the_calibration() {
    assert_eq!(empirically_choose_argon_config(1), Err(VaultError::CryptographyError));
    assert_eq!(empirically_choose_argon_config(0), Err(VaultError::CryptographyError));
}

#[test]
fn a_refused_hash_ends_the_calibration_at_any_step() {
    assert_eq!(calibration_step(10000, 0, false, 0), Calibration::Failed);
    assert_eq!(calibration_step(10000, 7, false, 20_000_000_000), Calibration::Failed);
    assert_eq!(calibration_step(10000, 99, false, u128::MAX), Calibration::Failed);
}

#[test]
fn a_slow_hash_chooses_the_count_of_its_step() {
    assert_eq!(
        calibration_step(10000, 0, true, 10_000_000_000),
        Calibration::Chosen(ArgonConfig { memlimit: 10000, opslimit: 1 })
    );
    assert_eq!(
        calibration_step(67108864, 6, true, 12_345_678_901),
        Calibration::Chosen(ArgonConfig { memlimit: 67108864, opslimit: 11 })
    );
    assert_eq!(
        calibration_step(8192, 99, true, u128::MAX),
        Calibration::Chosen(ArgonConfig { memlimit: 8192, opslimit: 271040785023476824 })
    );
}

#[test]
fn a_fast_hash_leads_to_the_next_step_and_after_the_last_to_failure() {
    assert_eq!(calibration_step(10000, 0, true, 0), Calibration::Next(1));
    assert_eq!(calibration_step(10000, 6, true, 9_999_999_999), Calibration::Next(7));
    assert_eq!(calibration_step(10000, 98, true, 1), Calibration::Next(99));
    assert_eq!(calibration_step(10000, 99, true, 9_999_999_999), Calibration::Failed);
}

#[test]
fn the_first_count_that_is_slow_enough_is_chosen() {
    // Hashes that take one second for each operation: 11 operations, at
    // step 6, are the first to take 10 seconds.
    let mut step: u32 = 0;
    let chosen = loop {
        let seconds = iteration_cost_of(step) as u128;
        match calibration_step(10000, step, true, seconds * 1_000_000_000) {
            Calibration::Chosen(config) => break Some(config),
            Calibration::Next(next) => step = next,
            Calibration::Failed => break None,
        }
    };
    assert_eq!(chosen, Some(ArgonConfig { memlimit: 10000, opslimit: 11 }));
    assert_eq!(step, 6);
}
