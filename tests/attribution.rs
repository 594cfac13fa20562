use ecocode::attribution::{
    accelerator_power_uw, attributed_power_uw, cpu_share, domain_power_uw, memory_share,
    wrap_correct,
};

#[test]
fn no_wrap_delta_is_plain_difference() {
    assert_eq!(wrap_correct(1_000_000, 1_600_000, 262_143_328_850), 600_000);
    assert_eq!(wrap_correct(5, 5, 100), 0);
}

#[test]
fn wrapped_counter_adds_ceiling() {
    // (c2 + M) - c1 = (100 + 1000) - 900
    assert_eq!(wrap_correct(900, 100, 1_000), 200);
    assert_eq!(wrap_correct(1_000, 0, 1_000), 0);
}

#[test]
fn inconsistent_wrap_is_clamped_to_zero() {
    assert_eq!(wrap_correct(5_000, 100, 1_000), 0);
}

#[test]
fn scenario_half_share_of_point_six_watts() {
    let delta = wrap_correct(1_000_000, 1_600_000, u64::MAX);
    assert_eq!(domain_power_uw(delta, 1_000_000), 600_000);
    assert_eq!(attributed_power_uw(delta, 1_000_000, 5_000), 300_000);
}

#[test]
fn attributed_power_grows_with_share() {
    let a = attributed_power_uw(600_000, 1_000_000, 2_500);
    let b = attributed_power_uw(600_000, 1_000_000, 5_000);
    let c = attributed_power_uw(600_000, 1_000_000, 10_000);
    assert_eq!(a, 150_000);
    assert!(a <= b && b <= c);
    assert_eq!(c, 600_000);
    assert_eq!(attributed_power_uw(600_000, 1_000_000, 0), 0);
}

#[test]
fn attributed_power_rounds_down() {
    // 1 µJ over 3 µs at 100%: 333_333.33 µW
    assert_eq!(attributed_power_uw(1, 3, 10_000), 333_333);
}

#[test]
fn largest_counter_movement_does_not_overflow() {
    let p = attributed_power_uw(u64::MAX, 1, 10_000);
    assert_eq!(p, u64::MAX as u128 * 1_000_000);
}

#[test]
fn accelerator_power_formula() {
    // 80 mJ over 1 s is 0.08 W
    assert_eq!(accelerator_power_uw(80, 1_000_000, 10_000), 80_000);
    // 80 mJ over 2 s at 50%
    assert_eq!(accelerator_power_uw(80, 2_000_000, 5_000), 20_000);
}

#[test]
fn cpu_share_is_normalised_and_bounded() {
    assert_eq!(cpu_share(40_000, 8), 5_000);
    assert_eq!(cpu_share(90_000, 8), 10_000);
    assert_eq!(cpu_share(12_345, 0), 0);
}

#[test]
fn memory_share_in_hundredths_of_percent() {
    assert_eq!(memory_share(1, 4), 2_500);
    assert_eq!(memory_share(1, 3), 3_333);
    assert_eq!(memory_share(10, 0), 0);
    assert_eq!(memory_share(u64::MAX, 1), 10_000);
}
