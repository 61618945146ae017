use system_monitor::collectors::metrics::{
    clamp_whole_percent, percent_sample, saturating_delta, throughput, throughput_sample,
    usage_percent, MIN_INTERVAL_NANOS, NANOS_PER_SEC, PERCENT_FULL, SECTOR_BYTES,
};

#[test]
fn percent_of_an_empty_whole_is_zero() {
    assert_eq!(usage_percent(0, 0), 0);
    assert_eq!(usage_percent(1, 0), 0);
    assert_eq!(usage_percent(u64::MAX, 0), 0);
}

#[test]
fn percent_is_used_over_total_in_hundredths() {
    assert_eq!(usage_percent(0, 8), 0);
    assert_eq!(usage_percent(1, 2), 5000);
    assert_eq!(usage_percent(1, 3), 3333);
    assert_eq!(usage_percent(2, 3), 6666);
    assert_eq!(usage_percent(8, 8), 10_000);
    assert_eq!(usage_percent(12_345, 100_000), 1234);
    assert_eq!(usage_percent(u64::MAX, u64::MAX), 10_000);
    assert_eq!(usage_percent(u64::MAX / 2, u64::MAX), 4999);
}

#[test]
fn percent_never_exceeds_one_hundred() {
    assert_eq!(usage_percent(9, 8), PERCENT_FULL);
    assert_eq!(usage_percent(u64::MAX, 1), PERCENT_FULL);
}

#[test]
fn percent_agrees_with_floating_point_on_small_figures() {
    for total in 1..200u64 {
        for used in 0..=total {
            let float = (used as f64 / total as f64) * 100.0;
            let fixed = usage_percent(used, total) as f64 / 100.0;
            assert!((float - fixed).abs() < 0.01 + 1e-9, "{} of {}", used, total);
            assert!(fixed <= float + 1e-9);
        }
    }
}

#[test]
fn whole_percent_readings_are_clamped() {
    assert_eq!(clamp_whole_percent(0), 0);
    assert_eq!(clamp_whole_percent(37), 3700);
    assert_eq!(clamp_whole_percent(99), 9900);
    assert_eq!(clamp_whole_percent(100), 10_000);
    assert_eq!(clamp_whole_percent(101), 10_000);
    assert_eq!(clamp_whole_percent(u32::MAX), 10_000);
}

#[test]
fn delta_of_a_growing_counter_is_the_difference() {
    assert_eq!(saturating_delta(1000, 3000), 2000);
    assert_eq!(saturating_delta(5, 5), 0);
    assert_eq!(saturating_delta(0, u64::MAX), u64::MAX);
}

#[test]
fn delta_of_a_counter_that_went_backwards_is_zero() {
    assert_eq!(saturating_delta(3000, 1000), 0);
    assert_eq!(saturating_delta(u64::MAX, 0), 0);
    assert_eq!(saturating_delta(1, 0), 0);
}

#[test]
fn throughput_over_one_second_is_the_bytes_moved() {
    assert_eq!(throughput(2000, SECTOR_BYTES, NANOS_PER_SEC), 1_024_000);
    assert_eq!(throughput(500, SECTOR_BYTES, NANOS_PER_SEC), 256_000);
    assert_eq!(throughput(12_345, 1, NANOS_PER_SEC), 12_345);
}

#[test]
fn throughput_divides_by_the_elapsed_time() {
    assert_eq!(throughput(1000, 1, 2 * NANOS_PER_SEC), 500);
    assert_eq!(throughput(1000, 1, NANOS_PER_SEC / 2), 2000);
    assert_eq!(throughput(1000, 1, MIN_INTERVAL_NANOS), 10_000);
    assert_eq!(throughput(100, SECTOR_BYTES, 250_000_000), 204_800);
    // rounded down
    assert_eq!(throughput(10, 1, 3 * NANOS_PER_SEC), 3);
    assert_eq!(throughput(1, 1, NANOS_PER_SEC + 1), 0);
    assert_eq!(throughput(0, SECTOR_BYTES, 1), 0);
}

#[test]
fn throughput_has_room_for_the_largest_counters() {
    assert_eq!(
        throughput(u64::MAX, SECTOR_BYTES, MIN_INTERVAL_NANOS),
        u64::MAX as u128 * 512 * 10
    );
    assert_eq!(throughput(u64::MAX, u16::MAX, 1), u64::MAX as u128 * 65_535 * 1_000_000_000);
}

#[test]
fn throughput_agrees_with_floating_point() {
    for (count, unit, nanos) in
        [(2000u64, 512u16, 1_000_000_000u64), (777, 512, 123_456_789), (1, 1, 100_000_000), (987_654_321, 1, 1_500_000_000)]
    {
        let float = (count as f64 * unit as f64) / (nanos as f64 / 1e9);
        let fixed = throughput(count, unit, nanos) as f64;
        assert!(fixed <= float + 1e-6);
        assert!(float - fixed < 1.0 + 1e-6);
    }
}

#[test]
fn throughput_samples_are_whole_megabytes_per_second() {
    assert_eq!(throughput_sample(0), 0);
    assert_eq!(throughput_sample(999_999), 0);
    assert_eq!(throughput_sample(1_000_000), 1);
    assert_eq!(throughput_sample(1_024_000), 1);
    assert_eq!(throughput_sample(125_000_000), 125);
    assert_eq!(throughput_sample(u64::MAX as u128 * 1_000_000), u64::MAX);
    assert_eq!(throughput_sample(u128::MAX), u64::MAX);
}

#[test]
fn percent_samples_are_whole_percent() {
    assert_eq!(percent_sample(0), 0);
    assert_eq!(percent_sample(99), 0);
    assert_eq!(percent_sample(100), 1);
    assert_eq!(percent_sample(4567), 45);
    assert_eq!(percent_sample(10_000), 100);
}
