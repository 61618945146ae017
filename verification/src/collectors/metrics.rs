//! Arithmetic shared by the collectors: percentages, counter deltas and rates.

use vstd::prelude::*;

verus! {

/// One hundred percent, in hundredths of a percent.
pub const PERCENT_FULL: u32 = 10_000;

/// Hundredths of a percent in one whole percent.
pub const PERCENT_UNIT: u32 = 100;

/// Nanoseconds in one second.
pub const NANOS_PER_SEC: u64 = 1_000_000_000;

/// Shortest interval, in nanoseconds, over which a rate is computed.
pub const MIN_INTERVAL_NANOS: u64 = 100_000_000;

/// Bytes in one disk sector.
pub const SECTOR_BYTES: u16 = 512;

/// Bytes per second in one megabyte per second, the unit of throughput histories.
pub const BYTES_PER_MEGABYTE: u64 = 1_000_000;

/// Share of `part` in `whole`, in hundredths of a percent, rounded down.
/// An empty whole gives zero, and the share never exceeds one hundred percent.
pub open spec fn percent_of(part: nat, whole: nat) -> nat {
    if whole == 0 {
        0
    } else if part * 10_000 / whole > 10_000 {
        10_000
    } else {
        part * 10_000 / whole
    }
}

/// Growth of a cumulative counter between two observations. A counter that
/// went backwards, because it wrapped or was reset, has not grown.
pub open spec fn counter_delta(previous: nat, current: nat) -> nat {
    if current >= previous {
        (current - previous) as nat
    } else {
        0
    }
}

/// Bytes per second, rounded down, when `count` units of `unit_bytes` bytes
/// each were moved in `elapsed_nanos` nanoseconds.
pub open spec fn rate_per_second(count: nat, unit_bytes: nat, elapsed_nanos: nat) -> nat {
    count * unit_bytes * 1_000_000_000 / elapsed_nanos
}

/// Whether enough time has passed between `last` and `now` to compute a rate.
pub open spec fn interval_due(last: u64, now: u64) -> bool {
    counter_delta(last as nat, now as nat) >= MIN_INTERVAL_NANOS
}

/// A throughput in whole megabytes per second, as histories record it.
pub open spec fn megabytes_per_second(rate: nat) -> nat {
    rate / 1_000_000
}

/// A throughput as histories record it: whole megabytes per second, held
/// within the range of a sample.
pub open spec fn speed_sample(rate: u128) -> u64 {
    if megabytes_per_second(rate as nat) > u64::MAX {
        u64::MAX
    } else {
        megabytes_per_second(rate as nat) as u64
    }
}

/// A percentage reported in whole percent, in hundredths of a percent and
/// held within zero to one hundred percent.
pub open spec fn from_whole_percent(whole: u32) -> u32 {
    if whole >= 100 {
        10_000
    } else {
        (whole * 100) as u32
    }
}

/// A percentage in whole percent, as histories record it.
pub open spec fn whole_percent(percent: nat) -> nat {
    percent / 100
}

/// Usage of `part` out of `whole` in hundredths of a percent.
pub fn usage_percent(part: u64, whole: u64) -> (percent: u32)
    ensures
        percent == percent_of(part as nat, whole as nat),
        percent <= PERCENT_FULL,
        whole == 0 ==> percent == 0,
{
    if whole == 0 {
        0
    } else {
        let scaled: u128 = (part as u128) * 10_000 / (whole as u128);
        if scaled > 10_000 {
            PERCENT_FULL
        } else {
            scaled as u32
        }
    }
}

/// A reported percentage in whole percent as hundredths of a percent, held
/// within zero to one hundred percent.
pub fn clamp_whole_percent(whole: u32) -> (percent: u32)
    ensures
        percent == from_whole_percent(whole),
        percent <= PERCENT_FULL,
{
    if whole >= 100 {
        PERCENT_FULL
    } else {
        whole * PERCENT_UNIT
    }
}

/// Growth of a cumulative counter since the previous observation, zero if
/// the counter went backwards.
pub fn saturating_delta(previous: u64, current: u64) -> (delta: u64)
    ensures
        delta == counter_delta(previous as nat, current as nat),
        current < previous ==> delta == 0,
{
    if current >= previous {
        current - previous
    } else {
        0
    }
}

/// Throughput in bytes per second over an interval of `elapsed_nanos`
/// nanoseconds in which `count` units of `unit_bytes` bytes were moved.
pub fn throughput(count: u64, unit_bytes: u16, elapsed_nanos: u64) -> (rate: u128)
    requires
        elapsed_nanos > 0,
    ensures
        rate == rate_per_second(count as nat, unit_bytes as nat, elapsed_nanos as nat),
{
    assert(count * unit_bytes * 1_000_000_000 <= 0xffff_ffff_ffff_ffff * 0xffff * 1_000_000_000)
        by (nonlinear_arith)
        requires
            count <= 0xffff_ffff_ffff_ffff,
            unit_bytes <= 0xffff,
    ;
    let bytes: u128 = (count as u128) * (unit_bytes as u128);
    bytes * (NANOS_PER_SEC as u128) / (elapsed_nanos as u128)
}

/// A throughput as a history sample, in whole megabytes per second.
pub fn throughput_sample(rate: u128) -> (sample: u64)
    ensures
        sample == speed_sample(rate),
{
    let scaled: u128 = rate / (BYTES_PER_MEGABYTE as u128);
    if scaled > u64::MAX as u128 {
        u64::MAX
    } else {
        scaled as u64
    }
}

/// A percentage as a history sample, in whole percent.
pub fn percent_sample(percent: u32) -> (sample: u64)
    ensures
        sample == whole_percent(percent as nat),
{
    (percent / PERCENT_UNIT) as u64
}

/// A computed rate is the true quotient rounded down: it never overstates
/// the throughput, and understates it by less than one byte per second.
pub proof fn lemma_rate_is_floor(count: nat, unit_bytes: nat, elapsed_nanos: nat)
    requires
        elapsed_nanos > 0,
    ensures
        rate_per_second(count, unit_bytes, elapsed_nanos) * elapsed_nanos <= count * unit_bytes
            * 1_000_000_000,
        count * unit_bytes * 1_000_000_000 < (rate_per_second(count, unit_bytes, elapsed_nanos)
            + 1) * elapsed_nanos,
{
    let total = (count * unit_bytes * 1_000_000_000) as int;
    let d = elapsed_nanos as int;
    vstd::arithmetic::div_mod::lemma_fundamental_div_mod(total, d);
    vstd::arithmetic::div_mod::lemma_mod_bound(total, d);
    assert(d * (total / d) == (total / d) * d) by (nonlinear_arith);
    assert((total / d + 1) * d == (total / d) * d + d) by (nonlinear_arith);
}

/// Over an interval of a whole number of seconds the rate is the bytes moved
/// divided by the seconds, rounded down; over exactly one second it is the
/// bytes moved.
pub proof fn lemma_rate_over_whole_seconds(count: nat, unit_bytes: nat, seconds: nat)
    requires
        seconds > 0,
    ensures
        rate_per_second(count, unit_bytes, seconds * 1_000_000_000) == count * unit_bytes
            / seconds,
        rate_per_second(count, unit_bytes, 1_000_000_000) == count * unit_bytes,
{
    let bytes = (count * unit_bytes) as int;
    vstd::arithmetic::div_mod::lemma_div_multiples_vanish_quotient(
        1_000_000_000,
        bytes,
        seconds as int,
    );
    assert(bytes * 1_000_000_000 == 1_000_000_000 * bytes) by (nonlinear_arith);
    assert(seconds * 1_000_000_000 == 1_000_000_000 * (seconds as int)) by (nonlinear_arith);
    assert(bytes * 1_000_000_000 / 1_000_000_000 == bytes);
}

/// A rate computed over at least the minimum interval is recorded in a
/// history as it is, in whole megabytes per second: it is within the range of
/// a sample.
pub proof fn lemma_gated_rate_fits_sample(count: u64, unit_bytes: nat, elapsed_nanos: nat)
    requires
        unit_bytes <= 512,
        elapsed_nanos >= MIN_INTERVAL_NANOS,
    ensures
        rate_per_second(count as nat, unit_bytes, elapsed_nanos) <= u128::MAX,
        speed_sample(rate_per_second(count as nat, unit_bytes, elapsed_nanos) as u128)
            == rate_per_second(count as nat, unit_bytes, elapsed_nanos) / 1_000_000,
{
    let total = (count * unit_bytes * 1_000_000_000) as int;
    let d = elapsed_nanos as int;
    assert(total <= 0xffff_ffff_ffff_ffff * 512 * 1_000_000_000) by (nonlinear_arith)
        requires
            total == count * unit_bytes * 1_000_000_000,
            count <= 0xffff_ffff_ffff_ffff,
            unit_bytes <= 512,
    ;
    vstd::arithmetic::div_mod::lemma_div_is_ordered_by_denominator(total, 100_000_000, d);
    vstd::arithmetic::div_mod::lemma_div_is_ordered(
        total,
        0xffff_ffff_ffff_ffff * 512 * 1_000_000_000int,
        100_000_000,
    );
    vstd::arithmetic::div_mod::lemma_div_pos_is_pos(total, d);
}

/// A counter that did not go backwards has grown by the difference of the
/// two observations; one that did has a delta of zero, never a negative one.
pub proof fn lemma_counter_delta(previous: nat, current: nat)
    ensures
        previous <= current ==> counter_delta(previous, current) == current - previous,
        current < previous ==> counter_delta(previous, current) == 0,
        counter_delta(previous, current) >= 0,
{
}

/// A percentage of an empty whole is zero, and every percentage lies within
/// zero to one hundred percent.
pub proof fn lemma_percent_guard(part: nat, whole: nat)
    ensures
        whole == 0 ==> percent_of(part, whole) == 0,
        percent_of(part, whole) <= 10_000,
        0 < whole && part <= whole ==> percent_of(part, whole) == part * 10_000 / whole,
{
    if 0 < whole && part <= whole {
        assert(part * 10_000 <= whole * 10_000) by (nonlinear_arith)
            requires
                part <= whole,
        ;
        vstd::arithmetic::div_mod::lemma_div_is_ordered(
            (part * 10_000) as int,
            (whole * 10_000) as int,
            whole as int,
        );
        vstd::arithmetic::div_mod::lemma_div_multiples_vanish(10_000, whole as int);
        assert(whole * 10_000 == 10_000 * whole) by (nonlinear_arith);
    }
}

} // verus!
