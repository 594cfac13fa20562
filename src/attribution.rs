//! Interval arithmetic shared by the CPU-domain and accelerator paths.
//!
//! All quantities are integers: energy in microjoules (µJ) or millijoules
//! (mJ), time in microseconds (µs), power in microwatts (µW) and utilization
//! shares in hundredths of a percent (`10_000` is 100%).
use vstd::prelude::*;

verus! {

/// A utilization share of 100%, in hundredths of a percent.
pub const FULL_SHARE: u32 = 10_000;

/// Energy consumed between two readings of a cumulative counter that wraps
/// back to zero after `ceiling`: a later reading below the earlier one means
/// exactly one wrap happened in between.
pub open spec fn wrap_delta(c1: int, c2: int, ceiling: int) -> int {
    if c2 >= c1 {
        c2 - c1
    } else {
        (c2 + ceiling) - c1
    }
}

/// The interval energy used for attribution: `wrap_delta`, never negative.
pub open spec fn corrected_delta(c1: int, c2: int, ceiling: int) -> int {
    if wrap_delta(c1, c2, ceiling) >= 0 {
        wrap_delta(c1, c2, ceiling)
    } else {
        0
    }
}

/// Power of a domain, in µW, whose counter moved by `delta_uj` µJ in
/// `elapsed_us` µs (rounded down).
pub open spec fn domain_power(delta_uj: int, elapsed_us: int) -> int {
    (delta_uj * 1_000_000) / elapsed_us
}

/// Share `share` (in hundredths of a percent) of the power of a domain whose
/// counter moved by `delta_uj` µJ in `elapsed_us` µs, in µW, rounded down:
/// `delta_uj / 10^6 J / (elapsed_us / 10^6 s) * share / 10^4`.
pub open spec fn attributed_power(delta_uj: int, elapsed_us: int, share: int) -> int {
    (delta_uj * 100 * share) / elapsed_us
}

/// Power of the accelerator, in µW, whose energy counter moved by `delta_mj`
/// mJ in `elapsed_us` µs, scaled by `share` (hundredths of a percent).
pub open spec fn accelerator_power(delta_mj: int, elapsed_us: int, share: int) -> int {
    (delta_mj * 100_000 * share) / elapsed_us
}

/// Counter movement between `c1` and `c2` with wraparound correction against
/// `ceiling`; clamped at zero when the readings are inconsistent with a single
/// wrap.
pub fn wrap_correct(c1: u64, c2: u64, ceiling: u64) -> (d: u64)
    ensures
        d == corrected_delta(c1 as int, c2 as int, ceiling as int),
{
    if c2 >= c1 {
        c2 - c1
    } else if c1 - c2 <= ceiling {
        ceiling - (c1 - c2)
    } else {
        0
    }
}

/// Power of a domain in µW from its interval energy.
pub fn domain_power_uw(delta_uj: u64, elapsed_us: u64) -> (p: u128)
    requires
        elapsed_us > 0,
    ensures
        p == domain_power(delta_uj as int, elapsed_us as int),
{
    assert(delta_uj as int * 1_000_000 <= u64::MAX as int * 1_000_000) by (nonlinear_arith)
        requires delta_uj <= u64::MAX;
    (delta_uj as u128 * 1_000_000) / (elapsed_us as u128)
}

/// Power attributed to a process holding share `share` of the machine, in µW.
pub fn attributed_power_uw(delta_uj: u64, elapsed_us: u64, share: u32) -> (p: u128)
    requires
        elapsed_us > 0,
        share <= FULL_SHARE,
    ensures
        p == attributed_power(delta_uj as int, elapsed_us as int, share as int),
{
    assert(delta_uj as int * 100 * share as int <= u64::MAX as int * 100 * 10_000) by (nonlinear_arith)
        requires delta_uj <= u64::MAX, share <= 10_000;
    (delta_uj as u128 * 100 * share as u128) / (elapsed_us as u128)
}

/// Share `share` of the accelerator's power over the interval, in µW.
pub fn accelerator_power_uw(delta_mj: u64, elapsed_us: u64, share: u32) -> (p: u128)
    requires
        elapsed_us > 0,
        share <= FULL_SHARE,
    ensures
        p == accelerator_power(delta_mj as int, elapsed_us as int, share as int),
{
    assert(delta_mj as int * 100_000 * share as int <= u64::MAX as int * 100_000 * 10_000) by (nonlinear_arith)
        requires delta_mj <= u64::MAX, share <= 10_000;
    (delta_mj as u128 * 100_000 * share as u128) / (elapsed_us as u128)
}

/// When the later reading is not below the earlier one, wraparound
/// correction changes nothing: the delta is the plain difference.
pub proof fn lemma_no_wrap_is_plain_difference(c1: u64, c2: u64, ceiling: u64)
    requires
        c2 >= c1,
    ensures
        corrected_delta(c1 as int, c2 as int, ceiling as int) == c2 - c1,
{
}

/// When the later reading is below the earlier one, and the earlier reading
/// lies within the counter's range, the corrected delta is `(c2 + M) - c1`
/// and is not negative.
pub proof fn lemma_wrap_adds_ceiling(c1: u64, c2: u64, ceiling: u64)
    requires
        c2 < c1,
        c1 <= ceiling,
    ensures
        corrected_delta(c1 as int, c2 as int, ceiling as int) == (c2 + ceiling) - c1,
        (c2 + ceiling) - c1 >= 0,
{
}

/// For a fixed counter movement and interval, attributed power does not
/// decrease as the process's CPU share grows.
pub proof fn lemma_attribution_monotone_in_share(delta_uj: nat, elapsed_us: int, s1: nat, s2: nat)
    requires
        elapsed_us > 0,
        s1 <= s2,
    ensures
        attributed_power(delta_uj as int, elapsed_us, s1 as int)
            <= attributed_power(delta_uj as int, elapsed_us, s2 as int),
{
    assert(delta_uj * 100 * s1 <= delta_uj * 100 * s2) by (nonlinear_arith)
        requires s1 <= s2;
    vstd::arithmetic::div_mod::lemma_div_is_ordered(
        (delta_uj * 100 * s1) as int,
        (delta_uj * 100 * s2) as int,
        elapsed_us,
    );
}

} // verus!

verus! {

/// A process's CPU share, normalised to the whole machine, from its usage
/// summed over all cores (in hundredths of a percent), bounded by 100%.
pub open spec fn cpu_share_of(total: int, cores: int) -> int {
    if cores <= 0 {
        0
    } else if total / cores > FULL_SHARE {
        FULL_SHARE as int
    } else {
        total / cores
    }
}

/// A process's share of system memory, in hundredths of a percent (rounded
/// down), bounded by 100%.
pub open spec fn memory_share_of(process_bytes: int, total_bytes: int) -> int {
    if total_bytes <= 0 {
        0
    } else if process_bytes * 10_000 / total_bytes > FULL_SHARE {
        FULL_SHARE as int
    } else {
        process_bytes * 10_000 / total_bytes
    }
}

/// The CPU share of a process whose usage, summed over `cores` cores, is
/// `total` hundredths of a percent.
pub fn cpu_share(total: u64, cores: u64) -> (r: u32)
    ensures
        r == cpu_share_of(total as int, cores as int),
        r <= FULL_SHARE,
{
    if cores == 0 {
        0
    } else if total / cores > FULL_SHARE as u64 {
        FULL_SHARE
    } else {
        (total / cores) as u32
    }
}

/// The share of system memory held by a process.
pub fn memory_share(process_bytes: u64, total_bytes: u64) -> (r: u32)
    ensures
        r == memory_share_of(process_bytes as int, total_bytes as int),
        r <= FULL_SHARE,
{
    if total_bytes == 0 {
        return 0;
    }
    assert(process_bytes as int * 10_000 <= u64::MAX as int * 10_000) by (nonlinear_arith)
        requires process_bytes <= u64::MAX;
    let q = (process_bytes as u128 * 10_000) / total_bytes as u128;
    if q > FULL_SHARE as u128 {
        FULL_SHARE
    } else {
        q as u32
    }
}

} // verus!
