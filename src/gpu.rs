//! Accelerator attribution: the accelerator's interval power, scaled by the
//! monitored process's mean streaming-multiprocessor utilization, and the
//! cursor that hands each utilization sample out once.
use vstd::prelude::*;
use crate::attribution::{accelerator_power, accelerator_power_uw, FULL_SHARE};

verus! {

/// One utilization snapshot of the accelerator driver.
#[derive(Clone, Copy, Debug, PartialEq, Eq, Structural)]
pub struct ProcessUtilizationSample {
    pub pid: u32,
    /// When the snapshot was taken, in µs.
    pub timestamp: u64,
    /// Streaming-multiprocessor utilization during the snapshot, in percent.
    pub sm_util: u32,
}

/// The accelerator's share of one interval.
#[derive(Clone, Copy, Debug, PartialEq, Eq, Structural)]
pub struct GpuAttribution {
    /// Power attributed to the process, in µW.
    pub power: u128,
    /// The process's mean utilization, in hundredths of a percent.
    pub usage: u32,
    /// The cursor for the next fetch of samples.
    pub next_cursor: u64,
}

/// A sample is consumed by a fetch made with `cursor` when it belongs to the
/// process and is not older than the cursor.
pub open spec fn counts(s: ProcessUtilizationSample, pid: u32, cursor: u64) -> bool {
    s.pid == pid && s.timestamp >= cursor
}

/// Utilization of a sample, bounded by 100%.
pub open spec fn bounded_util(s: ProcessUtilizationSample) -> int {
    if s.sm_util > 100 {
        100
    } else {
        s.sm_util as int
    }
}

pub open spec fn util_sum(v: Seq<ProcessUtilizationSample>, pid: u32, cursor: u64) -> int
    decreases v.len(),
{
    if v.len() == 0 {
        0
    } else {
        util_sum(v.drop_last(), pid, cursor) + if counts(v.last(), pid, cursor) {
            bounded_util(v.last())
        } else {
            0
        }
    }
}

pub open spec fn util_count(v: Seq<ProcessUtilizationSample>, pid: u32, cursor: u64) -> int
    decreases v.len(),
{
    if v.len() == 0 {
        0
    } else {
        util_count(v.drop_last(), pid, cursor) + if counts(v.last(), pid, cursor) {
            1int
        } else {
            0
        }
    }
}

/// Mean utilization of the process's samples in hundredths of a percent
/// (rounded down), or 0 when it has none.
pub open spec fn mean_usage(v: Seq<ProcessUtilizationSample>, pid: u32, cursor: u64) -> int {
    if util_count(v, pid, cursor) == 0 {
        0
    } else {
        util_sum(v, pid, cursor) * 100 / util_count(v, pid, cursor)
    }
}

/// The cursor after a fetch that returned `v`: the newest timestamp seen, and
/// never less than the cursor the fetch was made with.
pub open spec fn cursor_after_batch(v: Seq<ProcessUtilizationSample>, cursor: u64) -> u64
    decreases v.len(),
{
    if v.len() == 0 {
        cursor
    } else {
        let m = cursor_after_batch(v.drop_last(), cursor);
        if v.last().timestamp > m {
            v.last().timestamp
        } else {
            m
        }
    }
}

/// The cursor after a fetch: unchanged when the fetch failed (`None`), so
/// that the next fetch covers the missed window.
pub open spec fn next_cursor(cursor: u64, fetched: Option<Seq<ProcessUtilizationSample>>) -> u64 {
    match fetched {
        Some(v) => cursor_after_batch(v, cursor),
        None => cursor,
    }
}

/// Accelerator energy used between two readings, in mJ. The accelerator's
/// counter is taken to reset rather than wrap: a later reading below the
/// earlier one is itself the energy used since the reset.
pub open spec fn gpu_energy_delta(e1: int, e2: int) -> int {
    if e2 >= e1 {
        e2 - e1
    } else {
        e2
    }
}

/// What `get_gpu_energy_by_pid` gives for a fetch that returned `v`.
pub open spec fn attribution_of(
    pid: u32,
    energy_1: u64,
    energy_2: u64,
    cursor: u64,
    elapsed_us: u64,
    v: Seq<ProcessUtilizationSample>,
) -> GpuAttribution {
    GpuAttribution {
        power: accelerator_power(
            gpu_energy_delta(energy_1 as int, energy_2 as int),
            elapsed_us as int,
            mean_usage(v, pid, cursor),
        ) as u128,
        usage: mean_usage(v, pid, cursor) as u32,
        next_cursor: cursor_after_batch(v, cursor),
    }
}

proof fn lemma_sum_bounded(v: Seq<ProcessUtilizationSample>, pid: u32, cursor: u64)
    ensures
        0 <= util_sum(v, pid, cursor) <= 100 * util_count(v, pid, cursor),
        0 <= util_count(v, pid, cursor) <= v.len(),
    decreases v.len(),
{
    if v.len() > 0 {
        lemma_sum_bounded(v.drop_last(), pid, cursor);
    }
}

pub proof fn lemma_mean_usage_bounded(v: Seq<ProcessUtilizationSample>, pid: u32, cursor: u64)
    ensures
        0 <= mean_usage(v, pid, cursor) <= FULL_SHARE,
{
    lemma_sum_bounded(v, pid, cursor);
    let s = util_sum(v, pid, cursor);
    let c = util_count(v, pid, cursor);
    if c > 0 {
        assert(s * 100 <= 10_000 * c) by (nonlinear_arith)
            requires s <= 100 * c;
        vstd::arithmetic::div_mod::lemma_div_is_ordered(s * 100, 10_000 * c, c);
        vstd::arithmetic::div_mod::lemma_div_multiples_vanish(10_000, c);
        vstd::arithmetic::div_mod::lemma_div_pos_is_pos(s * 100, c);
    }
}

/// The cursor after a batch is at least the cursor before it and at least
/// every timestamp in the batch.
pub proof fn lemma_cursor_covers_batch(v: Seq<ProcessUtilizationSample>, cursor: u64)
    ensures
        cursor_after_batch(v, cursor) >= cursor,
        forall|k: int| 0 <= k < v.len() ==> cursor_after_batch(v, cursor) >= (#[trigger] v[k]).timestamp,
    decreases v.len(),
{
    if v.len() > 0 {
        lemma_cursor_covers_batch(v.drop_last(), cursor);
        assert forall|k: int| 0 <= k < v.len() implies cursor_after_batch(v, cursor) >= (
        #[trigger] v[k]).timestamp by {
            if k < v.len() - 1 {
                assert(v.drop_last()[k] == v[k]);
            }
        }
    }
}

/// Attributes the accelerator's interval power to process `pid`.
///
/// `energy_1` and `energy_2` are the accelerator's cumulative energy, in mJ,
/// at the start and end of an interval of `elapsed_us` µs. `fetched` holds the
/// utilization samples that the driver returned for `cursor`, or `None` when
/// the fetch failed; then the interval counts as zero power and utilization
/// and the cursor is handed back unchanged, so the next fetch recovers the
/// missed window. Otherwise the process's share is the mean utilization of
/// its samples not older than the cursor, and the next cursor is the newest
/// timestamp seen.
pub fn get_gpu_energy_by_pid(
    pid: u32,
    energy_1: u64,
    energy_2: u64,
    cursor: u64,
    elapsed_us: u64,
    fetched: &Option<Vec<ProcessUtilizationSample>>,
) -> (r: GpuAttribution)
    requires
        elapsed_us > 0,
    ensures
        match fetched {
            None => r == GpuAttribution { power: 0, usage: 0, next_cursor: cursor },
            Some(v) => r == attribution_of(pid, energy_1, energy_2, cursor, elapsed_us, v@),
        },
        r.usage <= FULL_SHARE,
        r.next_cursor >= cursor,
{
    let samples = match fetched {
        Some(v) => v,
        None => {
            return GpuAttribution { power: 0, usage: 0, next_cursor: cursor };
        },
    };
    let n = samples.len();
    let mut sum: u128 = 0;
    let mut count: u64 = 0;
    let mut newest: u64 = cursor;
    let mut i: usize = 0;
    while i < n
        invariant
            i <= n == samples@.len(),
            sum == util_sum(samples@.subrange(0, i as int), pid, cursor),
            count == util_count(samples@.subrange(0, i as int), pid, cursor),
            newest == cursor_after_batch(samples@.subrange(0, i as int), cursor),
            sum <= 100 * count,
            count <= i,
        decreases n - i,
    {
        let s = samples[i];
        let ghost pre = samples@.subrange(0, i as int);
        assert(samples@.subrange(0, i + 1).drop_last() =~= pre);
        if s.pid == pid && s.timestamp >= cursor {
            let u: u32 = if s.sm_util > 100 {
                100
            } else {
                s.sm_util
            };
            sum = sum + u as u128;
            count = count + 1;
        }
        if s.timestamp > newest {
            newest = s.timestamp;
        }
        i = i + 1;
    }
    assert(samples@.subrange(0, n as int) =~= samples@);
    proof {
        lemma_mean_usage_bounded(samples@, pid, cursor);
        lemma_cursor_covers_batch(samples@, cursor);
    }
    let usage: u32 = if count == 0 {
        0
    } else {
        (sum * 100 / count as u128) as u32
    };
    let delta: u64 = if energy_2 >= energy_1 {
        energy_2 - energy_1
    } else {
        energy_2
    };
    let power = accelerator_power_uw(delta, elapsed_us, usage);
    GpuAttribution { power, usage, next_cursor: newest }
}

/// The cursor after each call of a sequence of fetches (`None` for a failed
/// one) that starts at `start`: `cursor_before(start, f, i)` is the cursor
/// that call `i` is made with.
pub open spec fn cursor_before(
    start: u64,
    fetches: Seq<Option<Seq<ProcessUtilizationSample>>>,
    i: int,
) -> u64
    decreases i,
{
    if i <= 0 {
        start
    } else {
        next_cursor(cursor_before(start, fetches, i - 1), fetches[i - 1])
    }
}

/// Across any sequence of successful and failed fetches the cursor never
/// moves back.
pub proof fn lemma_cursor_never_rewinds(
    start: u64,
    fetches: Seq<Option<Seq<ProcessUtilizationSample>>>,
    i: int,
    j: int,
)
    requires
        0 <= i <= j,
    ensures
        cursor_before(start, fetches, i) <= cursor_before(start, fetches, j),
    decreases j - i,
{
    if i < j {
        lemma_cursor_never_rewinds(start, fetches, i, j - 1);
        let c = cursor_before(start, fetches, j - 1);
        match fetches[j - 1] {
            Some(v) => lemma_cursor_covers_batch(v, c),
            None => {},
        }
    }
}

/// A sample returned by fetch `i` with a timestamp below the cursor that
/// follows that fetch is never consumed again by a later fetch `j`.
pub proof fn lemma_no_sample_consumed_twice(
    start: u64,
    fetches: Seq<Option<Seq<ProcessUtilizationSample>>>,
    i: int,
    j: int,
    k: int,
    pid: u32,
)
    requires
        0 <= i < j,
        i < fetches.len(),
        fetches[i] is Some,
        0 <= k < fetches[i]->Some_0.len(),
    ensures
        ({
            let s = fetches[i]->Some_0[k];
            s.timestamp < cursor_before(start, fetches, i + 1) ==> !counts(
                s,
                pid,
                cursor_before(start, fetches, j),
            )
        }),
{
    lemma_cursor_never_rewinds(start, fetches, i + 1, j);
}

} // verus!
