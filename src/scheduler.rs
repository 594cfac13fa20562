//! The sampling scheduler as a state machine: each tick's observations go in,
//! the next state and the action for the sink come out. The caller owns the
//! timer, the counter handles, the process table and the sink.
use vstd::prelude::*;
use crate::attribution::FULL_SHARE;
use crate::error::EnergyError;
use crate::gpu::{attribution_of, get_gpu_energy_by_pid, GpuAttribution, ProcessUtilizationSample};
use crate::rapl::{
    cap, cpu_deltas, delta_cpu_energy_per_pid_w, domain_totals, same_shape, total_of, Domain, RaplEnergy,
    RaplEnergyDelta,
};
use crate::record::Record;

verus! {

/// Where the sampling loop stands. Starting is `Scheduler::start` itself.
#[derive(Clone, Copy, Debug, PartialEq, Eq, Structural)]
pub enum Phase {
    /// Ticks are measured and recorded.
    Sampling,
    /// The sink has been told to finalize; nothing more is recorded.
    Draining,
    /// The loop is over.
    Stopped,
}

/// What the caller does with the sink after a tick.
#[derive(Clone, Debug, PartialEq, Eq)]
pub enum Action {
    /// Nothing: the loop is no longer sampling.
    Nothing,
    /// Append the record.
    Append(Record),
    /// Append the record, then finalize the sink: the process looks idle.
    AppendAndFinalize(Record),
    /// Finalize the sink: the process has exited.
    Finalize,
    /// End the run with a fatal error; the sink keeps what it already has.
    Abort(EnergyError),
}

/// The readings carried from one tick to the next.
#[derive(Clone, Debug, PartialEq, Eq)]
pub struct PreviousSnapshot {
    pub cpu: Vec<RaplEnergy>,
    /// Accelerator energy, in mJ.
    pub gpu_energy: u64,
    /// Cursor for the next fetch of utilization samples.
    pub cursor: u64,
}

/// What the caller observed at a tick.
#[derive(Debug)]
pub struct Tick {
    /// Whether the monitored process still runs.
    pub alive: bool,
    /// The process's CPU share, in hundredths of a percent.
    pub cpu_share: u32,
    /// The process's share of system memory, in hundredths of a percent.
    pub mem_share: u32,
    /// Time since the previous tick, in µs.
    pub elapsed_us: u64,
    pub timestamp: String,
    /// The counter snapshot, or the error that reading it gave.
    pub cpu: Result<Vec<RaplEnergy>, EnergyError>,
    /// Accelerator energy in mJ, or `None` when the device query failed.
    pub gpu_energy: Option<u64>,
    /// Utilization samples fetched with the current cursor, or `None` when
    /// the fetch failed.
    pub samples: Option<Vec<ProcessUtilizationSample>>,
}

#[derive(Clone, Debug, PartialEq, Eq)]
pub struct Scheduler {
    pub phase: Phase,
    pub pid: u32,
    pub run_id: i64,
    /// Number of records emitted so far.
    pub iteration: u64,
    /// Whether the previous tick's accelerator energy query failed.
    pub gpu_failed: bool,
    pub previous: PreviousSnapshot,
}

impl Action {
    pub open spec fn appends(&self) -> bool {
        self is Append || self is AppendAndFinalize
    }

    pub open spec fn finalizes(&self) -> bool {
        self is Finalize || self is AppendAndFinalize
    }
}

/// The moves a tick may make: only a sampling loop appends or finalizes; a
/// finalize leads to Draining; nothing leads back to Sampling.
pub open spec fn allowed_move(before: Phase, a: Action, after: Phase) -> bool {
    &&& (a.appends() || a.finalizes()) ==> before == Phase::Sampling
    &&& a.finalizes() ==> after == Phase::Draining
    &&& after == Phase::Sampling ==> before == Phase::Sampling
    &&& before != Phase::Sampling ==> a is Nothing
}

/// Nothing was measured for the interval: no CPU share, no accelerator use.
pub open spec fn is_idle(r: Record) -> bool {
    r.cpu_usage == 0 && r.gpu_usage == 0 && r.gpu_energy == 0
}

/// The accelerator's part of a tick: zero power and utilization, with the
/// cursor kept, when the energy query failed.
pub open spec fn gpu_part(s: Scheduler, t: Tick) -> GpuAttribution {
    match t.gpu_energy {
        Some(e2) => match t.samples {
            Some(v) => attribution_of(
                s.pid,
                s.previous.gpu_energy,
                e2,
                s.previous.cursor,
                t.elapsed_us,
                v@,
            ),
            None => GpuAttribution { power: 0, usage: 0, next_cursor: s.previous.cursor },
        },
        None => GpuAttribution { power: 0, usage: 0, next_cursor: s.previous.cursor },
    }
}

/// The record a tick produces from the per-domain attribution `d`.
pub open spec fn record_of(s: Scheduler, t: Tick, d: Seq<RaplEnergyDelta>) -> Record {
    Record {
        id: (s.iteration + 1) as u64,
        run_id: s.run_id,
        pid: s.pid,
        timestamp: t.timestamp,
        cpu_usage: t.cpu_share,
        cpu_energy: cap(total_of(d, Domain::Cpu)) as u128,
        gpu_usage: gpu_part(s, t).usage,
        gpu_energy: gpu_part(s, t).power,
        mem_usage: t.mem_share,
        mem_energy: cap(total_of(d, Domain::Dram)) as u128,
        igpu_usage: 0,
        igpu_energy: cap(total_of(d, Domain::Igpu)) as u128,
    }
}

impl Scheduler {
    /// Starting: takes the baseline readings of the counters and of the
    /// accelerator, with the sample cursor at 0 ("everything buffered"). A
    /// baseline that could not be read aborts the run before any record.
    pub fn start(
        pid: u32,
        run_id: i64,
        cpu: Result<Vec<RaplEnergy>, EnergyError>,
        gpu_energy: Option<u64>,
    ) -> (r: Result<Scheduler, EnergyError>)
        ensures
            match cpu {
                Err(e) => r == Err::<Scheduler, EnergyError>(e),
                Ok(v) => match gpu_energy {
                    None => r == Err::<Scheduler, EnergyError>(EnergyError::Device),
                    Some(g) => r is Ok && ({
                        let s = r->Ok_0;
                        &&& s.phase == Phase::Sampling
                        &&& s.pid == pid
                        &&& s.run_id == run_id
                        &&& s.iteration == 0
                        &&& !s.gpu_failed
                        &&& s.previous.cpu == v
                        &&& s.previous.gpu_energy == g
                        &&& s.previous.cursor == 0
                    }),
                },
            },
    {
        let v = match cpu {
            Ok(v) => v,
            Err(e) => {
                return Err(e);
            },
        };
        let g = match gpu_energy {
            Some(g) => g,
            None => {
                return Err(EnergyError::Device);
            },
        };
        Ok(
            Scheduler {
                phase: Phase::Sampling,
                pid,
                run_id,
                iteration: 0,
                gpu_failed: false,
                previous: PreviousSnapshot { cpu: v, gpu_energy: g, cursor: 0 },
            },
        )
    }

    /// Handles one tick.
    ///
    /// Outside Sampling nothing happens (Draining moves on to Stopped). While
    /// sampling: an exited process finalizes the sink (Draining); an
    /// unreadable counter snapshot, one that does not match the previous one,
    /// or a second accelerator failure in a row aborts (Stopped). Otherwise
    /// the interval is attributed and recorded, and the tick's readings
    /// become the next baseline; an idle interval is recorded and then
    /// finalizes the sink. A single accelerator failure records zero
    /// accelerator power and keeps the accelerator baseline and cursor.
    pub fn step(self, t: Tick) -> (r: (Scheduler, Action))
        requires
            t.elapsed_us > 0,
            t.cpu_share <= FULL_SHARE,
            t.mem_share <= FULL_SHARE,
        ensures
            allowed_move(self.phase, r.1, r.0.phase),
            self.phase == Phase::Draining ==> r.0.phase == Phase::Stopped,
            self.phase == Phase::Stopped ==> r.0.phase == Phase::Stopped,
            self.phase == Phase::Sampling && !t.alive ==> r.0.phase == Phase::Draining && r.1 is Finalize,
            self.phase == Phase::Sampling && t.alive ==> match t.cpu {
                Err(e) => r.0.phase == Phase::Stopped && r.1 == Action::Abort(e),
                Ok(c) => if !same_shape(self.previous.cpu@, c@) {
                    r.0.phase == Phase::Stopped && r.1 == Action::Abort(EnergyError::AttributionInvariant)
                } else if t.gpu_energy is None && self.gpu_failed {
                    r.0.phase == Phase::Stopped && r.1 == Action::Abort(EnergyError::Device)
                } else if self.iteration == u64::MAX {
                    r.0.phase == Phase::Draining && r.1 is Finalize
                } else {
                    let rec = record_of(
                        self,
                        t,
                        cpu_deltas(self.previous.cpu@, c@, t.elapsed_us as int, t.cpu_share as int),
                    );
                    &&& rec.wf()
                    &&& if is_idle(rec) {
                        r.0.phase == Phase::Draining && r.1 == Action::AppendAndFinalize(rec)
                    } else {
                        &&& r.0.phase == Phase::Sampling
                        &&& r.1 == Action::Append(rec)
                        &&& r.0.iteration == self.iteration + 1
                        &&& r.0.previous.cpu == c
                        &&& r.0.previous.gpu_energy == (match t.gpu_energy {
                            Some(e2) => e2,
                            None => self.previous.gpu_energy,
                        })
                        &&& r.0.previous.cursor == gpu_part(self, t).next_cursor
                        &&& r.0.gpu_failed == (t.gpu_energy is None)
                    }
                },
            },
            r.0.pid == self.pid,
            r.0.run_id == self.run_id,
    {
        let ghost s0 = self;
        let Scheduler { phase, pid, run_id, iteration, gpu_failed, previous } = self;
        if phase != Phase::Sampling {
            let s = Scheduler {
                phase: Phase::Stopped,
                pid,
                run_id,
                iteration,
                gpu_failed,
                previous,
            };
            return (s, Action::Nothing);
        }
        if !t.alive {
            let s = Scheduler { phase: Phase::Draining, pid, run_id, iteration, gpu_failed, previous };
            return (s, Action::Finalize);
        }
        let Tick { alive, cpu_share, mem_share, elapsed_us, timestamp, cpu, gpu_energy, samples } = t;
        let c = match cpu {
            Ok(c) => c,
            Err(e) => {
                let s = Scheduler { phase: Phase::Stopped, pid, run_id, iteration, gpu_failed, previous };
                return (s, Action::Abort(e));
            },
        };
        let deltas = match delta_cpu_energy_per_pid_w(&previous.cpu, &c, elapsed_us, cpu_share) {
            Ok(d) => d,
            Err(e) => {
                let s = Scheduler { phase: Phase::Stopped, pid, run_id, iteration, gpu_failed, previous };
                return (s, Action::Abort(e));
            },
        };
        if gpu_energy.is_none() && gpu_failed {
            let s = Scheduler { phase: Phase::Stopped, pid, run_id, iteration, gpu_failed, previous };
            return (s, Action::Abort(EnergyError::Device));
        }
        if iteration == u64::MAX {
            let s = Scheduler { phase: Phase::Draining, pid, run_id, iteration, gpu_failed, previous };
            return (s, Action::Finalize);
        }
        let totals = domain_totals(&deltas);
        let g = match gpu_energy {
            Some(e2) => get_gpu_energy_by_pid(
                pid,
                previous.gpu_energy,
                e2,
                previous.cursor,
                elapsed_us,
                &samples,
            ),
            None => GpuAttribution { power: 0, usage: 0, next_cursor: previous.cursor },
        };
        let rec = Record {
            id: iteration + 1,
            run_id,
            pid,
            timestamp,
            cpu_usage: cpu_share,
            cpu_energy: totals.cpu,
            gpu_usage: g.usage,
            gpu_energy: g.power,
            mem_usage: mem_share,
            mem_energy: totals.dram,
            igpu_usage: 0,
            igpu_energy: totals.igpu,
        };
        assert(rec == record_of(s0, t, deltas@));
        if cpu_share == 0 && g.usage == 0 && g.power == 0 {
            let s = Scheduler { phase: Phase::Draining, pid, run_id, iteration, gpu_failed, previous };
            return (s, Action::AppendAndFinalize(rec));
        }
        let next_gpu = match gpu_energy {
            Some(e2) => e2,
            None => previous.gpu_energy,
        };
        let s = Scheduler {
            phase: Phase::Sampling,
            pid,
            run_id,
            iteration: iteration + 1,
            gpu_failed: gpu_energy.is_none(),
            previous: PreviousSnapshot { cpu: c, gpu_energy: next_gpu, cursor: g.next_cursor },
        };
        (s, Action::Append(rec))
    }
}

} // verus!

verus! {

proof fn lemma_no_return_to_sampling(phases: Seq<Phase>, actions: Seq<Action>, i: int, j: int)
    requires
        phases.len() == actions.len() + 1,
        forall|k: int| 0 <= k < actions.len() ==> allowed_move(#[trigger] phases[k], actions[k], phases[k + 1]),
        0 <= i <= j < phases.len(),
        phases[i] != Phase::Sampling,
    ensures
        phases[j] != Phase::Sampling,
    decreases j - i,
{
    if i < j {
        lemma_no_return_to_sampling(phases, actions, i, j - 1);
        assert(allowed_move(phases[j - 1], actions[j - 1], phases[j]));
    }
}

/// Over any run of ticks, the sink is finalized at most once, and once it has
/// been finalized no record is appended to it.
pub proof fn lemma_finalize_once(phases: Seq<Phase>, actions: Seq<Action>)
    requires
        phases.len() == actions.len() + 1,
        forall|k: int| 0 <= k < actions.len() ==> allowed_move(#[trigger] phases[k], actions[k], phases[k + 1]),
    ensures
        forall|i: int, j: int|
            0 <= i < j < actions.len() && (#[trigger] actions[i]).finalizes() ==> !(
            #[trigger] actions[j]).finalizes() && !actions[j].appends(),
{
    assert forall|i: int, j: int|
        0 <= i < j < actions.len() && (#[trigger] actions[i]).finalizes() implies !(
        #[trigger] actions[j]).finalizes() && !actions[j].appends() by {
        assert(allowed_move(phases[i], actions[i], phases[i + 1]));
        lemma_no_return_to_sampling(phases, actions, i + 1, j);
        assert(allowed_move(phases[j], actions[j], phases[j + 1]));
    }
}

} // verus!
