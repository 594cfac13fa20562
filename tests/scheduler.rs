use ecocode::error::EnergyError;
use ecocode::gpu::ProcessUtilizationSample;
use ecocode::rapl::{Domain, RaplEnergy};
use ecocode::scheduler::{Action, Phase, Scheduler, Tick};

fn cpu(energy: u64) -> Vec<RaplEnergy> {
    vec![RaplEnergy {
        socket: 0,
        domain: Domain::Cpu,
        name: "cpu".to_string(),
        energy,
        max_energy: u64::MAX,
    }]
}

fn tick(alive: bool, cpu_share: u32, c: Result<Vec<RaplEnergy>, EnergyError>, gpu: Option<u64>) -> Tick {
    Tick {
        alive,
        cpu_share,
        mem_share: 1_234,
        elapsed_us: 1_000_000,
        timestamp: "2024-01-01T00:00:01+00:00".to_string(),
        cpu: c,
        gpu_energy: gpu,
        samples: Some(vec![ProcessUtilizationSample { pid: 42, timestamp: 10, sm_util: 50 }]),
    }
}

fn started() -> Scheduler {
    Scheduler::start(42, 3, Ok(cpu(1_000_000)), Some(100)).unwrap()
}

#[test]
fn start_takes_the_baseline() {
    let s = started();
    assert_eq!(s.phase, Phase::Sampling);
    assert_eq!(s.iteration, 0);
    assert_eq!(s.previous.cursor, 0);
    assert_eq!(s.previous.gpu_energy, 100);
}

#[test]
fn start_fails_without_baseline() {
    assert_eq!(
        Scheduler::start(42, 3, Err(EnergyError::Io), Some(1)),
        Err(EnergyError::Io)
    );
    assert_eq!(
        Scheduler::start(42, 3, Ok(cpu(0)), None),
        Err(EnergyError::Device)
    );
}

#[test]
fn tick_records_attributed_power() {
    let (s, a) = started().step(tick(true, 5_000, Ok(cpu(1_600_000)), Some(1_100)));
    assert_eq!(s.phase, Phase::Sampling);
    assert_eq!(s.iteration, 1);
    assert_eq!(s.previous.gpu_energy, 1_100);
    assert_eq!(s.previous.cursor, 10);
    match a {
        Action::Append(r) => {
            assert_eq!(r.id, 1);
            assert_eq!(r.run_id, 3);
            assert_eq!(r.pid, 42);
            assert_eq!(r.cpu_usage, 5_000);
            assert_eq!(r.cpu_energy, 300_000);
            assert_eq!(r.gpu_usage, 5_000);
            assert_eq!(r.gpu_energy, 500_000);
            assert_eq!(r.mem_usage, 1_234);
            assert_eq!(r.mem_energy, 0);
            assert_eq!(r.igpu_usage, 0);
        }
        other => panic!("unexpected action {:?}", other),
    }
}

#[test]
fn process_exit_finalizes_once_and_appends_nothing_after() {
    let (s1, a1) = started().step(tick(true, 5_000, Ok(cpu(1_600_000)), Some(1_100)));
    assert!(matches!(a1, Action::Append(_)));
    let (s2, a2) = s1.step(tick(false, 0, Ok(cpu(1_700_000)), Some(1_200)));
    assert_eq!(s2.phase, Phase::Draining);
    assert_eq!(a2, Action::Finalize);
    let (s3, a3) = s2.step(tick(true, 5_000, Ok(cpu(1_800_000)), Some(1_300)));
    assert_eq!(a3, Action::Nothing);
    assert_eq!(s3.phase, Phase::Stopped);
    let (s4, a4) = s3.step(tick(true, 5_000, Ok(cpu(1_900_000)), Some(1_400)));
    assert_eq!(a4, Action::Nothing);
    assert_eq!(s4.phase, Phase::Stopped);
}

#[test]
fn empty_registry_runs_on_the_accelerator_alone() {
    let s = Scheduler::start(42, 3, Ok(Vec::new()), Some(100)).unwrap();
    let (s, a) = s.step(tick(true, 5_000, Ok(Vec::new()), Some(1_100)));
    assert_eq!(s.phase, Phase::Sampling);
    match a {
        Action::Append(r) => {
            assert_eq!(r.cpu_energy, 0);
            assert_eq!(r.mem_energy, 0);
            assert_eq!(r.igpu_energy, 0);
            assert_eq!(r.gpu_energy, 500_000);
        }
        other => panic!("unexpected action {:?}", other),
    }
}

#[test]
fn idle_interval_is_recorded_then_finalizes() {
    let mut t = tick(true, 0, Ok(cpu(1_000_000)), Some(100));
    t.samples = Some(Vec::new());
    let (s, a) = started().step(t);
    assert_eq!(s.phase, Phase::Draining);
    match a {
        Action::AppendAndFinalize(r) => {
            assert_eq!(r.cpu_usage, 0);
            assert_eq!(r.gpu_energy, 0);
        }
        other => panic!("unexpected action {:?}", other),
    }
}

#[test]
fn counter_read_error_aborts() {
    let (s, a) = started().step(tick(true, 5_000, Err(EnergyError::Io), Some(1_100)));
    assert_eq!(s.phase, Phase::Stopped);
    assert_eq!(a, Action::Abort(EnergyError::Io));
}

#[test]
fn changed_counter_set_aborts() {
    let (s, a) = started().step(tick(true, 5_000, Ok(Vec::new()), Some(1_100)));
    assert_eq!(s.phase, Phase::Stopped);
    assert_eq!(a, Action::Abort(EnergyError::AttributionInvariant));
}

#[test]
fn single_accelerator_failure_degrades_to_zero() {
    let (s1, a1) = started().step(tick(true, 5_000, Ok(cpu(1_600_000)), None));
    assert_eq!(s1.phase, Phase::Sampling);
    assert!(s1.gpu_failed);
    assert_eq!(s1.previous.gpu_energy, 100);
    assert_eq!(s1.previous.cursor, 0);
    match a1 {
        Action::Append(r) => {
            assert_eq!(r.gpu_energy, 0);
            assert_eq!(r.gpu_usage, 0);
            assert_eq!(r.cpu_energy, 300_000);
        }
        other => panic!("unexpected action {:?}", other),
    }
    let (s2, a2) = s1.step(tick(true, 5_000, Ok(cpu(1_700_000)), None));
    assert_eq!(s2.phase, Phase::Stopped);
    assert_eq!(a2, Action::Abort(EnergyError::Device));
}

#[test]
fn accelerator_recovers_after_one_failure() {
    let (s1, _) = started().step(tick(true, 5_000, Ok(cpu(1_600_000)), None));
    let (s2, a2) = s1.step(tick(true, 5_000, Ok(cpu(2_200_000)), Some(1_100)));
    assert_eq!(s2.phase, Phase::Sampling);
    assert!(!s2.gpu_failed);
    assert_eq!(s2.iteration, 2);
    match a2 {
        Action::Append(r) => {
            assert_eq!(r.id, 2);
            assert_eq!(r.gpu_energy, 500_000);
        }
        other => panic!("unexpected action {:?}", other),
    }
}
