use ecocode::gpu::{get_gpu_energy_by_pid, GpuAttribution, ProcessUtilizationSample};

fn sample(pid: u32, timestamp: u64, sm_util: u32) -> ProcessUtilizationSample {
    ProcessUtilizationSample { pid, timestamp, sm_util }
}

#[test]
fn reset_counter_uses_post_reset_value() {
    let samples = Some(vec![sample(7, 10, 100)]);
    let g = get_gpu_energy_by_pid(7, 100, 80, 0, 1_000_000, &samples);
    assert_eq!(g.power, 80_000);
    assert_eq!(g.usage, 10_000);
    let g2 = get_gpu_energy_by_pid(7, 100, 80, 0, 2_000_000, &samples);
    assert_eq!(g2.power, 40_000);
}

#[test]
fn share_is_mean_utilization_of_the_process() {
    let samples = Some(vec![sample(7, 10, 20), sample(8, 11, 90), sample(7, 12, 60)]);
    let g = get_gpu_energy_by_pid(7, 1_000, 2_000, 0, 1_000_000, &samples);
    // 1 J over 1 s, mean utilization 40%
    assert_eq!(g.usage, 4_000);
    assert_eq!(g.power, 400_000);
    assert_eq!(g.next_cursor, 12);
}

#[test]
fn no_samples_of_the_process_gives_zero() {
    let samples = Some(vec![sample(8, 50, 90)]);
    let g = get_gpu_energy_by_pid(7, 1_000, 2_000, 5, 1_000_000, &samples);
    assert_eq!(g, GpuAttribution { power: 0, usage: 0, next_cursor: 50 });
}

#[test]
fn failed_fetch_echoes_the_cursor() {
    let g = get_gpu_energy_by_pid(7, 1_000, 2_000, 42, 1_000_000, &None);
    assert_eq!(g, GpuAttribution { power: 0, usage: 0, next_cursor: 42 });
}

#[test]
fn cursor_never_moves_back_over_failures() {
    let mut cursor = 0;
    let fetches = vec![
        Some(vec![sample(7, 100, 50), sample(7, 200, 50)]),
        None,
        Some(vec![sample(7, 150, 50)]),
        Some(Vec::new()),
        Some(vec![sample(7, 300, 50)]),
    ];
    let mut seen = Vec::new();
    for f in fetches.iter() {
        let g = get_gpu_energy_by_pid(7, 0, 10, cursor, 1_000_000, f);
        assert!(g.next_cursor >= cursor);
        seen.push(g.next_cursor);
        cursor = g.next_cursor;
    }
    assert_eq!(seen, vec![200, 200, 200, 200, 300]);
}

#[test]
fn samples_older_than_the_cursor_are_not_counted_again() {
    let first = Some(vec![sample(7, 100, 100), sample(7, 200, 0)]);
    let g1 = get_gpu_energy_by_pid(7, 0, 1_000, 0, 1_000_000, &first);
    assert_eq!(g1.usage, 5_000);
    // the driver hands back the old sample at 100 again: it is ignored
    let second = Some(vec![sample(7, 100, 100), sample(7, 250, 0)]);
    let g2 = get_gpu_energy_by_pid(7, 0, 1_000, g1.next_cursor, 1_000_000, &second);
    assert_eq!(g2.usage, 0);
    assert_eq!(g2.next_cursor, 250);
}

#[test]
fn utilization_above_full_is_bounded() {
    let samples = Some(vec![sample(7, 1, 250)]);
    let g = get_gpu_energy_by_pid(7, 0, 1_000, 0, 1_000_000, &samples);
    assert_eq!(g.usage, 10_000);
    assert_eq!(g.power, 1_000_000);
}
