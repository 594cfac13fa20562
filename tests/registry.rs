use ecocode::error::EnergyError;
use ecocode::rapl::{
    delta_cpu_energy_per_pid_w, domain_of_label, domain_totals, get_all_energies, get_energy,
    is_domain_dir, scan_rapl_files, socket_of_dir, Domain, RaplCandidate, RaplEnergy, RaplFile,
};

fn candidate(socket: u16, label: &str, max: &str) -> RaplCandidate {
    RaplCandidate {
        socket,
        label: label.to_string(),
        max_energy_text: max.to_string(),
    }
}

fn reading(socket: u16, domain: Domain, name: &str, energy: u64, max: u64) -> RaplEnergy {
    RaplEnergy {
        socket,
        domain,
        name: name.to_string(),
        energy,
        max_energy: max,
    }
}

#[test]
fn socket_directories_are_recognised() {
    assert_eq!(socket_of_dir("intel-rapl:0"), Ok(Some(0)));
    assert_eq!(socket_of_dir("intel-rapl:12"), Ok(Some(12)));
    assert_eq!(socket_of_dir("intel-rapl:0:1"), Ok(None));
    assert_eq!(socket_of_dir("intel-rapl:"), Ok(None));
    assert_eq!(socket_of_dir("intel-rapl-mmio:0"), Ok(None));
    assert_eq!(socket_of_dir("enabled"), Ok(None));
    assert_eq!(socket_of_dir("intel-rapl:70000"), Err(EnergyError::Discovery));
}

#[test]
fn domain_directories_are_recognised() {
    assert!(is_domain_dir("intel-rapl:0:0"));
    assert!(is_domain_dir("intel-rapl:1:12"));
    assert!(!is_domain_dir("intel-rapl:0"));
    assert!(!is_domain_dir("intel-rapl:0:"));
    assert!(!is_domain_dir("intel-rapl::1"));
    assert!(!is_domain_dir("intel-rapl:0:1:2"));
    assert!(!is_domain_dir("energy_uj"));
}

#[test]
fn driver_labels_map_to_domains() {
    assert_eq!(domain_of_label("core\n"), (Domain::Cpu, "cpu".to_string()));
    assert_eq!(domain_of_label("dram"), (Domain::Dram, "dram".to_string()));
    assert_eq!(domain_of_label(" uncore\n"), (Domain::Igpu, "igpu".to_string()));
    assert_eq!(domain_of_label("psys\n"), (Domain::Unknown, "psys".to_string()));
}

#[test]
fn registry_is_sorted_by_name_keeping_discovery_order() {
    let cands = vec![
        candidate(0, "uncore\n", "262143328850\n"),
        candidate(0, "core\n", "100\n"),
        candidate(1, "core\n", "200\n"),
        candidate(0, "dram\n", "300\n"),
    ];
    let files = scan_rapl_files(&cands).unwrap();
    let names: Vec<&str> = files.iter().map(|f| f.name.as_str()).collect();
    assert_eq!(names, vec!["cpu", "cpu", "dram", "igpu"]);
    let sources: Vec<usize> = files.iter().map(|f| f.source).collect();
    assert_eq!(sources, vec![1, 2, 3, 0]);
    assert_eq!(files[1].socket, 1);
    assert_eq!(files[3].max_energy, 262_143_328_850);
    assert_eq!(files[3].domain, Domain::Igpu);
}

#[test]
fn unreadable_range_fails_discovery() {
    let cands = vec![candidate(0, "core", "100"), candidate(0, "dram", "n/a")];
    assert_eq!(scan_rapl_files(&cands), Err(EnergyError::Discovery));
}

#[test]
fn empty_tree_gives_empty_registry() {
    let files = scan_rapl_files(&Vec::new()).unwrap();
    assert!(files.is_empty());
}

#[test]
fn counter_text_is_read() {
    assert_eq!(get_energy("123456\n"), Ok(123_456));
    assert_eq!(get_energy("18446744073709551615"), Ok(u64::MAX));
    assert_eq!(get_energy("18446744073709551616"), Err(EnergyError::Io));
    assert_eq!(get_energy("12a"), Err(EnergyError::Io));
    assert_eq!(get_energy(""), Err(EnergyError::Io));
}

fn two_files() -> Vec<RaplFile> {
    scan_rapl_files(&vec![candidate(0, "core", "1000"), candidate(0, "dram", "2000")]).unwrap()
}

#[test]
fn snapshot_reads_every_counter() {
    let files = two_files();
    let texts = vec![Some("10\n".to_string()), Some("20\n".to_string())];
    let snap = get_all_energies(&files, &texts).unwrap();
    assert_eq!(snap[0], reading(0, Domain::Cpu, "cpu", 10, 1000));
    assert_eq!(snap[1], reading(0, Domain::Dram, "dram", 20, 2000));
}

#[test]
fn one_unreadable_counter_fails_the_batch() {
    let files = two_files();
    assert_eq!(
        get_all_energies(&files, &vec![Some("10".to_string()), None]),
        Err(EnergyError::Io)
    );
    assert_eq!(
        get_all_energies(&files, &vec![Some("x".to_string()), Some("1".to_string())]),
        Err(EnergyError::Io)
    );
}

#[test]
fn deltas_are_attributed_per_domain() {
    let e1 = vec![
        reading(0, Domain::Cpu, "cpu", 1_000_000, u64::MAX),
        reading(0, Domain::Dram, "dram", 900, 1_000),
        reading(0, Domain::Unknown, "psys", 0, 1_000),
    ];
    let e2 = vec![
        reading(0, Domain::Cpu, "cpu", 1_600_000, u64::MAX),
        reading(0, Domain::Dram, "dram", 100, 1_000),
        reading(0, Domain::Unknown, "psys", 500, 1_000),
    ];
    let d = delta_cpu_energy_per_pid_w(&e1, &e2, 1_000_000, 5_000).unwrap();
    assert_eq!(d.len(), 3);
    assert_eq!(d[0].delta_energy, 300_000);
    // wrapped: (100 + 1000) - 900 = 200 µJ, at 50%
    assert_eq!(d[1].delta_energy, 100);
    assert_eq!(d[2].delta_energy, 250);
    let t = domain_totals(&d);
    assert_eq!((t.cpu, t.dram, t.igpu), (300_000, 100, 0));
}

#[test]
fn totals_sum_across_sockets() {
    let e1 = vec![
        reading(0, Domain::Cpu, "cpu", 0, u64::MAX),
        reading(1, Domain::Cpu, "cpu", 0, u64::MAX),
        reading(0, Domain::Igpu, "igpu", 0, u64::MAX),
    ];
    let e2 = vec![
        reading(0, Domain::Cpu, "cpu", 1_000, u64::MAX),
        reading(1, Domain::Cpu, "cpu", 3_000, u64::MAX),
        reading(0, Domain::Igpu, "igpu", 7, u64::MAX),
    ];
    let d = delta_cpu_energy_per_pid_w(&e1, &e2, 1_000_000, 10_000).unwrap();
    let t = domain_totals(&d);
    assert_eq!((t.cpu, t.dram, t.igpu), (4_000, 0, 7));
}

#[test]
fn mismatched_snapshots_are_an_invariant_error() {
    let e1 = vec![reading(0, Domain::Cpu, "cpu", 0, 10)];
    let e2: Vec<RaplEnergy> = Vec::new();
    assert_eq!(
        delta_cpu_energy_per_pid_w(&e1, &e2, 1_000_000, 5_000),
        Err(EnergyError::AttributionInvariant)
    );
    let e3 = vec![reading(0, Domain::Dram, "dram", 0, 10)];
    assert_eq!(
        delta_cpu_energy_per_pid_w(&e1, &e3, 1_000_000, 5_000),
        Err(EnergyError::AttributionInvariant)
    );
}

#[test]
fn empty_snapshots_give_no_deltas() {
    let e: Vec<RaplEnergy> = Vec::new();
    let d = delta_cpu_energy_per_pid_w(&e, &e, 1_000_000, 5_000).unwrap();
    assert!(d.is_empty());
    let t = domain_totals(&d);
    assert_eq!((t.cpu, t.dram, t.igpu), (0, 0, 0));
}
