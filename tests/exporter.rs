use ecocode::exporter::{
    encode_metrics, exporter_type_of, user_version_for_row, ExporterType, PrometheusExporter,
    VersionWatch,
};
use ecocode::record::Record;

#[test]
fn output_option_selects_backend() {
    assert_eq!(exporter_type_of("csv"), ExporterType::Csv);
    assert_eq!(exporter_type_of("json"), ExporterType::Json);
    assert_eq!(exporter_type_of("local"), ExporterType::Local);
    assert_eq!(exporter_type_of("online"), ExporterType::Online);
    assert_eq!(exporter_type_of("prometheus"), ExporterType::Prometheus);
    assert_eq!(exporter_type_of("terminal"), ExporterType::Terminal);
    assert_eq!(exporter_type_of("xml"), ExporterType::Terminal);
}

#[test]
fn gauges_follow_the_latest_record() {
    let mut p = PrometheusExporter::new();
    assert_eq!(p.exporter_type(), ExporterType::Prometheus);
    let r = Record::new(
        1,
        0,
        9,
        "t".to_string(),
        5_000,
        300_000,
        2_500,
        80_000,
        Some(100),
        Some(1),
        Some(0),
        Some(2),
    );
    p.add_record(&r);
    assert_eq!(p.cpu_usage, 5_000);
    assert_eq!(p.gpu_energy, 80_000);
    let text = encode_metrics(&p);
    let expected = "# HELP ecocode_cpu_energy_watts CPU energy consumption in Watts\n\
# TYPE ecocode_cpu_energy_watts gauge\n\
ecocode_cpu_energy_watts 0.300000\n\
# HELP ecocode_cpu_usage CPU usage percentage\n\
# TYPE ecocode_cpu_usage gauge\n\
ecocode_cpu_usage 50.00\n\
# HELP ecocode_gpu_energy_watts GPU energy consumption in Watts\n\
# TYPE ecocode_gpu_energy_watts gauge\n\
ecocode_gpu_energy_watts 0.080000\n\
# HELP ecocode_gpu_usage GPU usage percentage\n\
# TYPE ecocode_gpu_usage gauge\n\
ecocode_gpu_usage 25.00\n\
# HELP ecocode_igpu_energy_watts IGPU energy consumption in Watts\n\
# TYPE ecocode_igpu_energy_watts gauge\n\
ecocode_igpu_energy_watts 0.000002\n\
# HELP ecocode_igpu_usage IGPU usage percentage\n\
# TYPE ecocode_igpu_usage gauge\n\
ecocode_igpu_usage 0.00\n\
# HELP ecocode_mem_energy_watts Memory energy consumption in Watts\n\
# TYPE ecocode_mem_energy_watts gauge\n\
ecocode_mem_energy_watts 0.000001\n\
# HELP ecocode_mem_usage Memory usage percentage\n\
# TYPE ecocode_mem_usage gauge\n\
ecocode_mem_usage 1.00\n";
    assert_eq!(text, expected);
}

#[test]
fn fresh_exporter_reports_zero() {
    let text = encode_metrics(&PrometheusExporter::new());
    assert!(text.contains("ecocode_cpu_usage 0.00\n"));
    assert!(text.contains("ecocode_gpu_energy_watts 0.000000\n"));
}

#[test]
fn version_counter_is_clamped() {
    assert_eq!(user_version_for_row(17), 17);
    assert_eq!(user_version_for_row(i64::MAX), i32::MAX);
    assert_eq!(user_version_for_row(i64::MIN), i32::MIN);
}

#[test]
fn version_watch_reports_only_forward_moves() {
    let mut w = VersionWatch::new(5);
    assert!(!w.observe(5));
    assert!(!w.observe(3));
    assert_eq!(w.last_version, 5);
    assert!(w.observe(8));
    assert_eq!(w.last_version, 8);
}
