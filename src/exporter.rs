//! The kinds of sink, and the metrics-scrape sink's state and text.
use vstd::prelude::*;
use vstd::string::*;
use crate::record::Record;
use crate::render::{fixed_point_text, fixed_text};
use crate::text::str_eq;

verus! {

/// The output backends a run can be configured with.
#[derive(Clone, Copy, Debug, PartialEq, Eq, Structural)]
pub enum ExporterType {
    Terminal,
    Csv,
    Json,
    Local,
    Online,
    Prometheus,
}

/// The backend named by an (already lower-cased) output option; an unknown
/// name falls back to the terminal.
pub open spec fn exporter_type_named(name: Seq<char>) -> ExporterType {
    if name == "csv"@ {
        ExporterType::Csv
    } else if name == "json"@ {
        ExporterType::Json
    } else if name == "local"@ {
        ExporterType::Local
    } else if name == "online"@ {
        ExporterType::Online
    } else if name == "prometheus"@ {
        ExporterType::Prometheus
    } else {
        ExporterType::Terminal
    }
}

/// Picks the backend for an output option.
pub fn exporter_type_of(name: &str) -> (r: ExporterType)
    ensures
        r == exporter_type_named(name@),
{
    if str_eq(name, "csv") {
        ExporterType::Csv
    } else if str_eq(name, "json") {
        ExporterType::Json
    } else if str_eq(name, "local") {
        ExporterType::Local
    } else if str_eq(name, "online") {
        ExporterType::Online
    } else if str_eq(name, "prometheus") {
        ExporterType::Prometheus
    } else {
        ExporterType::Terminal
    }
}

/// How often the read-side service polls the database's version counter
/// for new records, in ms.
pub const DB_POLL_INTERVAL_MS: u64 = 500;

/// The version counter written after inserting the record with row id
/// `rowid`: the row id, clamped to the counter's `i32` range.
pub fn user_version_for_row(rowid: i64) -> (v: i32)
    ensures
        v == (if rowid < i32::MIN {
            i32::MIN as int
        } else if rowid > i32::MAX {
            i32::MAX as int
        } else {
            rowid as int
        }),
{
    if rowid < i32::MIN as i64 {
        i32::MIN
    } else if rowid > i32::MAX as i64 {
        i32::MAX
    } else {
        rowid as i32
    }
}

/// The read side's view of the version counter: the last version it has
/// acted on.
#[derive(Clone, Copy, Debug, PartialEq, Eq, Structural)]
pub struct VersionWatch {
    pub last_version: i32,
}

impl VersionWatch {
    /// Starts from the version found when the service comes up.
    pub fn new(initial: i32) -> (r: VersionWatch)
        ensures
            r.last_version == initial,
    {
        VersionWatch { last_version: initial }
    }

    /// Takes in one poll of the version counter; true when it moved forward,
    /// meaning new records are to be fetched and pushed to listeners.
    pub fn observe(&mut self, current: i32) -> (changed: bool)
        ensures
            changed == (current > old(self).last_version),
            final(self).last_version == (if changed {
                current
            } else {
                old(self).last_version
            }),
    {
        if current > self.last_version {
            self.last_version = current;
            true
        } else {
            false
        }
    }
}

/// The latest value of each gauge served on the metrics endpoint: usage in
/// hundredths of a percent, power in µW.
#[derive(Clone, Copy, Debug, PartialEq, Eq, Structural)]
pub struct PrometheusExporter {
    pub cpu_usage: u32,
    pub cpu_energy: u128,
    pub gpu_usage: u32,
    pub gpu_energy: u128,
    pub mem_usage: u32,
    pub mem_energy: u128,
    pub igpu_usage: u32,
    pub igpu_energy: u128,
}

/// One gauge in the text exposition format: help line, type line, sample.
pub open spec fn gauge_text(name: Seq<char>, help: Seq<char>, value: Seq<char>) -> Seq<char> {
    "# HELP "@ + name + " "@ + help + "\n# TYPE "@ + name + " gauge\n"@ + name + " "@ + value
        + "\n"@
}

/// The exposition of all gauges, in name order; usage is written in percent
/// with two decimals, power in watts with six.
pub open spec fn metrics_text(p: PrometheusExporter) -> Seq<char> {
    gauge_text(
        "ecocode_cpu_energy_watts"@,
        "CPU energy consumption in Watts"@,
        fixed_text(p.cpu_energy as nat, 6),
    ) + gauge_text("ecocode_cpu_usage"@, "CPU usage percentage"@, fixed_text(p.cpu_usage as nat, 2))
        + gauge_text(
        "ecocode_gpu_energy_watts"@,
        "GPU energy consumption in Watts"@,
        fixed_text(p.gpu_energy as nat, 6),
    ) + gauge_text("ecocode_gpu_usage"@, "GPU usage percentage"@, fixed_text(p.gpu_usage as nat, 2))
        + gauge_text(
        "ecocode_igpu_energy_watts"@,
        "IGPU energy consumption in Watts"@,
        fixed_text(p.igpu_energy as nat, 6),
    ) + gauge_text(
        "ecocode_igpu_usage"@,
        "IGPU usage percentage"@,
        fixed_text(p.igpu_usage as nat, 2),
    ) + gauge_text(
        "ecocode_mem_energy_watts"@,
        "Memory energy consumption in Watts"@,
        fixed_text(p.mem_energy as nat, 6),
    ) + gauge_text(
        "ecocode_mem_usage"@,
        "Memory usage percentage"@,
        fixed_text(p.mem_usage as nat, 2),
    )
}

fn push_gauge(out: &mut String, name: &str, help: &str, value: &String)
    ensures
        final(out)@ == old(out)@ + gauge_text(name@, help@, value@),
{
    out.append("# HELP ");
    out.append(name);
    out.append(" ");
    out.append(help);
    out.append("\n# TYPE ");
    out.append(name);
    out.append(" gauge\n");
    out.append(name);
    out.append(" ");
    out.append(value.as_str());
    out.append("\n");
    assert(final(out)@ =~= old(out)@ + gauge_text(name@, help@, value@));
}

impl PrometheusExporter {
    /// All gauges at zero.
    pub fn new() -> (r: PrometheusExporter)
        ensures
            r == (PrometheusExporter {
                cpu_usage: 0,
                cpu_energy: 0,
                gpu_usage: 0,
                gpu_energy: 0,
                mem_usage: 0,
                mem_energy: 0,
                igpu_usage: 0,
                igpu_energy: 0,
            }),
    {
        PrometheusExporter {
            cpu_usage: 0,
            cpu_energy: 0,
            gpu_usage: 0,
            gpu_energy: 0,
            mem_usage: 0,
            mem_energy: 0,
            igpu_usage: 0,
            igpu_energy: 0,
        }
    }

    pub fn exporter_type(&self) -> (r: ExporterType)
        ensures
            r == ExporterType::Prometheus,
    {
        ExporterType::Prometheus
    }

    /// Sets every gauge to the record's value.
    pub fn add_record(&mut self, record: &Record)
        ensures
            *final(self) == (PrometheusExporter {
                cpu_usage: record.cpu_usage,
                cpu_energy: record.cpu_energy,
                gpu_usage: record.gpu_usage,
                gpu_energy: record.gpu_energy,
                mem_usage: record.mem_usage,
                mem_energy: record.mem_energy,
                igpu_usage: record.igpu_usage,
                igpu_energy: record.igpu_energy,
            }),
    {
        self.cpu_usage = record.cpu_usage;
        self.cpu_energy = record.cpu_energy;
        self.gpu_usage = record.gpu_usage;
        self.gpu_energy = record.gpu_energy;
        self.mem_usage = record.mem_usage;
        self.mem_energy = record.mem_energy;
        self.igpu_usage = record.igpu_usage;
        self.igpu_energy = record.igpu_energy;
    }
}

/// The gauges in the text exposition format served to scrapers.
pub fn encode_metrics(exporter: &PrometheusExporter) -> (r: String)
    ensures
        r@ == metrics_text(*exporter),
{
    let mut out = String::new();
    push_gauge(
        &mut out,
        "ecocode_cpu_energy_watts",
        "CPU energy consumption in Watts",
        &fixed_point_text(exporter.cpu_energy, 6),
    );
    push_gauge(
        &mut out,
        "ecocode_cpu_usage",
        "CPU usage percentage",
        &fixed_point_text(exporter.cpu_usage as u128, 2),
    );
    push_gauge(
        &mut out,
        "ecocode_gpu_energy_watts",
        "GPU energy consumption in Watts",
        &fixed_point_text(exporter.gpu_energy, 6),
    );
    push_gauge(
        &mut out,
        "ecocode_gpu_usage",
        "GPU usage percentage",
        &fixed_point_text(exporter.gpu_usage as u128, 2),
    );
    push_gauge(
        &mut out,
        "ecocode_igpu_energy_watts",
        "IGPU energy consumption in Watts",
        &fixed_point_text(exporter.igpu_energy, 6),
    );
    push_gauge(
        &mut out,
        "ecocode_igpu_usage",
        "IGPU usage percentage",
        &fixed_point_text(exporter.igpu_usage as u128, 2),
    );
    push_gauge(
        &mut out,
        "ecocode_mem_energy_watts",
        "Memory energy consumption in Watts",
        &fixed_point_text(exporter.mem_energy, 6),
    );
    push_gauge(
        &mut out,
        "ecocode_mem_usage",
        "Memory usage percentage",
        &fixed_point_text(exporter.mem_usage as u128, 2),
    );
    assert(out@ =~= metrics_text(*exporter));
    out
}

} // verus!
