//! Per-process energy accounting: hardware energy counters are sampled at a
//! fixed cadence and their movement is attributed to one monitored process.
//!
//! Quantities are integers throughout: energy in µJ (CPU-side counters) or mJ
//! (accelerator), time in µs, power in µW, and utilization shares in
//! hundredths of a percent.

pub mod attribution;
pub mod decimal;
pub mod error;
pub mod exporter;
pub mod gpu;
pub mod rapl;
pub mod record;
pub mod render;
pub mod scheduler;
pub mod text;
