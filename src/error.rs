//! Failures of the accounting engine.
use vstd::prelude::*;

verus! {

/// What can go wrong while discovering, reading and attributing counters.
#[derive(Clone, Copy, Debug, PartialEq, Eq, Structural)]
pub enum EnergyError {
    /// The platform's counter tree is missing or unreadable, or describes a
    /// counter in a form that cannot be read; fatal at startup.
    Discovery,
    /// A counter that was open became unreadable during the run; fatal.
    Io,
    /// The accelerator could not be queried; recoverable for one interval.
    Device,
    /// Two counter snapshots do not describe the same counters; a
    /// programming or configuration error.
    AttributionInvariant,
}

} // verus!
