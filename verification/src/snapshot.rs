//! System metrics for the dashboard.

use vstd::prelude::*;

verus! {

/// A point-in-time sample of system load.
#[derive(Debug, Clone, Copy, PartialEq, Eq, Structural)]
pub struct Metrics {
    /// Percent of physical memory in use (0-100).
    pub memory_load_percent: u32,
    pub total_physical_bytes: u64,
    pub available_physical_bytes: u64,
}

impl Default for Metrics {
    /// Nothing known: all zero.
    fn default() -> (m: Self)
        ensures
            m == (Metrics {
                memory_load_percent: 0,
                total_physical_bytes: 0,
                available_physical_bytes: 0,
            }),
    {
        Metrics { memory_load_percent: 0, total_physical_bytes: 0, available_physical_bytes: 0 }
    }
}

/// A memory status as the system reports it.
#[derive(Debug, Clone, Copy, PartialEq, Eq, Structural)]
pub struct MemoryStatus {
    pub load_percent: u32,
    pub total_physical: u64,
    pub available_physical: u64,
}

/// The metrics of a memory status.
pub open spec fn metrics_of(status: Option<MemoryStatus>) -> Metrics {
    match status {
        Some(s) => Metrics {
            memory_load_percent: s.load_percent,
            total_physical_bytes: s.total_physical,
            available_physical_bytes: s.available_physical,
        },
        None => Metrics {
            memory_load_percent: 0,
            total_physical_bytes: 0,
            available_physical_bytes: 0,
        },
    }
}

/// The metrics of a memory status; all zero where the system reports none.
pub fn sample(status: Option<MemoryStatus>) -> (m: Metrics)
    ensures
        m == match status {
            Some(s) => Metrics {
                memory_load_percent: s.load_percent,
                total_physical_bytes: s.total_physical,
                available_physical_bytes: s.available_physical,
            },
            None => Metrics {
                memory_load_percent: 0,
                total_physical_bytes: 0,
                available_physical_bytes: 0,
            },
        },
        m == metrics_of(status),
{
    match status {
        Some(s) => Metrics {
            memory_load_percent: s.load_percent,
            total_physical_bytes: s.total_physical,
            available_physical_bytes: s.available_physical,
        },
        None => Metrics::default(),
    }
}

/// The metrics are what the system reports, each figure as it is; nothing reported counts
/// as a status of zeros.
pub proof fn law_metrics_are_as_reported(s: MemoryStatus)
    ensures
        metrics_of(Some(s)).memory_load_percent == s.load_percent,
        metrics_of(Some(s)).total_physical_bytes == s.total_physical,
        metrics_of(Some(s)).available_physical_bytes == s.available_physical,
        s.load_percent == 0 && s.total_physical == 0 && s.available_physical == 0
            ==> metrics_of(None) == metrics_of(Some(s)),
{
}

} // verus!
