//! Constants used throughout the simulation.
//!
//! All switch and preemption costs are in CPU cycles at the assumed 3 GHz
//! clock; task service times are given both in microseconds and in cycles.

use vstd::prelude::*;

verus! {

/// Cycles charged for a tenant switch under no isolation.
pub const NOISOLATION_TENANT_SWITCH_CYCLES: u64 = 0;

/// Cycles charged for a full context switch under page-table isolation
/// (also the cross-domain cost under MPK and VMFunc isolation).
pub const PAGING_TENANT_SWITCH_CYCLES: u64 = 3500;

/// Cycles charged for an intra-domain switch under MPK isolation.
pub const MPK_TENANT_SWITCH_CYCLES: u64 = 250;

/// Cycles charged for an intra-domain switch under VMFunc isolation.
pub const VMFUNC_TENANT_SWITCH_CYCLES: u64 = 450;

/// Cycles charged to preempt a task at a quantum boundary, no isolation.
pub const NOISOLATION_PREEMPTION_OVERHEAD_CYCLES: u64 = 5600;

/// Cycles charged to preempt a task, page-table isolation.
pub const PAGING_PREEMPTION_OVERHEAD_CYCLES: u64 = 7800;

/// Cycles charged to preempt a task, MPK isolation.
pub const MPK_PREEMPTION_OVERHEAD_CYCLES: u64 = 5850;

/// Cycles charged to preempt a task, VMFunc isolation.
pub const VMFUNC_PREEMPTION_OVERHEAD_CYCLES: u64 = 2650;

/// Number of tasks a core runs per tenant per scheduling round when
/// batching is enabled.
pub const BATCH_SIZE: u64 = 8;

/// Scheduler time quantum, in microseconds.
pub const QUANTA_TIME: u64 = 5;

/// Scheduler time quantum, in cycles (five microseconds at 3 GHz).
pub const QUANTA_CYCLES: u64 = 15_000;

/// Service demand of a short task, in microseconds.
pub const SHORT_TASK_TIME: u64 = 1;

/// Service demand of a long task, in microseconds.
pub const LONG_TASK_TIME: u64 = 1000;

/// Service demand of a short task, in cycles (one microsecond at 3 GHz).
pub const SHORT_TASK_CYCLES: u64 = 3_000;

/// Service demand of a long task, in cycles (one millisecond at 3 GHz).
pub const LONG_TASK_CYCLES: u64 = 3_000_000;

/// Out of `TASK_WEIGHT_TOTAL` arrivals, this many are short tasks; the
/// rest are long.  (The 999 : 1 split matches a 99.9% / 0.1% mix.)
pub const SHORT_TASK_WEIGHT: u64 = 999;

/// The denominator of the task-size weighting.
pub const TASK_WEIGHT_TOTAL: u64 = 1000;

/// Tenants per MPK protection domain (15 protection keys usable).
pub const MPK_DOMAIN_SIZE: u16 = 15;

/// Tenants per VMFunc protection domain (512 EPT views).
pub const VMFUNC_DOMAIN_SIZE: u16 = 512;

} // verus!
