//! A discrete-event, multi-tenant CPU scheduling simulator.
//!
//! The simulator models how hardware and software isolation mechanisms
//! (none, page tables, memory-protection keys, VM functions) affect the
//! throughput and tail latency of a microsecond-scale request-dispatch
//! system.  Each simulated core owns a deterministic arrival generator, a
//! set of tenants with per-tenant run queues, and a virtual cycle counter
//! that is charged for service time, context switches and preemptions.

/// Configuration of the UDP echo client.
pub mod client_config;

/// Typed simulation configuration and its validation errors.
pub mod config;

/// Configuration of the userspace-NIC client, with MAC parsing.
pub mod fast_client_config;

/// The constants of the cost model.
pub mod consts;

/// Cycle-count bookkeeping at an assumed fixed clock frequency.
pub mod cycles;

/// The simulated cores and the simulator facade.
pub mod cores;

/// Per-core arrival generation.
pub mod dispatcher;

/// The size-aware scheduling policy.
pub mod minos_sched;

/// Trusted wrappers around the random-number crates.
pub mod sampling;

/// The multi-queue scheduling policy.
pub mod mq_sched;

/// Tenant requests and their per-quantum execution.
pub mod request;

/// The round-robin scheduling policy.
pub mod rr_sched;

/// The tagged scheduling-policy type shared by all tenants.
pub mod sched;

/// Latency statistics: verified sorting, median and tail.
pub mod stats;

/// Tenants and their run queues.
pub mod tenant;
