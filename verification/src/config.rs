//! Typed simulation configuration.
//!
//! Reading the configuration file is input plumbing and happens outside
//! this crate; the simulator itself is handed this already-typed value and
//! validates it on construction.

use vstd::prelude::*;

verus! {

/// The isolation mechanism charged for switching between tenants.
#[derive(Clone, Copy, Debug, PartialEq, Eq, Structural)]
pub enum Isolation {
    /// No protection-context change: switches are free.
    NoIsolation,
    /// A full page-table switch on every tenant change.
    PageTableIsolation,
    /// Memory-protection keys: cheap switches inside an MPK domain.
    MpkIsolation,
    /// VMFunc EPT switching: cheap switches inside a VMFunc domain.
    VmfuncIsolation,
}

/// How arriving requests are spread over a core's tenants.
#[derive(Clone, Copy, Debug, PartialEq, Eq, Structural)]
pub enum Distribution {
    /// Skewed: tenant ranks drawn from a Zipf distribution.
    Zipf,
    /// Every tenant of the core equally likely.
    Uniform,
}

/// The simulation parameters.
///
/// The Zipf exponent `tenant_skew` is carried as text and handed to the
/// distribution constructor unparsed: the simulator never computes with
/// it, and this crate keeps no fractional numbers of its own.
pub struct Config {
    /// Number of simulated cores.
    pub max_cores: u64,
    /// Total tenants, partitioned across the cores.
    pub num_tenants: u64,
    /// Zipf exponent for picking the tenant of a new request, as text
    /// (for example "1.1"); ignored under the uniform distribution.
    pub tenant_skew: String,
    /// Arrivals to admit per core.
    pub num_reqs: u64,
    /// Per-core completion count at which the simulation stops.
    pub num_resps: u64,
    /// Target arrivals per second per core.
    pub req_rate: u64,
    /// If true each tenant runs up to `BATCH_SIZE` tasks per round,
    /// otherwise one.
    pub batching: bool,
    /// The tenant-switch cost model.
    pub isolation: Isolation,
    /// The tenant distribution of new arrivals.
    pub distribution: Distribution,
    /// Seed for the deterministic random number generators.
    pub rng_seed: u64,
}

/// Why a configuration was rejected at startup.
#[derive(Clone, Copy, Debug, PartialEq, Eq, Structural)]
pub enum ConfigError {
    /// `max_cores` is zero or exceeds the 8-bit core-id space.
    BadCoreCount,
    /// Fewer tenants than cores, or more tenants than the 16-bit
    /// tenant-id space can hold.
    BadTenantCount,
    /// `req_rate` is zero, so no arrival grid exists.
    ZeroRequestRate,
    /// The arrival grid `num_reqs x (cycles per request)` does not fit in
    /// the 64-bit cycle counter.
    HorizonOverflow,
    /// The Zipf tenant distribution rejected the skew parameter.
    BadSkew,
}

} // verus!
