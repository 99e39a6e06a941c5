//! The per-core request dispatcher: a deterministic arrival grid with a
//! tenant distribution on top.
//!
//! The `k`-th arrival is due at time `k * rate_inv` cycles; an arrival is
//! produced whenever the core's clock has reached the next grid point and
//! the arrival budget is not exhausted.

use vstd::prelude::*;

use rand::rngs::SmallRng;

use crate::config::{Config, ConfigError, Distribution};
use crate::cycles;
use crate::sampling;

verus! {

/// Largest admissible arrival budget; keeps every arrival-related count
/// well inside the 64-bit range.
pub const REQS_MAX: u64 = 1_152_921_504_606_846_976;

/// Largest admissible arrival-grid horizon, in cycles; keeps the idle
/// fast-forward target well inside the 64-bit cycle counter.
pub const HORIZON_CAP: u64 = 4_611_686_018_427_387_904;

/// Whether an arrival grid with this rate and budget fits the caps:
/// the budget is within `REQS_MAX` and the last grid point within
/// `HORIZON_CAP`.
pub open spec fn spec_horizon_ok(req_rate: u64, num_reqs: u64) -> bool
    recommends
        req_rate >= 1,
{
    &&& num_reqs <= REQS_MAX
    &&& (num_reqs + 2) * (crate::cycles::CYCLES_PER_SECOND as int / req_rate as int) <= HORIZON_CAP
}

/// How the tenant of an arrival is drawn.
pub enum TenantSampler {
    /// Every tenant of the core's range equally likely.
    Uniform,
    /// Tenant ranks drawn from a Zipf distribution over the range size.
    Zipf(zipf::ZipfDistribution),
}

/// A per-core arrival generator.
pub struct Dispatch {
    /// Total number of arrivals to admit (one more is admitted, as the
    /// grid starts at `sent == 0`).
    pub num_requests: u64,
    /// The number of arrivals produced so far.
    pub sent: u64,
    /// Cycles between two grid points: the inverse of the arrival rate.
    pub rate_inv: u64,
    /// The cycle count at which the next arrival is due.
    pub next: u64,
    /// First tenant id of the core's range.
    pub low: u16,
    /// One past the last tenant id of the core's range.
    pub high: u16,
    /// Which tenant distribution is in use.
    pub distribution: Distribution,
    /// The sampler matching `distribution`.
    pub sampler: TenantSampler,
    /// The deterministic random number generator.
    pub rng: SmallRng,
}

impl Dispatch {
    /// The arrival grid is consistent: the next due time sits on the
    /// grid, the budget and horizon fit comfortably in 64 bits, the
    /// tenant range is non-empty, and the sampler matches the
    /// configured distribution.
    pub open spec fn wf(self) -> bool {
        &&& self.next == self.sent * self.rate_inv
        &&& self.sent <= self.num_requests + 1
        &&& self.num_requests <= REQS_MAX
        &&& (self.num_requests + 2) * self.rate_inv <= HORIZON_CAP
        &&& self.low < self.high
        &&& (self.distribution == Distribution::Zipf <==> self.sampler is Zipf)
    }

    /// No arrival is ever due later than this cycle count.
    pub open spec fn horizon(self) -> int {
        (self.num_requests + 1) * self.rate_inv
    }

    /// Whether a call at time `curr` produces an arrival: budget not
    /// exhausted, and the clock has reached the next grid point (the
    /// very first arrival is always due).
    pub open spec fn spec_fires(self, curr: u64) -> bool {
        self.sent <= self.num_requests && (curr >= self.next || self.next == 0)
    }

    /// Build the dispatcher for the tenant range `[low, high)` of one
    /// core, seeded with `seed`.
    ///
    /// Configuration errors are reported exactly: a zero request rate, a
    /// budget or horizon beyond the caps, an empty tenant range, and a
    /// skew the Zipf distribution refuses.
    pub fn new(config: &Config, low: u16, high: u16, seed: u64) -> (r: Result<Dispatch, ConfigError>)
        ensures
            config.req_rate == 0 ==> r == Err::<Dispatch, _>(ConfigError::ZeroRequestRate),
            config.req_rate >= 1 ==> {
                let rate_inv = cycles::CYCLES_PER_SECOND as int / config.req_rate as int;
                let bad_horizon = !spec_horizon_ok(config.req_rate, config.num_reqs);
                &&& bad_horizon ==> r == Err::<Dispatch, _>(ConfigError::HorizonOverflow)
                &&& !bad_horizon && low >= high ==> r == Err::<Dispatch, _>(
                    ConfigError::BadTenantCount,
                )
                &&& !bad_horizon && low < high && config.distribution == Distribution::Uniform
                    ==> r is Ok
                &&& !bad_horizon && low < high && !(r is Ok) ==> r == Err::<Dispatch, _>(
                    ConfigError::BadSkew,
                )
                &&& !bad_horizon && low < high && config.distribution == Distribution::Zipf ==> (
                (r is Ok) <==> crate::sampling::spec_skew_ok(config.tenant_skew@))
                &&& r matches Ok(d) ==> {
                    &&& d.wf()
                    &&& d.num_requests == config.num_reqs
                    &&& d.sent == 0
                    &&& d.rate_inv == rate_inv
                    &&& d.next == 0
                    &&& d.low == low
                    &&& d.high == high
                    &&& d.distribution == config.distribution
                }
            },
    {
        if config.req_rate == 0 {
            return Err(ConfigError::ZeroRequestRate);
        }
        let rate_inv = cycles::cycles_per_second() / config.req_rate;
        if config.num_reqs > REQS_MAX {
            return Err(ConfigError::HorizonOverflow);
        }
        proof {
            assert((config.num_reqs + 2) * rate_inv <= u128::MAX) by (nonlinear_arith)
                requires
                    config.num_reqs <= REQS_MAX,
                    rate_inv <= u64::MAX,
            ;
        }
        if (config.num_reqs as u128 + 2) * (rate_inv as u128) > HORIZON_CAP as u128 {
            return Err(ConfigError::HorizonOverflow);
        }
        if low >= high {
            return Err(ConfigError::BadTenantCount);
        }
        let sampler = match config.distribution {
            Distribution::Uniform => TenantSampler::Uniform,
            Distribution::Zipf => {
                match sampling::zipf_new((high - low) as usize, config.tenant_skew.as_str()) {
                    Some(z) => TenantSampler::Zipf(z),
                    None => {
                        return Err(ConfigError::BadSkew);
                    },
                }
            },
        };
        Ok(
            Dispatch {
                num_requests: config.num_reqs,
                sent: 0,
                rate_inv,
                next: 0,
                low,
                high,
                distribution: config.distribution,
                sampler,
                rng: sampling::rng_from_seed(seed),
            },
        )
    }

    /// Produce the next arrival, if one is due at time `curr`.
    ///
    /// When the grid fires, the arrival counter and the next due time
    /// advance, and a tenant is drawn: under the uniform distribution an
    /// id inside `[low, high)`, under Zipf a rank of at least 1 (which
    /// the core maps into its range and bounds-checks).  Otherwise
    /// nothing changes and `None` comes back.
    pub fn generate_request(&mut self, curr: u64) -> (r: Option<u16>)
        requires
            old(self).wf(),
        ensures
            final(self).wf(),
            !old(self).spec_fires(curr) ==> r is None && *final(self) == *old(self),
            old(self).spec_fires(curr) ==> {
                &&& final(self).sent == old(self).sent + 1
                &&& final(self).next == (old(self).sent + 1) * old(self).rate_inv
                &&& final(self).num_requests == old(self).num_requests
                &&& final(self).rate_inv == old(self).rate_inv
                &&& final(self).low == old(self).low
                &&& final(self).high == old(self).high
                &&& final(self).distribution == old(self).distribution
                &&& r is Some
                &&& (old(self).distribution == Distribution::Uniform ==> old(self).low
                    <= r.unwrap() < old(self).high)
                &&& (old(self).distribution == Distribution::Zipf ==> r.unwrap() >= 1)
            },
    {
        if self.sent <= self.num_requests && (curr >= self.next || self.next == 0) {
            self.sent = self.sent + 1;
            proof {
                assert(self.sent * self.rate_inv <= (self.num_requests + 2) * self.rate_inv)
                    by (nonlinear_arith)
                    requires
                        self.sent <= self.num_requests + 2,
                        self.rate_inv >= 0,
                ;
            }
            self.next = self.sent * self.rate_inv;
            match &self.sampler {
                TenantSampler::Uniform => {
                    let t = sampling::gen_range_u64(&mut self.rng, self.low as u64, self.high as u64);
                    Some(t as u16)
                },
                TenantSampler::Zipf(dist) => {
                    let s = sampling::zipf_sample(dist, &mut self.rng);
                    if s > u16::MAX as usize {
                        Some(u16::MAX)
                    } else {
                        Some(s as u16)
                    }
                },
            }
        } else {
            None
        }
    }

    /// The cycle count at which the next arrival is due; cores use it to
    /// fast-forward their clock through idle periods.
    pub fn get_next(&self) -> (r: u64)
        ensures
            r == self.next,
    {
        self.next
    }
}

} // verus!
