//! The simulated cores and the simulator that drives them.
//!
//! A core owns one dispatcher, the tenants of a contiguous id range, a
//! virtual cycle counter `rdtsc`, and counters for context switches, MPK
//! switches, VMFunc switches and preemptions.  Each scheduling round it
//! pulls arrivals from the dispatcher into the tenants' run queues, runs
//! the head of each queue for up to one quantum per batch slot, charges
//! the isolation-dependent switch costs, and records completions.

use vstd::prelude::*;

use rand::rngs::SmallRng;

use crate::config::{Config, ConfigError, Distribution, Isolation};
use crate::consts;
use crate::dispatcher::{Dispatch, HORIZON_CAP};
use crate::request::{preemption_overhead, spec_preemption_overhead, Request, TaskState};
use crate::rr_sched::RoundRobin;
use crate::sampling;
use crate::sched::SchedPolicy;
use crate::tenant::Tenant;

verus! {

/// Whether a core is sized for small or for large tasks; used by the
/// size-aware scheduling policy.
#[derive(Clone, Copy, Debug, PartialEq, Eq, Structural)]
pub enum CoreType {
    /// Serves only small tasks, to avoid head-of-line blocking.
    Small,
    /// Serves large tasks first, small ones when idle.
    Large,
}

/// An upper bound on the cycles one `process_request` call can charge:
/// a full context switch plus either a whole long task or a quantum with
/// its preemption overhead.
pub const PER_CALL_COST_BOUND: u64 = 3_100_000;

/// An upper bound on the `process_request` calls one scheduling round
/// can make: every possible tenant times the largest batch.
pub const MAX_CALLS_PER_RUN: u64 = 65_536 * 8;

/// An upper bound on the cycles one scheduling round can add to `rdtsc`
/// beyond the idle fast-forward target.
pub const RUN_COST_BOUND: u64 = 65_536 * 8 * 3_100_000;

/// The largest scheduling-round budget the simulator accepts in one
/// call: enough rounds for any admissible arrival budget while the
/// cycle counter provably stays inside 64 bits.
pub const ROUNDS_MAX: u64 = 8_000_000;

/// The total number of requests sitting in the given tenants' queues.
pub open spec fn total_queued(ts: Seq<Tenant>) -> int
    decreases ts.len(),
{
    if ts.len() == 0 {
        0
    } else {
        ts[0].queued().len() + total_queued(ts.drop_first())
    }
}

/// Replacing one tenant changes the queue total by the difference of
/// that tenant's queue lengths.
pub proof fn lemma_total_queued_update(ts: Seq<Tenant>, k: int, t: Tenant)
    requires
        0 <= k < ts.len(),
    ensures
        total_queued(ts.update(k, t)) == total_queued(ts) - ts[k].queued().len()
            + t.queued().len(),
    decreases ts.len(),
{
    if k == 0 {
        assert(ts.update(0, t).drop_first() =~= ts.drop_first());
    } else {
        assert(ts.update(k, t).drop_first() =~= ts.drop_first().update(k - 1, t));
        lemma_total_queued_update(ts.drop_first(), k - 1, t);
    }
}

/// Every queue of the given tenants is empty exactly when the total is
/// zero.
pub proof fn lemma_total_queued_zero(ts: Seq<Tenant>)
    ensures
        (total_queued(ts) == 0) <==> (forall|i: int|
            0 <= i < ts.len() ==> (#[trigger] ts[i]).queued().len() == 0),
    decreases ts.len(),
{
    if ts.len() > 0 {
        lemma_total_queued_zero(ts.drop_first());
        assert(forall|i: int|
            1 <= i < ts.len() ==> #[trigger] ts[i] == ts.drop_first()[i - 1]);
        if total_queued(ts) == 0 {
            assert(total_queued(ts.drop_first()) >= 0) by {
                lemma_total_queued_nonneg(ts.drop_first());
            }
        }
    }
}

/// A queue total is never negative.
pub proof fn lemma_total_queued_nonneg(ts: Seq<Tenant>)
    ensures
        total_queued(ts) >= 0,
    decreases ts.len(),
{
    if ts.len() > 0 {
        lemma_total_queued_nonneg(ts.drop_first());
    }
}

/// What the per-core invariant asks of a request queued for the tenant
/// at index `i` of a core whose range starts at `low` and whose clock
/// reads `rdtsc`: the id matches the owning tenant, the demand is one of
/// the two task sizes of the size distribution, no more demand is owed
/// than the total, and the service already consumed fits below the
/// clock.
pub open spec fn req_ok(low: u16, i: int, rdtsc: u64, r: Request) -> bool {
    &&& r.tenant_id == low + i
    &&& crate::request::request_inv(r)
    &&& 1 <= r.remaining_time
    &&& (r.max_time == consts::SHORT_TASK_CYCLES || r.max_time == consts::LONG_TASK_CYCLES)
    &&& r.start_time + crate::request::consumed(r) <= rdtsc
}

/// A domain list partitions the tenant range `[low, high)` into
/// contiguous, non-empty blocks of at most `cap` tenants each.
pub open spec fn domains_partition(doms: Seq<(u16, u16)>, low: u16, high: u16, cap: u16) -> bool {
    &&& doms.len() >= 1
    &&& doms[0].0 == low
    &&& doms[doms.len() - 1].1 == high
    &&& forall|i: int|
        0 <= i < doms.len() ==> (#[trigger] doms[i]).0 < doms[i].1 && doms[i].1 - doms[i].0 <= cap
    &&& forall|i: int| 0 <= i < doms.len() - 1 ==> (#[trigger] doms[i]).1 == doms[i + 1].0
}

/// Tenant `t` lies in domain `d`.
pub open spec fn in_domain(d: (u16, u16), t: u16) -> bool {
    d.0 <= t < d.1
}

/// Tenants `a` and `b` share one of the given domains.
pub open spec fn same_domain(doms: Seq<(u16, u16)>, a: u16, b: u16) -> bool {
    exists|i: int| 0 <= i < doms.len() && in_domain(#[trigger] doms[i], a) && in_domain(doms[i], b)
}

/// In a partition, earlier domains end no later than later ones begin.
pub proof fn lemma_domains_sorted(doms: Seq<(u16, u16)>, low: u16, high: u16, cap: u16, i: int, j: int)
    requires
        domains_partition(doms, low, high, cap),
        0 <= i < j < doms.len(),
    ensures
        doms[i].1 <= doms[j].0,
    decreases j - i,
{
    if j == i + 1 {
    } else {
        lemma_domains_sorted(doms, low, high, cap, i, j - 1);
    }
}

/// In a partition, no tenant lies in two distinct domains.
pub proof fn lemma_domains_disjoint(
    doms: Seq<(u16, u16)>,
    low: u16,
    high: u16,
    cap: u16,
    i: int,
    j: int,
    t: u16,
)
    requires
        domains_partition(doms, low, high, cap),
        0 <= i < doms.len(),
        0 <= j < doms.len(),
        in_domain(doms[i], t),
        in_domain(doms[j], t),
    ensures
        i == j,
{
    if i < j {
        lemma_domains_sorted(doms, low, high, cap, i, j);
    } else if j < i {
        lemma_domains_sorted(doms, low, high, cap, j, i);
    }
}

/// In a partition of `[low, high)`, every tenant of the range lies in
/// some domain.
pub proof fn lemma_domains_cover(doms: Seq<(u16, u16)>, low: u16, high: u16, cap: u16, t: u16)
    requires
        domains_partition(doms, low, high, cap),
        low <= t < high,
    ensures
        exists|i: int| 0 <= i < doms.len() && in_domain(#[trigger] doms[i], t),
    decreases doms.len(),
{
    if in_domain(doms[0], t) {
        assert(0 <= 0 < doms.len() && in_domain(doms[0], t));
    } else {
        let rest = doms.drop_first();
        assert(doms[0].1 <= t);
        assert(rest.len() >= 1) by {
            if doms.len() == 1 {
                assert(doms[0].1 == high);
            }
        }
        assert(forall|i: int| 0 <= i < rest.len() ==> #[trigger] rest[i] == doms[i + 1]);
        assert(domains_partition(rest, doms[0].1, high, cap));
        lemma_domains_cover(rest, doms[0].1, high, cap, t);
        let i = choose|i: int| 0 <= i < rest.len() && in_domain(#[trigger] rest[i], t);
        assert(in_domain(doms[i + 1], t));
    }
}

/// Build the contiguous partition of `[low, high)` into blocks of at
/// most `cap` tenants: MPK and VMFunc domains are both laid out this
/// way.
pub fn build_domains(low: u16, high: u16, cap: u16) -> (r: Vec<(u16, u16)>)
    requires
        low < high,
        cap >= 1,
    ensures
        domains_partition(r@, low, high, cap),
{
    let mut doms: Vec<(u16, u16)> = Vec::new();
    let mut lo = low;
    while lo < high
        invariant
            low <= lo <= high,
            cap >= 1,
            low < high,
            lo == low ==> doms@.len() == 0,
            lo > low ==> {
                &&& doms@.len() >= 1
                &&& doms@[0].0 == low
                &&& doms@[doms@.len() - 1].1 == lo
                &&& forall|i: int|
                    0 <= i < doms@.len() ==> (#[trigger] doms@[i]).0 < doms@[i].1 && doms@[i].1
                        - doms@[i].0 <= cap
                &&& forall|i: int|
                    0 <= i < doms@.len() - 1 ==> (#[trigger] doms@[i]).1 == doms@[i + 1].0
            },
        decreases high - lo,
    {
        let hi = if high - lo < cap {
            high
        } else {
            lo + cap
        };
        doms.push((lo, hi));
        lo = hi;
    }
    doms
}

/// The core id and core count are admissible: at least one core, ids
/// fit eight bits, and `id` names one of the cores.
pub open spec fn spec_core_id_ok(id: u8, num_cores: u64) -> bool {
    1 <= num_cores <= 255 && (id as int) < num_cores
}

/// The tenant count is admissible for this core count: at least one
/// tenant per core, and ids fit the 16-bit space.
pub open spec fn spec_tenant_count_ok(num_tenants: u64, num_cores: u64) -> bool {
    num_cores <= num_tenants <= 65534
}

/// What a freshly built core looks like: well-formed, all counters and
/// clocks at zero, no requests anywhere, the contiguous tenant slice of
/// its id (the last core absorbing the remainder), and the
/// configuration's isolation, distribution, batch size and arrival
/// grid.
pub open spec fn spec_core_fresh(c: Core, config: Config, id: u8, num_cores: u64) -> bool {
    let div = config.num_tenants as int / num_cores as int;
    &&& wf(c)
    &&& c.core_id == id
    &&& c.rdtsc == 0
    &&& c.idle_cycles == 0
    &&& c.service_cycles == 0
    &&& c.request_processed == 0
    &&& c.num_context_switches == 0
    &&& c.num_mpk_switches == 0
    &&& c.num_vmfunc_switches == 0
    &&& c.num_preemptions == 0
    &&& c.outstanding == 0
    &&& c.latencies@.len() == 0
    &&& c.active_tenant is None
    &&& c.last_task_state == TaskState::Completed
    &&& c.start_tenant == id * div + 1
    &&& c.end_tenant == if id as int == num_cores - 1 {
        config.num_tenants + 1
    } else {
        c.start_tenant + div
    }
    &&& total_queued(c.tenants@) == 0
    &&& c.isolation == config.isolation
    &&& c.distribution == config.distribution
    &&& c.batch_size == if config.batching {
        consts::BATCH_SIZE as int
    } else {
        1
    }
    &&& c.dispatcher.num_requests == config.num_reqs
    &&& c.dispatcher.sent == 0
    &&& c.dispatcher.next == 0
    &&& c.dispatcher.rate_inv == crate::cycles::CYCLES_PER_SECOND as int / config.req_rate as int
}

/// One simulated core.
pub struct Core {
    /// The id of the core.
    pub core_id: u8,
    /// The tenant whose protection context is loaded, if any.
    pub active_tenant: Option<u16>,
    /// The simulated cycle counter of this core.
    pub rdtsc: u64,
    /// The number of requests this core has completed.
    pub request_processed: u64,
    /// The latency of each completed request, in cycles.
    pub latencies: Vec<u64>,
    /// The arrival generator of this core.
    pub dispatcher: Dispatch,
    /// First tenant id this core handles.
    pub start_tenant: u16,
    /// One past the last tenant id this core handles.
    pub end_tenant: u16,
    /// Full context switches charged so far.
    pub num_context_switches: u64,
    /// Intra-domain MPK switches charged so far.
    pub num_mpk_switches: u64,
    /// Intra-domain VMFunc switches charged so far.
    pub num_vmfunc_switches: u64,
    /// Preemptions charged so far.
    pub num_preemptions: u64,
    /// The isolation mechanism between tenants on this core.
    pub isolation: Isolation,
    /// The tenants of `[start_tenant, end_tenant)`, indexed by
    /// `tenant_id - start_tenant`.
    pub tenants: Vec<Tenant>,
    /// Tasks run per tenant per scheduling round.
    pub batch_size: u64,
    /// The tenant distribution of new arrivals.
    pub distribution: Distribution,
    /// The MPK domains partitioning this core's tenant range.
    pub mpk_domains: Vec<(u16, u16)>,
    /// The VMFunc domains partitioning this core's tenant range.
    pub vmfunc_domains: Vec<(u16, u16)>,
    /// Requests admitted but not yet completed.
    pub outstanding: u64,
    /// The deterministic generator for task-size sampling.
    pub rng: SmallRng,
    /// How the most recent task left the core.
    pub last_task_state: TaskState,
    /// Cycles skipped by idle fast-forward.
    pub idle_cycles: u64,
    /// Pure service cycles charged to tasks (quanta and completions,
    /// without switch or preemption overheads).
    pub service_cycles: u64,
}

/// The switch cycles a core has charged in total, reconstructed from its
/// counters: full context switches cost the page-table switch price on
/// every mode but no-isolation, and each intra-domain switch its own.
pub open spec fn switch_cycles_total(c: Core) -> int {
    (match c.isolation {
        Isolation::NoIsolation => 0,
        _ => c.num_context_switches * consts::PAGING_TENANT_SWITCH_CYCLES,
    }) + c.num_mpk_switches * consts::MPK_TENANT_SWITCH_CYCLES + c.num_vmfunc_switches
        * consts::VMFUNC_TENANT_SWITCH_CYCLES
}

/// The cycles a tenant switch to `tenant` would charge, per the cost
/// table: free when resuming after a preemption, free under no
/// isolation, the full page-table price on a cold start or a
/// cross-domain switch, and the cheap intra-domain price under MPK or
/// VMFunc when the active tenant shares a domain with the new one.
pub open spec fn spec_switch_charge(c: Core, tenant: u16) -> int {
    if c.active_tenant == Some(tenant) {
        0
    } else if c.last_task_state == TaskState::Preempted {
        0
    } else {
        match c.isolation {
            Isolation::NoIsolation => 0,
            Isolation::PageTableIsolation => consts::PAGING_TENANT_SWITCH_CYCLES as int,
            Isolation::MpkIsolation => match c.active_tenant {
                None => consts::PAGING_TENANT_SWITCH_CYCLES as int,
                Some(cur) => if same_domain(c.mpk_domains@, cur, tenant) {
                    consts::MPK_TENANT_SWITCH_CYCLES as int
                } else {
                    consts::PAGING_TENANT_SWITCH_CYCLES as int
                },
            },
            Isolation::VmfuncIsolation => match c.active_tenant {
                None => consts::PAGING_TENANT_SWITCH_CYCLES as int,
                Some(cur) => if same_domain(c.vmfunc_domains@, cur, tenant) {
                    consts::VMFUNC_TENANT_SWITCH_CYCLES as int
                } else {
                    consts::PAGING_TENANT_SWITCH_CYCLES as int
                },
            },
        }
    }
}

/// Which counters a tenant switch to `tenant` would advance, as deltas
/// `(context, mpk, vmfunc)`.
pub open spec fn spec_switch_counters(c: Core, tenant: u16) -> (int, int, int) {
    if c.active_tenant == Some(tenant) {
        (0, 0, 0)
    } else if c.last_task_state == TaskState::Preempted {
        (0, 0, 0)
    } else {
        match c.isolation {
            Isolation::NoIsolation => (1, 0, 0),
            Isolation::PageTableIsolation => (1, 0, 0),
            Isolation::MpkIsolation => match c.active_tenant {
                None => (1, 0, 0),
                Some(cur) => if same_domain(c.mpk_domains@, cur, tenant) {
                    (0, 1, 0)
                } else {
                    (1, 0, 0)
                },
            },
            Isolation::VmfuncIsolation => match c.active_tenant {
                None => (1, 0, 0),
                Some(cur) => if same_domain(c.vmfunc_domains@, cur, tenant) {
                    (0, 0, 1)
                } else {
                    (1, 0, 0)
                },
            },
        }
    }
}

/// The fields a scheduling step never changes.
pub open spec fn same_identity(a: Core, b: Core) -> bool {
    &&& a.core_id == b.core_id
    &&& a.start_tenant == b.start_tenant
    &&& a.end_tenant == b.end_tenant
    &&& a.isolation == b.isolation
    &&& a.batch_size == b.batch_size
    &&& a.distribution == b.distribution
    &&& a.mpk_domains@ == b.mpk_domains@
    &&& a.vmfunc_domains@ == b.vmfunc_domains@
}

/// The core invariant.
///
/// The dispatcher's grid is consistent and matches the core's tenant
/// range; the tenant vector is indexed by `tenant_id - start_tenant`;
/// every queued request belongs to its tenant, owes no more than its
/// demand, and was admitted early enough that the service it has
/// already consumed fits below the clock; `outstanding` counts exactly
/// the queued requests; the active tenant lies in the range; both
/// domain lists partition the range; and the clock splits exactly into
/// idle skips, pure service, preemption overheads and switch charges.
pub open spec fn wf_base(c: Core) -> bool {
    &&& c.dispatcher.wf()
    &&& c.dispatcher.low == c.start_tenant
    &&& c.dispatcher.high == c.end_tenant
    &&& c.dispatcher.distribution == c.distribution
    &&& 1 <= c.start_tenant < c.end_tenant
    &&& c.tenants.len() == c.end_tenant - c.start_tenant
    &&& forall|i: int|
        0 <= i < c.tenants.len() ==> (#[trigger] c.tenants[i]).tenant_id == c.start_tenant + i
    &&& forall|i: int, j: int|
        0 <= i < c.tenants.len() && 0 <= j < c.tenants[i].queued().len() ==> req_ok(
            c.start_tenant,
            i,
            c.rdtsc,
            #[trigger] c.tenants[i].queued()[j],
        )
    &&& c.outstanding <= c.dispatcher.sent
    &&& (c.active_tenant matches Some(t) ==> c.start_tenant <= t < c.end_tenant)
    &&& domains_partition(c.mpk_domains@, c.start_tenant, c.end_tenant, consts::MPK_DOMAIN_SIZE)
    &&& domains_partition(
        c.vmfunc_domains@,
        c.start_tenant,
        c.end_tenant,
        consts::VMFUNC_DOMAIN_SIZE,
    )
    &&& 1 <= c.batch_size <= consts::BATCH_SIZE
    &&& c.rdtsc == c.idle_cycles + c.service_cycles + c.num_preemptions * spec_preemption_overhead(
        c.isolation,
    ) + switch_cycles_total(c)
    &&& c.request_processed + c.num_preemptions <= c.service_cycles
    &&& c.num_context_switches + c.num_mpk_switches + c.num_vmfunc_switches
        <= c.request_processed + c.num_preemptions
    &&& (match c.isolation {
        Isolation::NoIsolation => c.num_mpk_switches == 0 && c.num_vmfunc_switches == 0,
        Isolation::PageTableIsolation => c.num_mpk_switches == 0 && c.num_vmfunc_switches == 0,
        Isolation::MpkIsolation => c.num_vmfunc_switches == 0,
        Isolation::VmfuncIsolation => c.num_mpk_switches == 0,
    })
}

/// The core invariant at a scheduling-round boundary: the base
/// invariant, and `outstanding` counting exactly the queued requests.
pub open spec fn wf(c: Core) -> bool {
    &&& wf_base(c)
    &&& c.outstanding == total_queued(c.tenants@)
}

impl Core {
    /// The simulated cycle counter of this core.
    pub fn rdtsc(&self) -> (r: u64)
        ensures
            r == self.rdtsc,
    {
        self.rdtsc
    }

    /// The tenant range `[low, high)` this core handles.
    pub fn get_tenant_limit(&self) -> (r: (u16, u16))
        ensures
            r == (self.start_tenant, self.end_tenant),
    {
        (self.start_tenant, self.end_tenant)
    }

    /// Fast-forward the clock through an idle gap: when no admitted
    /// request is waiting and the clock lags the next arrival, jump to
    /// the next arrival so measured throughput is not diluted by
    /// simulated idle time.
    pub fn update_rdtsc(&mut self)
        requires
            wf(*old(self)),
        ensures
            wf(*final(self)),
            same_identity(*old(self), *final(self)),
            old(self).outstanding == 0 && old(self).rdtsc < old(self).dispatcher.next ==> {
                &&& final(self).rdtsc == old(self).dispatcher.next
                &&& final(self).idle_cycles == old(self).idle_cycles + (
                old(self).dispatcher.next - old(self).rdtsc)
            },
            !(old(self).outstanding == 0 && old(self).rdtsc < old(self).dispatcher.next) ==> *final(self) == *old(self),
            final(self).rdtsc >= old(self).rdtsc,
            final(self).dispatcher == old(self).dispatcher,
            final(self).tenants == old(self).tenants,
            final(self).request_processed == old(self).request_processed,
            final(self).outstanding == old(self).outstanding,
            final(self).latencies == old(self).latencies,
            final(self).num_context_switches == old(self).num_context_switches,
            final(self).num_mpk_switches == old(self).num_mpk_switches,
            final(self).num_vmfunc_switches == old(self).num_vmfunc_switches,
            final(self).num_preemptions == old(self).num_preemptions,
            final(self).service_cycles == old(self).service_cycles,
            final(self).active_tenant == old(self).active_tenant,
            final(self).last_task_state == old(self).last_task_state,
    {
        let next_dispatch_time = self.dispatcher.get_next();
        if self.outstanding == 0 && self.rdtsc < next_dispatch_time {
            self.idle_cycles = self.idle_cycles + (next_dispatch_time - self.rdtsc);
            self.rdtsc = next_dispatch_time;
        }
    }

    /// Load `tenant`'s protection context, charging the cost table's
    /// cycles and advancing the matching counter.  Resuming right after
    /// a preemption is free: the context is still loaded.
    fn tenant_switch(&mut self, tenant: u16)
        requires
            old(self).start_tenant <= tenant < old(self).end_tenant,
            old(self).active_tenant matches Some(t) ==> old(self).start_tenant <= t < old(self).end_tenant,
            domains_partition(
                old(self).mpk_domains@,
                old(self).start_tenant,
                old(self).end_tenant,
                consts::MPK_DOMAIN_SIZE,
            ),
            domains_partition(
                old(self).vmfunc_domains@,
                old(self).start_tenant,
                old(self).end_tenant,
                consts::VMFUNC_DOMAIN_SIZE,
            ),
            old(self).rdtsc + consts::PAGING_TENANT_SWITCH_CYCLES <= u64::MAX,
            old(self).num_context_switches + 1 <= u64::MAX,
            old(self).num_mpk_switches + 1 <= u64::MAX,
            old(self).num_vmfunc_switches + 1 <= u64::MAX,
        ensures
            final(self).active_tenant == Some(tenant),
            final(self).rdtsc == old(self).rdtsc + spec_switch_charge(*old(self), tenant),
            ({
                let (dcs, dmpk, dvm) = spec_switch_counters(*old(self), tenant);
                &&& final(self).num_context_switches == old(self).num_context_switches + dcs
                &&& final(self).num_mpk_switches == old(self).num_mpk_switches + dmpk
                &&& final(self).num_vmfunc_switches == old(self).num_vmfunc_switches + dvm
            }),
            same_identity(*old(self), *final(self)),
            final(self).dispatcher == old(self).dispatcher,
            final(self).tenants == old(self).tenants,
            final(self).request_processed == old(self).request_processed,
            final(self).outstanding == old(self).outstanding,
            final(self).latencies == old(self).latencies,
            final(self).num_preemptions == old(self).num_preemptions,
            final(self).service_cycles == old(self).service_cycles,
            final(self).idle_cycles == old(self).idle_cycles,
            final(self).last_task_state == old(self).last_task_state,
    {
        if self.active_tenant == Some(tenant) {
            return ;
        }
        if self.last_task_state == TaskState::Preempted {
            self.active_tenant = Some(tenant);
            return ;
        }
        match self.isolation {
            Isolation::NoIsolation => {
                self.active_tenant = Some(tenant);
                self.num_context_switches = self.num_context_switches + 1;
            },
            Isolation::PageTableIsolation => {
                self.active_tenant = Some(tenant);
                self.rdtsc = self.rdtsc + consts::PAGING_TENANT_SWITCH_CYCLES;
                self.num_context_switches = self.num_context_switches + 1;
            },
            Isolation::MpkIsolation => {
                let curr = self.active_tenant;
                match curr {
                    Some(curr_tenant) => {
                        let intra = self.find_same_domain_mpk(curr_tenant, tenant);
                        if intra {
                            self.active_tenant = Some(tenant);
                            self.rdtsc = self.rdtsc + consts::MPK_TENANT_SWITCH_CYCLES;
                            self.num_mpk_switches = self.num_mpk_switches + 1;
                        } else {
                            self.active_tenant = Some(tenant);
                            self.rdtsc = self.rdtsc + consts::PAGING_TENANT_SWITCH_CYCLES;
                            self.num_context_switches = self.num_context_switches + 1;
                        }
                    },
                    None => {
                        self.active_tenant = Some(tenant);
                        self.rdtsc = self.rdtsc + consts::PAGING_TENANT_SWITCH_CYCLES;
                        self.num_context_switches = self.num_context_switches + 1;
                    },
                }
            },
            Isolation::VmfuncIsolation => {
                let curr = self.active_tenant;
                match curr {
                    Some(curr_tenant) => {
                        let intra = self.find_same_domain_vmfunc(curr_tenant, tenant);
                        if intra {
                            self.active_tenant = Some(tenant);
                            self.rdtsc = self.rdtsc + consts::VMFUNC_TENANT_SWITCH_CYCLES;
                            self.num_vmfunc_switches = self.num_vmfunc_switches + 1;
                        } else {
                            self.active_tenant = Some(tenant);
                            self.rdtsc = self.rdtsc + consts::PAGING_TENANT_SWITCH_CYCLES;
                            self.num_context_switches = self.num_context_switches + 1;
                        }
                    },
                    None => {
                        self.active_tenant = Some(tenant);
                        self.rdtsc = self.rdtsc + consts::PAGING_TENANT_SWITCH_CYCLES;
                        self.num_context_switches = self.num_context_switches + 1;
                    },
                }
            },
        }
    }

    /// Whether `a` and `b` share an MPK domain of this core.
    fn find_same_domain_mpk(&self, a: u16, b: u16) -> (r: bool)
        requires
            domains_partition(
                self.mpk_domains@,
                self.start_tenant,
                self.end_tenant,
                consts::MPK_DOMAIN_SIZE,
            ),
            self.start_tenant <= a < self.end_tenant,
        ensures
            r == same_domain(self.mpk_domains@, a, b),
    {
        find_same_domain(
            &self.mpk_domains,
            a,
            b,
            Ghost(self.start_tenant),
            Ghost(self.end_tenant),
            Ghost(consts::MPK_DOMAIN_SIZE),
        )
    }

    /// Whether `a` and `b` share a VMFunc domain of this core.
    fn find_same_domain_vmfunc(&self, a: u16, b: u16) -> (r: bool)
        requires
            domains_partition(
                self.vmfunc_domains@,
                self.start_tenant,
                self.end_tenant,
                consts::VMFUNC_DOMAIN_SIZE,
            ),
            self.start_tenant <= a < self.end_tenant,
        ensures
            r == same_domain(self.vmfunc_domains@, a, b),
    {
        find_same_domain(
            &self.vmfunc_domains,
            a,
            b,
            Ghost(self.start_tenant),
            Ghost(self.end_tenant),
            Ghost(consts::VMFUNC_DOMAIN_SIZE),
        )
    }

    /// Ask the dispatcher for an arrival at the current clock and map it
    /// into this core's tenant range.
    ///
    /// Under the uniform distribution the sample already is a tenant id.
    /// Under Zipf the sample is a rank starting at 1; it is offset into
    /// the range and dropped (an arrival is consumed without producing a
    /// request) if it falls outside.
    pub fn generate_req(&mut self) -> (r: Option<u16>)
        requires
            old(self).dispatcher.wf(),
            old(self).dispatcher.low == old(self).start_tenant,
            old(self).dispatcher.high == old(self).end_tenant,
            old(self).dispatcher.distribution == old(self).distribution,
        ensures
            *final(self) == (Core { dispatcher: final(self).dispatcher, ..*old(self) }),
            final(self).dispatcher.wf(),
            !old(self).dispatcher.spec_fires(old(self).rdtsc) ==> r is None && final(self).dispatcher == old(self).dispatcher,
            old(self).dispatcher.spec_fires(old(self).rdtsc) ==> {
                &&& final(self).dispatcher.sent == old(self).dispatcher.sent + 1
                &&& final(self).dispatcher.next == (old(self).dispatcher.sent + 1) * old(self).dispatcher.rate_inv
                &&& final(self).dispatcher.num_requests == old(self).dispatcher.num_requests
                &&& final(self).dispatcher.rate_inv == old(self).dispatcher.rate_inv
                &&& final(self).dispatcher.low == old(self).dispatcher.low
                &&& final(self).dispatcher.high == old(self).dispatcher.high
                &&& final(self).dispatcher.distribution == old(self).dispatcher.distribution
                &&& (old(self).distribution == Distribution::Uniform ==> r is Some)
            },
            r is Some ==> old(self).dispatcher.spec_fires(old(self).rdtsc),
            r matches Some(t) ==> old(self).start_tenant <= t < old(self).end_tenant,
    {
        let now = self.rdtsc;
        let sample = self.dispatcher.generate_request(now);
        match sample {
            Some(t) => {
                match self.distribution {
                    Distribution::Zipf => {
                        let tenant64 = self.start_tenant as u64 + t as u64 - 1;
                        if tenant64 >= self.end_tenant as u64 {
                            None
                        } else {
                            Some(tenant64 as u16)
                        }
                    },
                    Distribution::Uniform => {
                        if t >= self.end_tenant {
                            None
                        } else {
                            Some(t)
                        }
                    },
                }
            },
            None => None,
        }
    }

    /// Drain the dispatcher: admit every arrival that is due at the
    /// current clock, sampling each task's size (the configured
    /// short/long mix) and queueing it on its tenant.
    ///
    /// Each admitted arrival enqueues at most one request — exactly one
    /// under the uniform distribution, while a Zipf sample that falls
    /// outside the core's range consumes its arrival without enqueueing
    /// a request and ends the drain early.  Queues only grow here, and
    /// under the uniform distribution the drain is complete: no arrival
    /// is left due at the current clock.
    pub fn run_dispatcher(&mut self)
        requires
            wf(*old(self)),
        ensures
            wf(*final(self)),
            same_identity(*old(self), *final(self)),
            final(self).rdtsc == old(self).rdtsc,
            final(self).request_processed == old(self).request_processed,
            final(self).latencies == old(self).latencies,
            final(self).num_context_switches == old(self).num_context_switches,
            final(self).num_mpk_switches == old(self).num_mpk_switches,
            final(self).num_vmfunc_switches == old(self).num_vmfunc_switches,
            final(self).num_preemptions == old(self).num_preemptions,
            final(self).active_tenant == old(self).active_tenant,
            final(self).last_task_state == old(self).last_task_state,
            final(self).idle_cycles == old(self).idle_cycles,
            final(self).service_cycles == old(self).service_cycles,
            final(self).dispatcher.sent >= old(self).dispatcher.sent,
            final(self).dispatcher.num_requests == old(self).dispatcher.num_requests,
            final(self).dispatcher.rate_inv == old(self).dispatcher.rate_inv,
            final(self).outstanding >= old(self).outstanding,
            old(self).dispatcher.spec_fires(old(self).rdtsc) ==> final(self).dispatcher.sent > old(self).dispatcher.sent,
            old(self).distribution == Distribution::Uniform ==> !final(self).dispatcher.spec_fires(final(self).rdtsc),
            final(self).outstanding - old(self).outstanding <= final(self).dispatcher.sent - old(self).dispatcher.sent,
            old(self).distribution == Distribution::Uniform ==> final(self).outstanding - old(self).outstanding == final(self).dispatcher.sent - old(self).dispatcher.sent,
            forall|i: int|
                0 <= i < old(self).tenants.len() ==> (#[trigger] old(self).tenants@[i]).queued().len() <= final(self).tenants@[i].queued().len(),
    {
        loop
            invariant
                wf(*self),
                same_identity(*old(self), *self),
                self.rdtsc == old(self).rdtsc,
                self.request_processed == old(self).request_processed,
                self.latencies == old(self).latencies,
                self.num_context_switches == old(self).num_context_switches,
                self.num_mpk_switches == old(self).num_mpk_switches,
                self.num_vmfunc_switches == old(self).num_vmfunc_switches,
                self.num_preemptions == old(self).num_preemptions,
                self.active_tenant == old(self).active_tenant,
                self.last_task_state == old(self).last_task_state,
                self.idle_cycles == old(self).idle_cycles,
                self.service_cycles == old(self).service_cycles,
                self.dispatcher.sent >= old(self).dispatcher.sent,
                self.dispatcher.num_requests == old(self).dispatcher.num_requests,
                self.dispatcher.rate_inv == old(self).dispatcher.rate_inv,
                self.outstanding >= old(self).outstanding,
                self.dispatcher.sent > old(self).dispatcher.sent || *self == *old(self),
                self.tenants.len() == old(self).tenants.len(),
                self.outstanding - old(self).outstanding <= self.dispatcher.sent - old(self).dispatcher.sent,
                self.distribution == Distribution::Uniform ==> self.outstanding - old(self).outstanding == self.dispatcher.sent - old(self).dispatcher.sent,
                forall|i: int|
                    0 <= i < old(self).tenants.len() ==> (#[trigger] old(self).tenants@[i]).queued().len() <= self.tenants@[i].queued().len(),
            ensures
                old(self).dispatcher.spec_fires(old(self).rdtsc) ==> self.dispatcher.sent > old(self).dispatcher.sent,
                self.distribution == Distribution::Uniform ==> !self.dispatcher.spec_fires(
                    self.rdtsc,
                ),
            decreases self.dispatcher.num_requests + 1 - self.dispatcher.sent,
        {
            let ghost pre = *self;
            let r = self.generate_req();
            match r {
                Some(tenant_id) => {
                    let dice = sampling::gen_range_u64(
                        &mut self.rng,
                        0,
                        consts::TASK_WEIGHT_TOTAL,
                    );
                    let task_time = if dice < consts::SHORT_TASK_WEIGHT {
                        consts::SHORT_TASK_CYCLES
                    } else {
                        consts::LONG_TASK_CYCLES
                    };
                    let index = (tenant_id - self.start_tenant) as usize;
                    let now = self.rdtsc;
                    let ghost ts_pre = self.tenants@;
                    let tref = vec_at(&mut self.tenants, index);
                    let ghost t_pre = *tref;
                    tref.add_request(now, task_time);
                    proof {
                        lemma_total_queued_update(ts_pre, index as int, self.tenants@[index as int]);
                        lemma_total_queued_nonneg(ts_pre);
                        let j = choose|j: int|
                            0 <= j <= t_pre.queued().len() && self.tenants@[index as int].queued()
                                == t_pre.queued().insert(
                                j,
                                crate::sched::spec_new_request(t_pre.tenant_id, now, task_time),
                            );
                        t_pre.queued().insert_ensures(
                            j,
                            crate::sched::spec_new_request(t_pre.tenant_id, now, task_time),
                        );
                        assert forall|i: int| 0 <= i < old(self).tenants.len() implies (
                        #[trigger] old(self).tenants@[i]).queued().len()
                            <= self.tenants@[i].queued().len() by {
                            if i != index {
                                assert(self.tenants@[i] == ts_pre[i]);
                            }
                        }
                    }
                    self.outstanding = self.outstanding + 1;
                },
                None => {
                    proof {
                        if pre.dispatcher.spec_fires(pre.rdtsc) {
                            assert(self.dispatcher.sent == pre.dispatcher.sent + 1);
                        } else {
                            assert(*self == pre);
                        }
                    }
                    break ;
                },
            }
        }
    }

    /// Run `req` (the popped head of the queue of the tenant at `index`)
    /// for one quantum.
    ///
    /// The tenant-switch cost of the cost table is charged first (free
    /// when the tenant is already active or the previous task was
    /// preempted).  On completion the request's latency — the clock now
    /// minus its admission time, never less than its full demand — is
    /// recorded and `outstanding` drops.  On preemption the preemption
    /// overhead has been charged and the request, its demand reduced by
    /// one quantum, goes back to its tenant's policy.
    pub fn process_request(&mut self, req: Request, index: usize)
        requires
            wf_base(*old(self)),
            old(self).outstanding == total_queued(old(self).tenants@) + 1,
            index < old(self).tenants.len(),
            req_ok(old(self).start_tenant, index as int, old(self).rdtsc, req),
            old(self).rdtsc + PER_CALL_COST_BOUND <= u64::MAX,
        ensures
            wf(*final(self)),
            same_identity(*old(self), *final(self)),
            final(self).dispatcher == old(self).dispatcher,
            final(self).idle_cycles == old(self).idle_cycles,
            final(self).rdtsc >= old(self).rdtsc,
            final(self).rdtsc <= old(self).rdtsc + PER_CALL_COST_BOUND,
            final(self).active_tenant == Some(req.tenant_id),
            old(self).last_task_state == TaskState::Preempted ==> {
                &&& spec_switch_charge(*old(self), req.tenant_id) == 0
                &&& final(self).num_context_switches == old(self).num_context_switches
                &&& final(self).num_mpk_switches == old(self).num_mpk_switches
                &&& final(self).num_vmfunc_switches == old(self).num_vmfunc_switches
            },
            old(self).active_tenant == Some(req.tenant_id) ==> {
                &&& spec_switch_charge(*old(self), req.tenant_id) == 0
                &&& final(self).num_context_switches == old(self).num_context_switches
                &&& final(self).num_mpk_switches == old(self).num_mpk_switches
                &&& final(self).num_vmfunc_switches == old(self).num_vmfunc_switches
            },
            ({
                let charge = spec_switch_charge(*old(self), req.tenant_id);
                let (dcs, dmpk, dvm) = spec_switch_counters(*old(self), req.tenant_id);
                &&& final(self).num_context_switches == old(self).num_context_switches + dcs
                &&& final(self).num_mpk_switches == old(self).num_mpk_switches + dmpk
                &&& final(self).num_vmfunc_switches == old(self).num_vmfunc_switches + dvm
                &&& (req.remaining_time <= consts::QUANTA_CYCLES ==> {
                    let latency = old(self).rdtsc + charge + req.remaining_time
                        - req.start_time;
                    &&& final(self).rdtsc == old(self).rdtsc + charge + req.remaining_time
                    &&& final(self).latencies@ == old(self).latencies@.push(latency as u64)
                    &&& latency == final(self).rdtsc - req.start_time
                    &&& latency >= req.max_time
                    &&& final(self).request_processed == old(self).request_processed + 1
                    &&& final(self).outstanding == old(self).outstanding - 1
                    &&& final(self).num_preemptions == old(self).num_preemptions
                    &&& final(self).last_task_state == TaskState::Completed
                    &&& final(self).tenants == old(self).tenants
                    &&& final(self).service_cycles == old(self).service_cycles
                        + req.remaining_time
                })
                &&& (req.remaining_time > consts::QUANTA_CYCLES ==> {
                    &&& final(self).rdtsc == old(self).rdtsc + charge + consts::QUANTA_CYCLES
                        + spec_preemption_overhead(old(self).isolation)
                    &&& final(self).latencies == old(self).latencies
                    &&& final(self).request_processed == old(self).request_processed
                    &&& final(self).outstanding == old(self).outstanding
                    &&& final(self).num_preemptions == old(self).num_preemptions + 1
                    &&& final(self).last_task_state == TaskState::Preempted
                    &&& final(self).service_cycles == old(self).service_cycles
                        + consts::QUANTA_CYCLES
                    &&& final(self).tenants.len() == old(self).tenants.len()
                    &&& (forall|i: int|
                        0 <= i < old(self).tenants.len() && i != index ==> final(self).tenants@[i]
                            == old(self).tenants@[i])
                    &&& exists|j: int|
                        0 <= j <= old(self).tenants@[index as int].queued().len() && final(self).tenants@[index as int].queued() == #[trigger] old(self).tenants@[index as int].queued().insert(
                            j,
                            Request {
                                remaining_time: (req.remaining_time
                                    - consts::QUANTA_CYCLES) as u64,
                                taskstate: TaskState::Preempted,
                                ..req
                            },
                        )
                })
            }),
    {
        let tenant = req.get_tenant();
        proof {
            lemma_total_queued_nonneg(old(self).tenants@);
            assert(old(self).request_processed + old(self).num_preemptions < u64::MAX);
        }
        if Some(tenant) != self.active_tenant {
            self.tenant_switch(tenant);
        }
        proof {
            assert(switch_cycles_total(*self) == switch_cycles_total(*old(self))
                + spec_switch_charge(*old(self), tenant));
            assert(self.rdtsc == self.idle_cycles + self.service_cycles + self.num_preemptions
                * spec_preemption_overhead(self.isolation) + switch_cycles_total(*self));
        }
        let mut task = req;
        let run_result = task.run(&self.isolation);
        let time = run_result.0;
        let taskstate = run_result.1;
        self.rdtsc = self.rdtsc + time;
        match taskstate {
            TaskState::Completed => {
                let latency = self.rdtsc - task.start_time();
                self.latencies.push(latency);
                self.request_processed = self.request_processed + 1;
                self.outstanding = self.outstanding - 1;
                self.service_cycles = self.service_cycles + time;
                self.last_task_state = taskstate;
            },
            TaskState::Preempted => {
                self.num_preemptions = self.num_preemptions + 1;
                self.service_cycles = self.service_cycles + consts::QUANTA_CYCLES;
                let now = self.rdtsc;
                let ghost ts_pre = self.tenants@;
                let ghost t_pre = self.tenants@[index as int];
                let tref = vec_at(&mut self.tenants, index);
                tref.enqueue_task(task);
                proof {
                    lemma_total_queued_update(ts_pre, index as int, self.tenants@[index as int]);
                    lemma_total_queued_nonneg(ts_pre);
                    let j = choose|j: int|
                        0 <= j <= t_pre.queued().len() && self.tenants@[index as int].queued()
                            == t_pre.queued().insert(j, task);
                    t_pre.queued().insert_ensures(j, task);
                }
                self.last_task_state = taskstate;
                proof {
                    let oh = spec_preemption_overhead(self.isolation);
                    let p = old(self).num_preemptions as int;
                    assert((p + 1) * oh == p * oh + oh) by (nonlinear_arith);
                }
            },
            TaskState::Runnable | TaskState::Running => {
                proof {
                    assert(false);
                }
            },
        }
    }

    /// One scheduling round: for each tenant of the range, up to
    /// `batch_size` times, drain the dispatcher and run the head of the
    /// tenant's queue for one quantum; then fast-forward the clock if
    /// the core went idle.
    ///
    /// A round makes progress: an arrival due at entry is admitted,
    /// a non-empty queue somewhere gets at least one quantum of service
    /// charged, and a core that ends the round with nothing outstanding
    /// has its clock at or past the next arrival.
    pub fn run(&mut self)
        requires
            wf(*old(self)),
            old(self).rdtsc + RUN_COST_BOUND <= u64::MAX,
        ensures
            wf(*final(self)),
            same_identity(*old(self), *final(self)),
            final(self).rdtsc >= old(self).rdtsc,
            final(self).rdtsc <= if old(self).rdtsc >= old(self).dispatcher.horizon() {
                old(self).rdtsc + RUN_COST_BOUND
            } else {
                old(self).dispatcher.horizon() + RUN_COST_BOUND
            },
            final(self).request_processed >= old(self).request_processed,
            final(self).dispatcher.num_requests == old(self).dispatcher.num_requests,
            final(self).dispatcher.rate_inv == old(self).dispatcher.rate_inv,
            final(self).dispatcher.sent >= old(self).dispatcher.sent,
            old(self).latencies@.is_prefix_of(final(self).latencies@),
            final(self).latencies@.len() - old(self).latencies@.len() == final(self).request_processed - old(self).request_processed,
            forall|i: int|
                old(self).latencies@.len() <= i < final(self).latencies@.len() ==> final(self).latencies@[i] >= consts::SHORT_TASK_CYCLES,
            old(self).dispatcher.spec_fires(old(self).rdtsc) ==> final(self).dispatcher.sent > old(self).dispatcher.sent,
            total_queued(old(self).tenants@) > 0 ==> final(self).service_cycles > old(self).service_cycles,
            final(self).outstanding == 0 ==> final(self).rdtsc >= final(self).dispatcher.next,
    {
        proof {
            lemma_total_queued_zero(self.tenants@);
        }
        let low = self.start_tenant;
        let high = self.end_tenant;
        let ghost mut k: int = 0;
        let mut t: u16 = low;
        while t < high
            invariant
                wf(*self),
                same_identity(*old(self), *self),
                low == self.start_tenant,
                high == self.end_tenant,
                low <= t <= high,
                0 <= k <= (t - low) * 8,
                self.rdtsc >= old(self).rdtsc,
                self.rdtsc <= old(self).rdtsc + k * PER_CALL_COST_BOUND,
                old(self).rdtsc + RUN_COST_BOUND <= u64::MAX,
                self.request_processed >= old(self).request_processed,
                self.dispatcher.num_requests == old(self).dispatcher.num_requests,
                self.dispatcher.rate_inv == old(self).dispatcher.rate_inv,
                self.dispatcher.sent >= old(self).dispatcher.sent,
                self.service_cycles >= old(self).service_cycles,
                old(self).latencies@.is_prefix_of(self.latencies@),
                self.latencies@.len() - old(self).latencies@.len() == self.request_processed
                    - old(self).request_processed,
                forall|i: int|
                    old(self).latencies@.len() <= i < self.latencies@.len()
                        ==> self.latencies@[i] >= consts::SHORT_TASK_CYCLES,
                t == low ==> *self == *old(self),
                t > low ==> (old(self).dispatcher.spec_fires(old(self).rdtsc)
                    ==> self.dispatcher.sent > old(self).dispatcher.sent),
                total_queued(old(self).tenants@) > 0 ==> (self.service_cycles > old(self).service_cycles
                    || exists|i: int|
                    t - low <= i < self.tenants.len() && (#[trigger] self.tenants@[i]).queued().len() > 0),
            decreases high - t,
        {
            let index = (t - low) as usize;
            let mut b: u64 = 0;
            let batch = self.batch_size;
            while b < batch
                invariant_except_break
                    t == low && b == 0 ==> *self == *old(self),
                invariant
                    wf(*self),
                    same_identity(*old(self), *self),
                    low == self.start_tenant,
                    high == self.end_tenant,
                    low <= t < high,
                    index == t - low,
                    batch == self.batch_size,
                    0 <= b <= batch,
                    0 <= k <= (t - low) * 8 + b,
                    b <= 8,
                    self.rdtsc >= old(self).rdtsc,
                    self.rdtsc <= old(self).rdtsc + k * PER_CALL_COST_BOUND,
                    old(self).rdtsc + RUN_COST_BOUND <= u64::MAX,
                    self.request_processed >= old(self).request_processed,
                    self.dispatcher.num_requests == old(self).dispatcher.num_requests,
                    self.dispatcher.rate_inv == old(self).dispatcher.rate_inv,
                    self.dispatcher.sent >= old(self).dispatcher.sent,
                    self.service_cycles >= old(self).service_cycles,
                    old(self).latencies@.is_prefix_of(self.latencies@),
                    self.latencies@.len() - old(self).latencies@.len() == self.request_processed
                        - old(self).request_processed,
                    forall|i: int|
                        old(self).latencies@.len() <= i < self.latencies@.len()
                            ==> self.latencies@[i] >= consts::SHORT_TASK_CYCLES,
                    !(t == low && b == 0) ==> (old(self).dispatcher.spec_fires(old(self).rdtsc)
                        ==> self.dispatcher.sent > old(self).dispatcher.sent),
                    b > 0 ==> self.service_cycles > old(self).service_cycles,
                    total_queued(old(self).tenants@) > 0 ==> (self.service_cycles > old(self).service_cycles
                        || exists|i: int|
                        t - low <= i < self.tenants.len() && (#[trigger] self.tenants@[i]).queued().len() > 0),
                ensures
                    old(self).dispatcher.spec_fires(old(self).rdtsc) ==> self.dispatcher.sent
                        > old(self).dispatcher.sent,
                    total_queued(old(self).tenants@) > 0 ==> (self.service_cycles > old(self).service_cycles
                        || exists|i: int|
                        t - low < i < self.tenants.len() && (#[trigger] self.tenants@[i]).queued().len() > 0),
                decreases batch - b,
            {
                let ghost s0 = *self;
                self.run_dispatcher();
                proof {
                    if total_queued(old(self).tenants@) > 0 && !(self.service_cycles > old(self).service_cycles) {
                        let w = choose|i: int|
                            t - low <= i < s0.tenants.len() && (#[trigger] s0.tenants@[i]).queued().len() > 0;
                        assert(t - low <= w < self.tenants.len() && self.tenants@[w].queued().len() > 0);
                    }
                }
                let now = self.rdtsc;
                let ghost pre = *self;
                let ghost ts_pre = self.tenants@;
                let tref = vec_at(&mut self.tenants, index);
                let ghost t_pre = *tref;
                let task = tref.get_request(now);
                match task {
                    Some(req) => {
                        proof {
                            lemma_total_queued_update(
                                ts_pre,
                                index as int,
                                self.tenants@[index as int],
                            );
                            lemma_total_queued_nonneg(ts_pre);
                            let j = choose|j: int|
                                0 <= j < t_pre.queued().len() && t_pre.queued()[j] == req
                                    && self.tenants@[index as int].queued() == t_pre.queued().remove(
                                    j,
                                );
                            t_pre.queued().remove_ensures(j);
                            assert(req_ok(self.start_tenant, index as int, self.rdtsc, req));
                            assert((k + 1) * PER_CALL_COST_BOUND <= MAX_CALLS_PER_RUN
                                * PER_CALL_COST_BOUND) by (nonlinear_arith)
                                requires
                                    0 <= k + 1 <= MAX_CALLS_PER_RUN,
                            ;
                            assert(k * PER_CALL_COST_BOUND + PER_CALL_COST_BOUND == (k + 1)
                                * PER_CALL_COST_BOUND) by (nonlinear_arith);
                        }
                        let ghost mid = *self;
                        self.process_request(req, index);
                        proof {
                            k = k + 1;
                            assert(self.service_cycles > mid.service_cycles);
                            if total_queued(old(self).tenants@) > 0
                                && !(self.service_cycles > old(self).service_cycles) {
                                assert(false);
                            }
                        }
                    },
                    None => {
                        proof {
                            lemma_total_queued_update(
                                ts_pre,
                                index as int,
                                self.tenants@[index as int],
                            );
                            if t == low && b == 0 {
                                assert(s0 == *old(self));
                            }
                            if total_queued(old(self).tenants@) > 0
                                && !(self.service_cycles > old(self).service_cycles) {
                                let w = choose|i: int|
                                    t - low <= i < pre.tenants.len() && (#[trigger] pre.tenants@[i]).queued().len() > 0;
                                assert(w != index);
                                assert(self.tenants@[w].queued().len() > 0);
                            }
                        }
                        break ;
                    },
                }
                b = b + 1;
                proof {
                    if total_queued(old(self).tenants@) > 0
                        && !(self.service_cycles > old(self).service_cycles) {
                        assert(false);
                    }
                }
            }
            t = t + 1;
            proof {
                assert(k <= (t - low) * 8);
            }
        }
        proof {
            let d = self.dispatcher;
            assert(d.sent * d.rate_inv <= (d.num_requests + 1) * d.rate_inv) by (nonlinear_arith)
                requires
                    d.sent <= d.num_requests + 1,
                    d.rate_inv >= 0,
            ;
            if total_queued(old(self).tenants@) > 0 {
                assert(self.service_cycles > old(self).service_cycles);
            }
        }
        self.update_rdtsc();
    }

    /// Build the core with id `id` out of `num_cores`, taking the
    /// contiguous tenant slice `[id*(num_tenants/num_cores) + 1, ...)`
    /// (the last core absorbs the remainder), its MPK and VMFunc
    /// domains, its dispatcher, and one round-robin tenant per id.
    ///
    /// Configuration errors are returned, never panicked on: a core
    /// count of zero or beyond the 8-bit id space, an id outside the
    /// count, fewer tenants than cores or more than the 16-bit id space
    /// holds, and whatever the dispatcher rejects.
    pub fn new(id: u8, config: &Config, num_cores: u64) -> (r: Result<Core, ConfigError>)
        ensures
            (r == Err::<Core, _>(ConfigError::BadCoreCount)) <==> !spec_core_id_ok(id, num_cores),
            (r == Err::<Core, _>(ConfigError::BadTenantCount)) <==> spec_core_id_ok(id, num_cores)
                && !spec_tenant_count_ok(config.num_tenants, num_cores),
            (r == Err::<Core, _>(ConfigError::ZeroRequestRate)) <==> spec_core_id_ok(id, num_cores)
                && spec_tenant_count_ok(config.num_tenants, num_cores) && config.req_rate == 0,
            (r == Err::<Core, _>(ConfigError::HorizonOverflow)) <==> spec_core_id_ok(id, num_cores)
                && spec_tenant_count_ok(config.num_tenants, num_cores) && config.req_rate >= 1
                && !crate::dispatcher::spec_horizon_ok(config.req_rate, config.num_reqs),
            (r == Err::<Core, _>(ConfigError::BadSkew)) <==> spec_core_id_ok(id, num_cores)
                && spec_tenant_count_ok(config.num_tenants, num_cores) && config.req_rate >= 1
                && crate::dispatcher::spec_horizon_ok(config.req_rate, config.num_reqs)
                && config.distribution == Distribution::Zipf && !sampling::spec_skew_ok(
                config.tenant_skew@,
            ),
            (r is Ok) <==> spec_core_id_ok(id, num_cores) && spec_tenant_count_ok(
                config.num_tenants,
                num_cores,
            ) && config.req_rate >= 1 && crate::dispatcher::spec_horizon_ok(
                config.req_rate,
                config.num_reqs,
            ) && (config.distribution == Distribution::Uniform || sampling::spec_skew_ok(
                config.tenant_skew@,
            )),
            r matches Ok(c) ==> spec_core_fresh(c, *config, id, num_cores),
    {
        if num_cores == 0 || num_cores > 255 || id as u64 >= num_cores {
            return Err(ConfigError::BadCoreCount);
        }
        if config.num_tenants < num_cores || config.num_tenants > 65534 {
            return Err(ConfigError::BadTenantCount);
        }
        let div64 = config.num_tenants / num_cores;
        proof {
            vstd::arithmetic::div_mod::lemma_fundamental_div_mod(
                config.num_tenants as int,
                num_cores as int,
            );
            assert((id as int) * (div64 as int) <= (num_cores - 1) * (div64 as int))
                by (nonlinear_arith)
                requires
                    id as int <= num_cores - 1,
                    div64 as int >= 0,
            ;
            assert((num_cores - 1) * (div64 as int) == num_cores * (div64 as int) - div64)
                by (nonlinear_arith);
            assert(num_cores * (div64 as int) <= config.num_tenants);
            vstd::arithmetic::div_mod::lemma_div_non_zero(
                config.num_tenants as int,
                num_cores as int,
            );
            assert(div64 >= 1);
        }
        let low64 = (id as u64) * div64 + 1;
        proof {
            assert(low64 <= config.num_tenants - div64 + 1);
        }
        let high64 = if (id as u64) == num_cores - 1 {
            config.num_tenants + 1
        } else {
            low64 + div64
        };
        let low = low64 as u16;
        let high = high64 as u16;
        let mpk_domains = build_domains(low, high, consts::MPK_DOMAIN_SIZE);
        let vmfunc_domains = build_domains(low, high, consts::VMFUNC_DOMAIN_SIZE);
        let dispatcher = match Dispatch::new(config, low, high, config.rng_seed ^ (id as u64) * 2) {
            Ok(d) => d,
            Err(e) => {
                return Err(e);
            },
        };
        let mut tenants: Vec<Tenant> = Vec::new();
        let mut i = low;
        while i < high
            invariant
                low <= i <= high,
                tenants@.len() == i - low,
                forall|k: int|
                    0 <= k < tenants@.len() ==> (#[trigger] tenants@[k]).tenant_id == low + k
                        && tenants@[k].queued().len() == 0,
            decreases high - i,
        {
            tenants.push(Tenant::new(i, SchedPolicy::RoundRobin(RoundRobin::new())));
            i = i + 1;
        }
        let batch_size: u64 = if config.batching {
            consts::BATCH_SIZE
        } else {
            1
        };
        let core = Core {
            core_id: id,
            active_tenant: None,
            rdtsc: 0,
            request_processed: 0,
            latencies: Vec::new(),
            dispatcher,
            start_tenant: low,
            end_tenant: high,
            num_context_switches: 0,
            num_mpk_switches: 0,
            num_vmfunc_switches: 0,
            num_preemptions: 0,
            isolation: config.isolation,
            tenants,
            batch_size,
            distribution: config.distribution,
            mpk_domains,
            vmfunc_domains,
            outstanding: 0,
            rng: sampling::rng_from_seed(config.rng_seed ^ (id as u64) * 2 + 1),
            last_task_state: TaskState::Completed,
            idle_cycles: 0,
            service_cycles: 0,
        };
        proof {
            lemma_total_queued_zero(core.tenants@);
        }
        Ok(core)
    }

    /// The cycles this core has spent on preemptions and on tenant
    /// switches, as the pair `(preemption cycles, switch cycles)`,
    /// reconstructed from the counters: each preemption costs the
    /// isolation mode's overhead, and the switch total counts the
    /// mode's own switch kind.
    pub fn switch_overheads(&self) -> (r: (u128, u128))
        ensures
            r.0 == self.num_preemptions * spec_preemption_overhead(self.isolation),
            r.1 == match self.isolation {
                Isolation::NoIsolation => 0int,
                Isolation::PageTableIsolation => self.num_context_switches
                    * consts::PAGING_TENANT_SWITCH_CYCLES,
                Isolation::MpkIsolation => self.num_mpk_switches
                    * consts::MPK_TENANT_SWITCH_CYCLES,
                Isolation::VmfuncIsolation => self.num_vmfunc_switches
                    * consts::VMFUNC_TENANT_SWITCH_CYCLES,
            },
    {
        let preemption_cycles: u128 = (self.num_preemptions as u128) * (preemption_overhead(
            self.isolation,
        ) as u128);
        let cs_cycles: u128 = match self.isolation {
            Isolation::NoIsolation => 0,
            Isolation::PageTableIsolation => (self.num_context_switches as u128) * (
            consts::PAGING_TENANT_SWITCH_CYCLES as u128),
            Isolation::MpkIsolation => (self.num_mpk_switches as u128) * (
            consts::MPK_TENANT_SWITCH_CYCLES as u128),
            Isolation::VmfuncIsolation => (self.num_vmfunc_switches as u128) * (
            consts::VMFUNC_TENANT_SWITCH_CYCLES as u128),
        };
        (preemption_cycles, cs_cycles)
    }
}

/// Whether `a` and `b` share one of the given domains, where the
/// domains partition a range containing `a`: find `a`'s unique domain
/// and test `b` against it.
fn find_same_domain(
    doms: &Vec<(u16, u16)>,
    a: u16,
    b: u16,
    low: Ghost<u16>,
    high: Ghost<u16>,
    cap: Ghost<u16>,
) -> (r: bool)
    requires
        domains_partition(doms@, low@, high@, cap@),
        low@ <= a < high@,
    ensures
        r == same_domain(doms@, a, b),
{
    let n = doms.len();
    let mut k: usize = 0;
    while k < n
        invariant
            domains_partition(doms@, low@, high@, cap@),
            low@ <= a < high@,
            n == doms@.len(),
            0 <= k <= n,
            forall|i: int| 0 <= i < k ==> !in_domain(#[trigger] doms@[i], a),
        decreases n - k,
    {
        let d = doms[k];
        if d.0 <= a && a < d.1 {
            let hit = d.0 <= b && b < d.1;
            proof {
                if hit {
                    assert(same_domain(doms@, a, b));
                } else {
                    if same_domain(doms@, a, b) {
                        let j = choose|j: int|
                            0 <= j < doms@.len() && in_domain(#[trigger] doms@[j], a) && in_domain(
                                doms@[j],
                                b,
                            );
                        lemma_domains_disjoint(doms@, low@, high@, cap@, j, k as int, a);
                    }
                }
            }
            return hit;
        }
        k = k + 1;
    }
    proof {
        lemma_domains_cover(doms@, low@, high@, cap@, a);
    }
    false
}

/// Mutable access to the element at `i`, with the vector's new view
/// pinned to whatever the caller leaves in the element.
fn vec_at<'a, T>(v: &'a mut Vec<T>, i: usize) -> (t: &'a mut T)
    requires
        i < old(v).len(),
    ensures
        *t == old(v)@[i as int],
        final(v)@ == old(v)@.update(i as int, *final(t)),
{
    &mut v[i]
}

/// The simulator facade: the configuration, the cores, and the global
/// latency record drained from them.
pub struct Simulator {
    /// The validated configuration the cores were built from.
    pub config: Config,
    /// The simulated cores.
    pub cores: Vec<Core>,
    /// Latencies of all completed requests, in cycles, drained from the
    /// cores after every scheduling round.
    pub latencies: Vec<u64>,
}

/// Whether a whole configuration is admissible: an 8-bit core count of
/// at least one, at least one tenant per core within the 16-bit id
/// space, a positive request rate, and an arrival grid within the
/// caps.  The Zipf skew is judged separately, by the distribution
/// constructor.
pub open spec fn config_ok(c: Config) -> bool {
    &&& 1 <= c.max_cores <= 255
    &&& c.max_cores <= c.num_tenants <= 65534
    &&& c.req_rate >= 1
    &&& crate::dispatcher::spec_horizon_ok(c.req_rate, c.num_reqs)
}

/// The simulator invariant: one well-formed core per configured id.
pub open spec fn sim_wf(s: Simulator) -> bool {
    &&& s.cores.len() == s.config.max_cores
    &&& forall|i: int| 0 <= i < s.cores.len() ==> wf(#[trigger] s.cores@[i])
    &&& forall|i: int| 0 <= i < s.cores.len() ==> (#[trigger] s.cores@[i]).core_id == i
}

impl Simulator {
    /// Build a simulator from a configuration, validating it and
    /// constructing every core; the first configuration error aborts
    /// construction.
    pub fn new(config: Config) -> (r: Result<Simulator, ConfigError>)
        ensures
            (r is Ok) <==> config_ok(config) && (config.distribution == Distribution::Uniform
                || sampling::spec_skew_ok(config.tenant_skew@)),
            r matches Ok(s) ==> {
                &&& sim_wf(s)
                &&& s.config == config
                &&& s.latencies@.len() == 0
                &&& forall|i: int|
                    0 <= i < s.cores.len() ==> spec_core_fresh(
                        #[trigger] s.cores@[i],
                        config,
                        i as u8,
                        config.max_cores,
                    )
            },
            (config.max_cores == 0 || config.max_cores > 255) ==> r == Err::<Simulator, _>(
                ConfigError::BadCoreCount,
            ),
    {
        let mut sim = Simulator { config, cores: Vec::new(), latencies: Vec::new() };
        match sim.core_init() {
            Ok(()) => Ok(sim),
            Err(e) => Err(e),
        }
    }

    /// Build the cores, one per configured id.
    pub fn core_init(&mut self) -> (r: Result<(), ConfigError>)
        requires
            old(self).cores.len() == 0,
        ensures
            final(self).config == old(self).config,
            final(self).latencies == old(self).latencies,
            (r is Ok) <==> config_ok(old(self).config) && (old(self).config.distribution
                == Distribution::Uniform || sampling::spec_skew_ok(old(self).config.tenant_skew@)),
            r matches Ok(()) ==> {
                &&& sim_wf(*final(self))
                &&& forall|i: int|
                    0 <= i < final(self).cores.len() ==> spec_core_fresh(
                        #[trigger] final(self).cores@[i],
                        old(self).config,
                        i as u8,
                        old(self).config.max_cores,
                    )
            },
            (old(self).config.max_cores == 0 || old(self).config.max_cores > 255) ==> r == Err::<
                (),
                _,
            >(ConfigError::BadCoreCount),
    {
        if self.config.max_cores == 0 || self.config.max_cores > 255 {
            return Err(ConfigError::BadCoreCount);
        }
        let n = self.config.max_cores;
        let mut i: u64 = 0;
        while i < n
            invariant
                n == self.config.max_cores,
                0 < n <= 255,
                0 <= i <= n,
                self.config == old(self).config,
                self.latencies == old(self).latencies,
                self.cores.len() == i,
                forall|k: int|
                    0 <= k < i ==> spec_core_fresh(
                        #[trigger] self.cores@[k],
                        old(self).config,
                        k as u8,
                        n,
                    ),
                i > 0 ==> config_ok(old(self).config) && (old(self).config.distribution
                    == Distribution::Uniform || sampling::spec_skew_ok(
                    old(self).config.tenant_skew@,
                )),
            decreases n - i,
        {
            match Core::new(i as u8, &self.config, n) {
                Ok(c) => {
                    self.cores.push(c);
                },
                Err(e) => {
                    return Err(e);
                },
            }
            i = i + 1;
        }
        Ok(())
    }

    /// Drive the cores round-robin, one scheduling round each, until
    /// every core has completed its configured response count or the
    /// round budget runs out.  Returns whether every core got there.
    ///
    /// The budget exists so that termination — and freedom from clock
    /// overflow — is provable; a configuration that admits arrivals
    /// faster than it retires them simply exhausts the budget, where
    /// the unbudgeted loop would spin forever.
    pub fn start(&mut self, max_rounds: u64) -> (done: bool)
        requires
            sim_wf(*old(self)),
            max_rounds <= ROUNDS_MAX,
            forall|i: int|
                0 <= i < old(self).cores.len() ==> (#[trigger] old(self).cores@[i]).rdtsc
                    <= HORIZON_CAP,
        ensures
            sim_wf(*final(self)),
            final(self).config == old(self).config,
            done ==> forall|i: int|
                0 <= i < final(self).cores.len() ==> (#[trigger] final(self).cores@[i]).request_processed >= final(self).config.num_resps,
            !done ==> max_rounds == 0 || !(forall|i: int|
                0 <= i < final(self).cores.len() ==> (#[trigger] final(self).cores@[i]).request_processed >= final(self).config.num_resps),
            max_rounds == 0 ==> *final(self) == *old(self),
            forall|i: int|
                0 <= i < final(self).cores.len() ==> (#[trigger] final(self).cores@[i]).request_processed >= old(self).cores@[i].request_processed
                    && final(self).cores@[i].rdtsc >= old(self).cores@[i].rdtsc && final(self).cores@[i].dispatcher.sent >= old(self).cores@[i].dispatcher.sent,
            old(self).latencies@.is_prefix_of(final(self).latencies@),
            max_rounds > 0 ==> forall|i: int|
                0 <= i < final(self).cores.len() ==> (#[trigger] final(self).cores@[i]).latencies@.len() == 0,
            final(self).latencies@.len() + total_pending(final(self).cores@) == old(self).latencies@.len() + total_pending(old(self).cores@)
                + total_processed(final(self).cores@) - total_processed(old(self).cores@),
    {
        let n = self.cores.len();
        let mut round: u64 = 0;
        while round < max_rounds
            invariant
                sim_wf(*self),
                self.config == old(self).config,
                n == self.cores.len(),
                n == old(self).cores.len(),
                0 <= round <= max_rounds,
                max_rounds <= ROUNDS_MAX,
                forall|i: int|
                    0 <= i < self.cores.len() ==> (#[trigger] self.cores@[i]).rdtsc <= HORIZON_CAP
                        + round * RUN_COST_BOUND,
                round > 0 ==> !(forall|i: int|
                    0 <= i < self.cores.len() ==> (#[trigger] self.cores@[i]).request_processed
                        >= self.config.num_resps),
                round == 0 ==> *self == *old(self),
                forall|i: int|
                    0 <= i < self.cores.len() ==> (#[trigger] self.cores@[i]).request_processed >= old(self).cores@[i].request_processed
                        && self.cores@[i].rdtsc >= old(self).cores@[i].rdtsc && self.cores@[i].dispatcher.sent >= old(self).cores@[i].dispatcher.sent,
                old(self).latencies@.is_prefix_of(self.latencies@),
                round > 0 ==> forall|i: int|
                    0 <= i < self.cores.len() ==> (#[trigger] self.cores@[i]).latencies@.len() == 0,
                self.latencies@.len() + total_pending(self.cores@) == old(self).latencies@.len() + total_pending(old(self).cores@)
                    + total_processed(self.cores@) - total_processed(old(self).cores@),
            decreases max_rounds - round,
        {
            let mut c: usize = 0;
            while c < n
                invariant
                    sim_wf(*self),
                    self.config == old(self).config,
                    n == self.cores.len(),
                    n == old(self).cores.len(),
                    0 <= c <= n,
                    round < max_rounds <= ROUNDS_MAX,
                    forall|i: int|
                        c <= i < self.cores.len() ==> (#[trigger] self.cores@[i]).rdtsc
                            <= HORIZON_CAP + round * RUN_COST_BOUND,
                    forall|i: int|
                        0 <= i < c ==> (#[trigger] self.cores@[i]).rdtsc <= HORIZON_CAP + (round
                            + 1) * RUN_COST_BOUND,
                    forall|i: int|
                        0 <= i < c ==> (#[trigger] self.cores@[i]).latencies@.len() == 0,
                    forall|i: int|
                        0 <= i < self.cores.len() ==> (#[trigger] self.cores@[i]).request_processed >= old(self).cores@[i].request_processed
                            && self.cores@[i].rdtsc >= old(self).cores@[i].rdtsc && self.cores@[i].dispatcher.sent >= old(self).cores@[i].dispatcher.sent,
                    old(self).latencies@.is_prefix_of(self.latencies@),
                    self.latencies@.len() + total_pending(self.cores@) == old(self).latencies@.len() + total_pending(old(self).cores@)
                        + total_processed(self.cores@) - total_processed(old(self).cores@),
                decreases n - c,
            {
                let ghost cores_pre = self.cores@;
                let cref = vec_at(&mut self.cores, c);
                proof {
                    assert(round * RUN_COST_BOUND <= ROUNDS_MAX * RUN_COST_BOUND)
                        by (nonlinear_arith)
                        requires
                            0 <= round <= ROUNDS_MAX,
                    ;
                    let d = cref.dispatcher;
                    assert((d.num_requests + 1) * d.rate_inv <= (d.num_requests + 2) * d.rate_inv)
                        by (nonlinear_arith)
                        requires
                            d.rate_inv >= 0,
                            d.num_requests >= 0,
                    ;
                }
                cref.run();
                self.latencies.append(&mut cref.latencies);
                proof {
                    assert((round + 1) * RUN_COST_BOUND == round * RUN_COST_BOUND
                        + RUN_COST_BOUND) by (nonlinear_arith);
                    lemma_total_pending_update(cores_pre, c as int, self.cores@[c as int]);
                    lemma_total_processed_update(cores_pre, c as int, self.cores@[c as int]);
                }
                c = c + 1;
            }
            let mut all_done = true;
            let mut c2: usize = 0;
            while c2 < n
                invariant
                    sim_wf(*self),
                    n == self.cores.len(),
                    n == old(self).cores.len(),
                    0 <= c2 <= n,
                    round < max_rounds,
                    self.config == old(self).config,
                    all_done <==> (forall|i: int|
                        0 <= i < c2 ==> (#[trigger] self.cores@[i]).request_processed
                            >= self.config.num_resps),
                    forall|i: int|
                        0 <= i < self.cores.len() ==> (#[trigger] self.cores@[i]).rdtsc
                            <= HORIZON_CAP + (round + 1) * RUN_COST_BOUND,
                    forall|i: int|
                        0 <= i < self.cores.len() ==> (#[trigger] self.cores@[i]).latencies@.len()
                            == 0,
                    forall|i: int|
                        0 <= i < self.cores.len() ==> (#[trigger] self.cores@[i]).request_processed >= old(self).cores@[i].request_processed
                            && self.cores@[i].rdtsc >= old(self).cores@[i].rdtsc && self.cores@[i].dispatcher.sent >= old(self).cores@[i].dispatcher.sent,
                    old(self).latencies@.is_prefix_of(self.latencies@),
                    self.latencies@.len() + total_pending(self.cores@) == old(self).latencies@.len() + total_pending(old(self).cores@)
                        + total_processed(self.cores@) - total_processed(old(self).cores@),
                decreases n - c2,
            {
                if self.cores[c2].request_processed < self.config.num_resps {
                    all_done = false;
                }
                c2 = c2 + 1;
            }
            if all_done {
                return true;
            }
            round = round + 1;
        }
        false
    }

    /// Sort the drained latencies in place and return the pair
    /// `(median, 99th percentile)` in cycles, or `None` when nothing
    /// completed yet.
    pub fn latency_stats(&mut self) -> (r: Option<(u64, u64)>)
        ensures
            final(self).cores == old(self).cores,
            final(self).config == old(self).config,
            final(self).latencies@.to_multiset() == old(self).latencies@.to_multiset(),
            final(self).latencies@.len() == old(self).latencies@.len(),
            crate::stats::sorted(final(self).latencies@),
            (r is Some) <==> old(self).latencies@.len() > 0,
            r matches Some(mt) ==> mt.0 == crate::stats::spec_median(final(self).latencies@)
                && mt.1 == crate::stats::spec_tail(final(self).latencies@),
    {
        crate::stats::latency_summary(&mut self.latencies)
    }
}

/// The total number of requests the given cores have completed.
pub open spec fn total_processed(cs: Seq<Core>) -> int
    decreases cs.len(),
{
    if cs.len() == 0 {
        0
    } else {
        cs[0].request_processed + total_processed(cs.drop_first())
    }
}

/// The completion latencies still sitting in the given cores, not yet
/// drained into the simulator's global record.
pub open spec fn total_pending(cs: Seq<Core>) -> int
    decreases cs.len(),
{
    if cs.len() == 0 {
        0
    } else {
        cs[0].latencies@.len() + total_pending(cs.drop_first())
    }
}

/// Replacing one core changes the completion total by the difference
/// of that core's counts.
pub proof fn lemma_total_processed_update(cs: Seq<Core>, k: int, c: Core)
    requires
        0 <= k < cs.len(),
    ensures
        total_processed(cs.update(k, c)) == total_processed(cs) - cs[k].request_processed
            + c.request_processed,
    decreases cs.len(),
{
    if k == 0 {
        assert(cs.update(0, c).drop_first() =~= cs.drop_first());
    } else {
        assert(cs.update(k, c).drop_first() =~= cs.drop_first().update(k - 1, c));
        lemma_total_processed_update(cs.drop_first(), k - 1, c);
    }
}

/// Replacing one core changes the pending-latency total by the
/// difference of that core's counts.
pub proof fn lemma_total_pending_update(cs: Seq<Core>, k: int, c: Core)
    requires
        0 <= k < cs.len(),
    ensures
        total_pending(cs.update(k, c)) == total_pending(cs) - cs[k].latencies@.len()
            + c.latencies@.len(),
    decreases cs.len(),
{
    if k == 0 {
        assert(cs.update(0, c).drop_first() =~= cs.drop_first());
    } else {
        assert(cs.update(k, c).drop_first() =~= cs.drop_first().update(k - 1, c));
        lemma_total_pending_update(cs.drop_first(), k - 1, c);
    }
}

/// When every core has completed exactly `k` requests, the total over
/// all cores is `k` times the core count — with `k` the configured
/// response count, the simulation as a whole completed
/// `num_resps x max_cores` requests.
pub proof fn lemma_uniform_processed_sum(cs: Seq<Core>, k: u64)
    requires
        forall|i: int| 0 <= i < cs.len() ==> (#[trigger] cs[i]).request_processed == k,
    ensures
        total_processed(cs) == k * cs.len(),
    decreases cs.len(),
{
    if cs.len() == 0 {
        assert(k * 0 == 0) by (nonlinear_arith);
    } else {
        assert(forall|i: int| 0 <= i < cs.drop_first().len() ==> (#[trigger] cs.drop_first()[i])
            == cs[i + 1]);
        lemma_uniform_processed_sum(cs.drop_first(), k);
        assert(k * cs.len() == k + k * (cs.len() - 1)) by (nonlinear_arith);
    }
}

/// A core whose run queues are all empty has nothing outstanding: at
/// the end of a simulation that drained every queue, `outstanding`
/// is 0.
pub proof fn lemma_drained_core_is_settled(c: Core)
    requires
        wf(c),
        forall|i: int| 0 <= i < c.tenants.len() ==> (#[trigger] c.tenants@[i]).queued().len() == 0,
    ensures
        c.outstanding == 0,
{
    lemma_total_queued_zero(c.tenants@);
}

/// Under no isolation, the clock splits exactly into idle skips, pure
/// service, and the no-isolation preemption overhead per preemption —
/// context switches contribute nothing.
pub proof fn lemma_no_isolation_accounting(c: Core)
    requires
        wf(c),
        c.isolation == Isolation::NoIsolation,
    ensures
        c.rdtsc == c.idle_cycles + c.service_cycles + c.num_preemptions
            * consts::NOISOLATION_PREEMPTION_OVERHEAD_CYCLES,
{
}

/// Resuming after a preemption is free: when the previous task left
/// the core preempted, the next tenant switch charges no cycles and
/// advances no switch counter, whatever the isolation mode.
pub proof fn lemma_preemption_resume_free(c: Core, tenant: u16)
    requires
        c.last_task_state == TaskState::Preempted,
    ensures
        spec_switch_charge(c, tenant) == 0,
        spec_switch_counters(c, tenant) == (0int, 0int, 0int),
{
}

/// The first-ever activation of a tenant (no tenant active yet) is a
/// full context switch on every mode that charges for switches, and
/// advances the context-switch counter alone.
pub proof fn lemma_cold_start_switch_is_full(c: Core, tenant: u16)
    requires
        c.active_tenant is None,
        c.last_task_state != TaskState::Preempted,
    ensures
        spec_switch_counters(c, tenant) == (1int, 0int, 0int),
        spec_switch_charge(c, tenant) == match c.isolation {
            Isolation::NoIsolation => 0int,
            _ => consts::PAGING_TENANT_SWITCH_CYCLES as int,
        },
{
}

/// Switching to another tenant of the same protection domain is cheap:
/// under MPK only the MPK price is charged and only the MPK counter
/// advances, and likewise for VMFunc — so a core alternating between
/// two tenants of one domain pays the full context-switch price once,
/// at its first activation, and the intra-domain price thereafter.
pub proof fn lemma_intra_domain_switch_is_cheap(c: Core, tenant: u16)
    requires
        c.last_task_state != TaskState::Preempted,
        c.active_tenant != Some(tenant),
        c.isolation == Isolation::MpkIsolation || c.isolation == Isolation::VmfuncIsolation,
        c.active_tenant matches Some(cur) && same_domain(
            if c.isolation == Isolation::MpkIsolation {
                c.mpk_domains@
            } else {
                c.vmfunc_domains@
            },
            cur,
            tenant,
        ),
    ensures
        c.isolation == Isolation::MpkIsolation ==> spec_switch_charge(c, tenant)
            == consts::MPK_TENANT_SWITCH_CYCLES && spec_switch_counters(c, tenant) == (
        0int,
        1int,
        0int,
        ),
        c.isolation == Isolation::VmfuncIsolation ==> spec_switch_charge(c, tenant)
            == consts::VMFUNC_TENANT_SWITCH_CYCLES && spec_switch_counters(c, tenant) == (
        0int,
        0int,
        1int,
        ),
{
}

/// Switching across a protection-domain boundary costs the full
/// context switch and advances the context-switch counter alone — so a
/// core alternating between tenants of different domains pays the full
/// price on every switch and its intra-domain counters never move.
pub proof fn lemma_cross_domain_switch_is_full(c: Core, tenant: u16)
    requires
        c.last_task_state != TaskState::Preempted,
        c.active_tenant != Some(tenant),
        c.active_tenant is Some,
        c.isolation == Isolation::MpkIsolation ==> !same_domain(
            c.mpk_domains@,
            c.active_tenant->Some_0,
            tenant,
        ),
        c.isolation == Isolation::VmfuncIsolation ==> !same_domain(
            c.vmfunc_domains@,
            c.active_tenant->Some_0,
            tenant,
        ),
        c.isolation != Isolation::NoIsolation,
    ensures
        spec_switch_charge(c, tenant) == consts::PAGING_TENANT_SWITCH_CYCLES,
        spec_switch_counters(c, tenant) == (1int, 0int, 0int),
{
}

} // verus!
