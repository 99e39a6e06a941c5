//! A tenant: one request owner with its scheduling policy.

use vstd::prelude::*;

use crate::request::Request;
use crate::sched::{all_requests, spec_new_request, SchedPolicy};

verus! {

/// A tenant owns a scheduling policy holding its queued requests.  It
/// never chooses between tasks itself; the policy does.
pub struct Tenant {
    /// The run-queue discipline for this tenant's tasks.
    pub sched: SchedPolicy,
    /// The id of this tenant.
    pub tenant_id: u16,
}

impl Tenant {
    /// Every request this tenant holds, in queue order.
    pub open spec fn queued(self) -> Seq<Request> {
        all_requests(self.sched)
    }

    /// A tenant with the given id and policy, holding no requests yet.
    pub fn new(tenant: u16, policy: SchedPolicy) -> (r: Tenant)
        ensures
            r.tenant_id == tenant,
            r.sched == policy,
    {
        Tenant { sched: policy, tenant_id: tenant }
    }

    /// Admit a new request created at core time `rdtsc` with `task_time`
    /// cycles of demand.
    pub fn add_request(&mut self, rdtsc: u64, task_time: u64)
        ensures
            final(self).tenant_id == old(self).tenant_id,
            exists|j: int|
                0 <= j <= old(self).queued().len() && final(self).queued() == old(self).queued().insert(
                    j,
                    spec_new_request(old(self).tenant_id, rdtsc, task_time),
                ),
            final(self).queued().len() == old(self).queued().len() + 1,
    {
        let tenant_id = self.tenant_id;
        self.sched.create_task(rdtsc, task_time, tenant_id);
        proof {
            let j = choose|j: int|
                0 <= j <= all_requests(old(self).sched).len() && all_requests(self.sched)
                    == all_requests(old(self).sched).insert(
                    j,
                    spec_new_request(tenant_id, rdtsc, task_time),
                );
            assert(self.queued() == old(self).queued().insert(
                j,
                spec_new_request(old(self).tenant_id, rdtsc, task_time),
            ));
        }
    }

    /// Take the next request to run at core time `rdtsc`, if any.
    pub fn get_request(&mut self, rdtsc: u64) -> (r: Option<Request>)
        ensures
            final(self).tenant_id == old(self).tenant_id,
            r is None ==> final(self).queued() == old(self).queued() && old(self).queued().len()
                == 0,
            r matches Some(req) ==> exists|j: int|
                0 <= j < old(self).queued().len() && old(self).queued()[j] == req && final(self).queued() == old(self).queued().remove(j),
    {
        let r = self.sched.pick_next_task(rdtsc);
        proof {
            if let Some(req) = r {
                let j = choose|j: int|
                    0 <= j < all_requests(old(self).sched).len() && all_requests(
                        old(self).sched,
                    )[j] == req && all_requests(self.sched) == all_requests(
                        old(self).sched,
                    ).remove(j);
                assert(0 <= j < old(self).queued().len() && old(self).queued()[j] == req
                    && self.queued() == old(self).queued().remove(j));
            }
        }
        r
    }

    /// Requeue a preempted request.
    pub fn enqueue_task(&mut self, req: Request)
        ensures
            final(self).tenant_id == old(self).tenant_id,
            exists|j: int|
                0 <= j <= old(self).queued().len() && final(self).queued() == old(self).queued().insert(j, req),
            final(self).queued().len() == old(self).queued().len() + 1,
    {
        self.sched.enqueue_task(req);
        proof {
            let j = choose|j: int|
                0 <= j <= all_requests(old(self).sched).len() && all_requests(self.sched)
                    == all_requests(old(self).sched).insert(j, req);
            assert(self.queued() == old(self).queued().insert(j, req));
        }
    }
}

} // verus!
