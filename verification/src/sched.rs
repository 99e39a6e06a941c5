//! The pluggable run-queue discipline used by a tenant.
//!
//! Policies expose three operations — admit a new task, pick the next
//! task, and requeue a preempted task — and are dispatched as a tagged
//! variant.

use vstd::prelude::*;

use crate::minos_sched::Minos;
use crate::mq_sched::MultiQ;
use crate::request::{Request, TaskState};
use crate::cores::CoreType;

verus! {

/// A scheduling policy: round-robin, multi-queue, or size-aware.
pub enum SchedPolicy {
    /// Single FIFO per tenant.
    RoundRobin(crate::rr_sched::RoundRobin),
    /// Short/long FIFOs with a budget window for the long queue.
    MultiQ(MultiQ),
    /// Small/large FIFOs dispatched by core type.
    Minos(Minos),
}

/// The request a policy builds when admitting a task.
pub open spec fn spec_new_request(tenant_id: u16, rdtsc: u64, task_time: u64) -> Request {
    Request {
        tenant_id,
        start_time: rdtsc,
        max_time: task_time,
        remaining_time: task_time,
        taskstate: TaskState::Runnable,
    }
}

/// Every request a policy holds, in queue order (front of the first
/// queue first, then the second queue where the policy has one).
pub open spec fn all_requests(p: SchedPolicy) -> Seq<Request> {
    match p {
        SchedPolicy::RoundRobin(s) => s.rq@,
        SchedPolicy::MultiQ(m) => m.short_rq@ + m.long_rq@,
        SchedPolicy::Minos(m) => m.small_rq@ + m.large_rq@,
    }
}

impl SchedPolicy {
    /// Admit a new task created at core time `rdtsc` with `task_time`
    /// cycles of demand for `tenant_id`.  The task enters one of the
    /// policy's queues; seen as one sequence, some single insertion
    /// happened.
    pub fn create_task(&mut self, rdtsc: u64, task_time: u64, tenant_id: u16)
        ensures
            exists|j: int|
                0 <= j <= all_requests(*old(self)).len() && all_requests(*final(self))
                    == all_requests(*old(self)).insert(
                    j,
                    spec_new_request(tenant_id, rdtsc, task_time),
                ),
            all_requests(*final(self)).len() == all_requests(*old(self)).len() + 1,
    {
        let ghost req = spec_new_request(tenant_id, rdtsc, task_time);
        match self {
            SchedPolicy::RoundRobin(s) => {
                s.create_task(rdtsc, task_time, tenant_id);
                proof {
                    assert(all_requests(*self) =~= all_requests(*old(self)).insert(
                        all_requests(*old(self)).len() as int,
                        req,
                    ));
                }
            },
            SchedPolicy::MultiQ(m) => {
                let ghost j = m.short_rq@.len() as int;
                m.create_task(rdtsc, task_time, tenant_id);
                proof {
                    assert(all_requests(*self) =~= all_requests(*old(self)).insert(j, req));
                }
            },
            SchedPolicy::Minos(m) => {
                let ghost j = m.small_rq@.len() as int;
                m.create_task(rdtsc, task_time, tenant_id);
                proof {
                    if task_time == crate::consts::SHORT_TASK_CYCLES {
                        assert(all_requests(*self) =~= all_requests(*old(self)).insert(j, req));
                    } else {
                        assert(all_requests(*self) =~= all_requests(*old(self)).insert(
                            all_requests(*old(self)).len() as int,
                            req,
                        ));
                    }
                }
            },
        }
    }

    /// Pick the next task at core time `rdtsc`.  A size-aware policy
    /// driven through a tenant serves as a large core: it prefers its
    /// large queue and falls back to the small one.
    ///
    /// Seen as one sequence, either nothing was removed and `None` comes
    /// back, or exactly the returned request was removed.
    pub fn pick_next_task(&mut self, rdtsc: u64) -> (r: Option<Request>)
        ensures
            r is None ==> all_requests(*final(self)) == all_requests(*old(self))
                && all_requests(*old(self)).len() == 0,
            r matches Some(req) ==> exists|j: int|
                0 <= j < all_requests(*old(self)).len() && all_requests(*old(self))[j] == req
                    && all_requests(*final(self)) == all_requests(*old(self)).remove(j),
    {
        match self {
            SchedPolicy::RoundRobin(s) => {
                let r = s.pick_next_task(rdtsc);
                proof {
                    if r is Some {
                        assert(all_requests(*self) =~= all_requests(*old(self)).remove(0));
                    }
                }
                r
            },
            SchedPolicy::MultiQ(m) => {
                let ghost m_old = *m;
                let ghost j = m.short_rq@.len() as int;
                let r = m.pick_next_task(rdtsc);
                proof {
                    if r is Some {
                        if crate::mq_sched::spec_serves_long(m_old, rdtsc) {
                            assert(all_requests(*self) =~= all_requests(*old(self)).remove(j));
                        } else {
                            assert(all_requests(*self) =~= all_requests(*old(self)).remove(0));
                        }
                    } else {
                        assert(all_requests(*self) =~= all_requests(*old(self)));
                    }
                }
                r
            },
            SchedPolicy::Minos(m) => {
                let ghost m_old = *m;
                let ghost j = m.small_rq@.len() as int;
                let r = m.pick_next_task(CoreType::Large);
                proof {
                    if r is Some {
                        if m_old.large_rq@.len() > 0 {
                            assert(all_requests(*self) =~= all_requests(*old(self)).remove(j));
                        } else {
                            assert(all_requests(*self) =~= all_requests(*old(self)).remove(0));
                        }
                    } else {
                        assert(all_requests(*self) =~= all_requests(*old(self)));
                    }
                }
                r
            },
        }
    }

    /// Requeue a preempted task.  Seen as one sequence, exactly `req`
    /// was inserted somewhere.
    pub fn enqueue_task(&mut self, req: Request)
        ensures
            exists|j: int|
                0 <= j <= all_requests(*old(self)).len() && all_requests(*final(self))
                    == all_requests(*old(self)).insert(j, req),
            all_requests(*final(self)).len() == all_requests(*old(self)).len() + 1,
    {
        match self {
            SchedPolicy::RoundRobin(s) => {
                s.enqueue_task(req);
                proof {
                    assert(all_requests(*self) =~= all_requests(*old(self)).insert(
                        all_requests(*old(self)).len() as int,
                        req,
                    ));
                }
            },
            SchedPolicy::MultiQ(m) => {
                let ghost j = m.short_rq@.len() as int;
                m.enqueue_task(req);
                proof {
                    assert(all_requests(*self) =~= all_requests(*old(self)).insert(j, req));
                }
            },
            SchedPolicy::Minos(m) => {
                let ghost j = m.small_rq@.len() as int;
                m.enqueue_task(req);
                proof {
                    assert(all_requests(*self) =~= all_requests(*old(self)).insert(j, req));
                }
            },
        }
    }
}

} // verus!
