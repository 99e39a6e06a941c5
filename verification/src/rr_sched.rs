//! Round-robin scheduling policy: a single FIFO run queue.

use vstd::prelude::*;

use std::collections::VecDeque;

use crate::request::{Request, TaskState};

verus! {

/// A single-FIFO policy.  Fairness within a tenant is arrival order; the
/// core's iteration order provides fairness across tenants.
pub struct RoundRobin {
    /// Task run queue for this tenant, front at index 0.
    pub rq: VecDeque<Request>,
}

impl RoundRobin {
    /// An empty run queue.
    pub fn new() -> (r: RoundRobin)
        ensures
            r.rq@ =~= Seq::<Request>::empty(),
    {
        RoundRobin { rq: VecDeque::with_capacity(32) }
    }

    /// Admit a new task at the back of the queue.
    pub fn create_task(&mut self, rdtsc: u64, task_time: u64, tenant_id: u16)
        ensures
            final(self).rq@ == old(self).rq@.push(
                Request {
                    tenant_id,
                    start_time: rdtsc,
                    max_time: task_time,
                    remaining_time: task_time,
                    taskstate: TaskState::Runnable,
                },
            ),
    {
        let req = Request::new(tenant_id, rdtsc, task_time);
        self.rq.push_back(req);
    }

    /// Take the task at the front of the queue, if any.
    pub fn pick_next_task(&mut self, _rdtsc: u64) -> (r: Option<Request>)
        ensures
            old(self).rq@.len() == 0 ==> r is None && final(self).rq@ == old(self).rq@,
            old(self).rq@.len() > 0 ==> {
                &&& r == Some(old(self).rq@[0])
                &&& final(self).rq@ == old(self).rq@.drop_first()
            },
    {
        self.rq.pop_front()
    }

    /// Requeue a preempted task at the back of the queue.
    pub fn enqueue_task(&mut self, req: Request)
        ensures
            final(self).rq@ == old(self).rq@.push(req),
    {
        self.rq.push_back(req);
    }
}

} // verus!
