//! Multi-queue scheduling policy: separate short and long FIFOs.

use vstd::prelude::*;

use std::collections::VecDeque;

use crate::request::{Request, TaskState};

verus! {

/// Two FIFOs shared across tenants: new tasks enter the short queue, and
/// preempted tasks (known to be long) move to the long queue.  The long
/// queue is served whenever the short queue is empty, or at most once per
/// `once_in_cycles` budget window.
///
/// The `next_long_tsc` deadline grows without bound while no long task is
/// served; if long tasks then arrive in a late burst the policy may serve
/// the whole burst before returning to short tasks.
pub struct MultiQ {
    /// Run queue for fresh (assumed short) tasks, front at index 0.
    pub short_rq: VecDeque<Request>,
    /// Run queue for preempted (known long) tasks, front at index 0.
    pub long_rq: VecDeque<Request>,
    /// The budget window: cycles between two long-queue grants.
    pub once_in_cycles: u64,
    /// The cycle count at which the long queue is next owed a grant.
    pub next_long_tsc: u64,
}

/// Whether the long queue is served at time `rdtsc`: the short queue is
/// empty, or a long task is waiting and its budget window has opened.
pub open spec fn spec_serves_long(m: MultiQ, rdtsc: u64) -> bool {
    m.short_rq@.len() == 0 || (rdtsc >= m.next_long_tsc && m.long_rq@.len() > 0)
}

impl MultiQ {
    /// Empty queues, with the first long-queue grant owed after one
    /// budget window.
    pub fn new(once_in_cycles: u64) -> (r: MultiQ)
        ensures
            r.short_rq@ =~= Seq::<Request>::empty(),
            r.long_rq@ =~= Seq::<Request>::empty(),
            r.once_in_cycles == once_in_cycles,
            r.next_long_tsc == once_in_cycles,
    {
        MultiQ {
            short_rq: VecDeque::with_capacity(32),
            long_rq: VecDeque::with_capacity(32),
            once_in_cycles,
            next_long_tsc: once_in_cycles,
        }
    }

    /// Admit a new task at the back of the short queue.
    pub fn create_task(&mut self, rdtsc: u64, task_time: u64, tenant_id: u16)
        ensures
            final(self).short_rq@ == old(self).short_rq@.push(
                Request {
                    tenant_id,
                    start_time: rdtsc,
                    max_time: task_time,
                    remaining_time: task_time,
                    taskstate: TaskState::Runnable,
                },
            ),
            final(self).long_rq@ == old(self).long_rq@,
            final(self).once_in_cycles == old(self).once_in_cycles,
            final(self).next_long_tsc == old(self).next_long_tsc,
    {
        let req = Request::new(tenant_id, rdtsc, task_time);
        self.short_rq.push_back(req);
    }

    /// Take the next task.  When the long queue is due (see
    /// [`spec_serves_long`]) its budget deadline moves forward by one
    /// window (saturating) and its front task, if any, is returned;
    /// otherwise the front of the short queue is returned.
    pub fn pick_next_task(&mut self, rdtsc: u64) -> (r: Option<Request>)
        ensures
            final(self).once_in_cycles == old(self).once_in_cycles,
            spec_serves_long(*old(self), rdtsc) ==> {
                &&& final(self).next_long_tsc == if old(self).next_long_tsc
                    + old(self).once_in_cycles <= u64::MAX {
                    old(self).next_long_tsc + old(self).once_in_cycles
                } else {
                    u64::MAX as int
                }
                &&& final(self).short_rq@ == old(self).short_rq@
                &&& if old(self).long_rq@.len() > 0 {
                    r == Some(old(self).long_rq@[0]) && final(self).long_rq@ == old(self).long_rq@.drop_first()
                } else {
                    r is None && final(self).long_rq@ == old(self).long_rq@
                }
            },
            !spec_serves_long(*old(self), rdtsc) ==> {
                &&& final(self).next_long_tsc == old(self).next_long_tsc
                &&& final(self).long_rq@ == old(self).long_rq@
                &&& r == Some(old(self).short_rq@[0])
                &&& final(self).short_rq@ == old(self).short_rq@.drop_first()
            },
    {
        if self.short_rq.len() == 0 || (rdtsc >= self.next_long_tsc && self.long_rq.len() > 0) {
            self.next_long_tsc = self.next_long_tsc.saturating_add(self.once_in_cycles);
            self.long_rq.pop_front()
        } else {
            self.short_rq.pop_front()
        }
    }

    /// Requeue a preempted task at the front of the long queue, so long
    /// tasks run first-come-first-served among themselves.
    pub fn enqueue_task(&mut self, req: Request)
        ensures
            final(self).long_rq@ == seq![req] + old(self).long_rq@,
            final(self).short_rq@ == old(self).short_rq@,
            final(self).once_in_cycles == old(self).once_in_cycles,
            final(self).next_long_tsc == old(self).next_long_tsc,
    {
        self.long_rq.push_front(req);
    }
}

} // verus!
