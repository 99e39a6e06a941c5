//! Size-aware scheduling policy in the style of Minos: small and large
//! tasks in separate FIFOs, dispatched by core type.

use vstd::prelude::*;

use std::collections::VecDeque;

use crate::consts;
use crate::cores::CoreType;
use crate::request::{Request, TaskState};

verus! {

/// Two FIFOs split by task size.  Small cores serve only the small queue
/// (a large task would block every small one behind it); large cores
/// prefer the large queue and fall back to the small one.
pub struct Minos {
    /// Run queue for small tasks, front at index 0.
    pub small_rq: VecDeque<Request>,
    /// Run queue for large tasks, front at index 0.
    pub large_rq: VecDeque<Request>,
}

impl Minos {
    /// Empty queues.
    pub fn new() -> (r: Minos)
        ensures
            r.small_rq@ =~= Seq::<Request>::empty(),
            r.large_rq@ =~= Seq::<Request>::empty(),
    {
        Minos { small_rq: VecDeque::with_capacity(32), large_rq: VecDeque::with_capacity(32) }
    }

    /// Admit a new task: into the small queue when its demand is the
    /// short service time of the task-size distribution, else into the
    /// large queue.
    pub fn create_task(&mut self, rdtsc: u64, task_time: u64, tenant_id: u16)
        ensures
            ({
                let req = Request {
                    tenant_id,
                    start_time: rdtsc,
                    max_time: task_time,
                    remaining_time: task_time,
                    taskstate: TaskState::Runnable,
                };
                if task_time == consts::SHORT_TASK_CYCLES {
                    final(self).small_rq@ == old(self).small_rq@.push(req) && final(self).large_rq@ == old(self).large_rq@
                } else {
                    final(self).large_rq@ == old(self).large_rq@.push(req) && final(self).small_rq@ == old(self).small_rq@
                }
            }),
    {
        let req = Request::new(tenant_id, rdtsc, task_time);
        if task_time == consts::SHORT_TASK_CYCLES {
            self.small_rq.push_back(req);
        } else {
            self.large_rq.push_back(req);
        }
    }

    /// Take the next task for a core of the given type: small cores only
    /// from the small queue, large cores from the large queue first.
    pub fn pick_next_task(&mut self, coretype: CoreType) -> (r: Option<Request>)
        ensures
            coretype == CoreType::Small ==> {
                &&& final(self).large_rq@ == old(self).large_rq@
                &&& if old(self).small_rq@.len() > 0 {
                    r == Some(old(self).small_rq@[0]) && final(self).small_rq@ == old(self).small_rq@.drop_first()
                } else {
                    r is None && final(self).small_rq@ == old(self).small_rq@
                }
            },
            coretype == CoreType::Large ==> {
                &&& if old(self).large_rq@.len() > 0 {
                    r == Some(old(self).large_rq@[0]) && final(self).large_rq@ == old(self).large_rq@.drop_first() && final(self).small_rq@ == old(self).small_rq@
                } else if old(self).small_rq@.len() > 0 {
                    r == Some(old(self).small_rq@[0]) && final(self).small_rq@ == old(self).small_rq@.drop_first() && final(self).large_rq@ == old(self).large_rq@
                } else {
                    r is None && final(self).small_rq@ == old(self).small_rq@ && final(self).large_rq@ == old(self).large_rq@
                }
            },
    {
        match coretype {
            CoreType::Small => self.small_rq.pop_front(),
            CoreType::Large => {
                if self.large_rq.len() > 0 {
                    self.large_rq.pop_front()
                } else {
                    self.small_rq.pop_front()
                }
            },
        }
    }

    /// Requeue a preempted task at the front of the large queue: a task
    /// that outlived a quantum is large, and large tasks run
    /// first-come-first-served among themselves.
    pub fn enqueue_task(&mut self, req: Request)
        ensures
            final(self).large_rq@ == seq![req] + old(self).large_rq@,
            final(self).small_rq@ == old(self).small_rq@,
    {
        self.large_rq.push_front(req);
    }
}

} // verus!
