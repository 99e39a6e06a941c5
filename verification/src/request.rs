//! A tenant request: one task with a fixed service demand.

use vstd::prelude::*;

use crate::config::Isolation;
use crate::consts;

verus! {

/// The scheduling state of a task.
#[derive(Clone, Copy, Debug, PartialEq, Eq, Structural)]
pub enum TaskState {
    /// Queued and ready to run.
    Runnable,
    /// Currently on a core.
    Running,
    /// Removed at a quantum boundary with demand left.
    Preempted,
    /// All of its service demand has been charged.
    Completed,
}

/// One task: its tenant, admission time, and service demand in cycles.
#[derive(Clone, Copy, Debug)]
pub struct Request {
    /// The id of the owning tenant.
    pub tenant_id: u16,
    /// The core-local cycle count at which the task was admitted.
    pub start_time: u64,
    /// The total service demand, in cycles.
    pub max_time: u64,
    /// The service demand not yet charged, in cycles.
    pub remaining_time: u64,
    /// The current scheduling state.
    pub taskstate: TaskState,
}

/// The preemption overhead, in cycles, charged when a task is forcibly
/// removed at a quantum boundary under the given isolation mode.
pub open spec fn spec_preemption_overhead(isolation: Isolation) -> u64 {
    match isolation {
        Isolation::NoIsolation => consts::NOISOLATION_PREEMPTION_OVERHEAD_CYCLES,
        Isolation::PageTableIsolation => consts::PAGING_PREEMPTION_OVERHEAD_CYCLES,
        Isolation::MpkIsolation => consts::MPK_PREEMPTION_OVERHEAD_CYCLES,
        Isolation::VmfuncIsolation => consts::VMFUNC_PREEMPTION_OVERHEAD_CYCLES,
    }
}

/// Exec mirror of [`spec_preemption_overhead`].
pub fn preemption_overhead(isolation: Isolation) -> (r: u64)
    ensures
        r == spec_preemption_overhead(isolation),
{
    match isolation {
        Isolation::NoIsolation => consts::NOISOLATION_PREEMPTION_OVERHEAD_CYCLES,
        Isolation::PageTableIsolation => consts::PAGING_PREEMPTION_OVERHEAD_CYCLES,
        Isolation::MpkIsolation => consts::MPK_PREEMPTION_OVERHEAD_CYCLES,
        Isolation::VmfuncIsolation => consts::VMFUNC_PREEMPTION_OVERHEAD_CYCLES,
    }
}

/// The service demand already charged for a request.
pub open spec fn consumed(r: Request) -> int {
    r.max_time - r.remaining_time
}

/// A request never owes more service than its total demand.
pub open spec fn request_inv(r: Request) -> bool {
    r.remaining_time <= r.max_time
}

impl Request {
    /// Admit a new task for `tenant` at core time `rdtsc` with a service
    /// demand of `task_time` cycles.
    pub fn new(tenant: u16, rdtsc: u64, task_time: u64) -> (r: Request)
        ensures
            r == (Request {
                tenant_id: tenant,
                start_time: rdtsc,
                max_time: task_time,
                remaining_time: task_time,
                taskstate: TaskState::Runnable,
            }),
    {
        Request {
            tenant_id: tenant,
            start_time: rdtsc,
            max_time: task_time,
            remaining_time: task_time,
            taskstate: TaskState::Runnable,
        }
    }

    /// Run the task for one scheduling quantum.
    ///
    /// If the remaining demand fits in a quantum the task completes and
    /// the elapsed cycles are exactly that demand.  Otherwise one quantum
    /// is charged, the demand shrinks by a quantum, and the preemption
    /// overhead of the isolation mode is charged on top; the overhead
    /// models the IPI, trampoline and context-swap cost of forcibly
    /// removing the task.
    pub fn run(&mut self, isolation: &Isolation) -> (r: (u64, TaskState))
        ensures
            old(self).remaining_time <= consts::QUANTA_CYCLES ==> {
                &&& r.0 == old(self).remaining_time
                &&& r.1 == TaskState::Completed
                &&& *final(self) == (Request {
                    taskstate: TaskState::Completed,
                    ..*old(self)
                })
            },
            old(self).remaining_time > consts::QUANTA_CYCLES ==> {
                &&& r.0 == consts::QUANTA_CYCLES + spec_preemption_overhead(*isolation)
                &&& r.1 == TaskState::Preempted
                &&& *final(self) == (Request {
                    remaining_time: (old(self).remaining_time
                        - consts::QUANTA_CYCLES) as u64,
                    taskstate: TaskState::Preempted,
                    ..*old(self)
                })
            },
    {
        let mut time: u64 = 0;
        if self.remaining_time <= consts::QUANTA_CYCLES {
            time = self.remaining_time;
            self.taskstate = TaskState::Completed;
        } else {
            time = consts::QUANTA_CYCLES + preemption_overhead(*isolation);
            self.remaining_time = self.remaining_time - consts::QUANTA_CYCLES;
            self.taskstate = TaskState::Preempted;
        }
        (time, self.taskstate)
    }

    /// The id of the owning tenant.
    pub fn get_tenant(&self) -> (r: u16)
        ensures
            r == self.tenant_id,
    {
        self.tenant_id
    }

    /// The core-local cycle count at which the task was admitted.
    pub fn start_time(&self) -> (r: u64)
        ensures
            r == self.start_time,
    {
        self.start_time
    }

    /// The total service demand, in cycles.
    pub fn max_time(&self) -> (r: u64)
        ensures
            r == self.max_time,
    {
        self.max_time
    }

    /// The service demand not yet charged, in cycles.
    pub fn remaining_time(&self) -> (r: u64)
        ensures
            r == self.remaining_time,
    {
        self.remaining_time
    }
}

} // verus!
