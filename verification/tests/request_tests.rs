use simulator::config::Isolation;
use simulator::consts;
use simulator::cycles;
use simulator::request::{Request, TaskState};

#[test]
fn cycle_constants() {
    assert_eq!(cycles::cycles_per_second(), 3_000_000_000);
    assert_eq!(cycles::cycles_per_us(), 3_000);
    assert_eq!(cycles::us_to_cycles(5), consts::QUANTA_CYCLES);
    assert_eq!(cycles::us_to_cycles(1), consts::SHORT_TASK_CYCLES);
    assert_eq!(cycles::us_to_cycles(1000), consts::LONG_TASK_CYCLES);
}

#[test]
fn request_getters() {
    let req = Request::new(7, 42, 3_000);
    assert_eq!(req.get_tenant(), 7);
    assert_eq!(req.start_time(), 42);
    assert_eq!(req.max_time(), 3_000);
    assert_eq!(req.remaining_time(), 3_000);
}

#[test]
fn short_task_completes_in_one_quantum() {
    let mut req = Request::new(1, 0, consts::SHORT_TASK_CYCLES);
    let (time, state) = req.run(&Isolation::NoIsolation);
    assert_eq!(time, consts::SHORT_TASK_CYCLES);
    assert_eq!(state, TaskState::Completed);
}

#[test]
fn boundary_demand_completes_without_preemption() {
    let mut req = Request::new(1, 0, consts::QUANTA_CYCLES);
    let (time, state) = req.run(&Isolation::PageTableIsolation);
    assert_eq!(time, consts::QUANTA_CYCLES);
    assert_eq!(state, TaskState::Completed);
}

#[test]
fn preemption_charges_overhead_per_isolation() {
    let modes = [
        (Isolation::NoIsolation, consts::NOISOLATION_PREEMPTION_OVERHEAD_CYCLES),
        (Isolation::PageTableIsolation, consts::PAGING_PREEMPTION_OVERHEAD_CYCLES),
        (Isolation::MpkIsolation, consts::MPK_PREEMPTION_OVERHEAD_CYCLES),
        (Isolation::VmfuncIsolation, consts::VMFUNC_PREEMPTION_OVERHEAD_CYCLES),
    ];
    for (iso, overhead) in modes.iter() {
        let mut req = Request::new(1, 0, consts::LONG_TASK_CYCLES);
        let (time, state) = req.run(iso);
        assert_eq!(time, consts::QUANTA_CYCLES + overhead);
        assert_eq!(state, TaskState::Preempted);
        assert_eq!(req.remaining_time(), consts::LONG_TASK_CYCLES - consts::QUANTA_CYCLES);
    }
}

#[test]
fn long_task_needs_two_hundred_quanta_under_page_tables() {
    // A 1000 us task against a 5 us quantum: 199 preemptions, then the
    // last quantum completes; the total charge is 200 quanta of service
    // plus 199 page-table preemption overheads.
    let mut req = Request::new(1, 0, consts::LONG_TASK_CYCLES);
    let mut total: u64 = 0;
    let mut preemptions: u64 = 0;
    let mut quanta: u64 = 0;
    loop {
        let (time, state) = req.run(&Isolation::PageTableIsolation);
        total += time;
        quanta += 1;
        match state {
            TaskState::Preempted => preemptions += 1,
            TaskState::Completed => break,
            _ => panic!("unexpected task state"),
        }
    }
    assert_eq!(quanta, 200);
    assert_eq!(preemptions, 199);
    assert_eq!(
        total,
        200 * consts::QUANTA_CYCLES + 199 * consts::PAGING_PREEMPTION_OVERHEAD_CYCLES
    );
}
