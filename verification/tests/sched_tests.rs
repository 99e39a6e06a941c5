use simulator::consts;
use simulator::cores::CoreType;
use simulator::minos_sched::Minos;
use simulator::mq_sched::MultiQ;
use simulator::request::Request;
use simulator::rr_sched::RoundRobin;
use simulator::sched::SchedPolicy;
use simulator::tenant::Tenant;

#[test]
fn round_robin_is_fifo() {
    let mut rr = RoundRobin::new();
    rr.create_task(0, 100, 1);
    rr.create_task(5, 200, 1);
    let first = rr.pick_next_task(10).unwrap();
    assert_eq!(first.max_time(), 100);
    // A preempted task goes to the back of the queue.
    rr.enqueue_task(first);
    let second = rr.pick_next_task(10).unwrap();
    assert_eq!(second.max_time(), 200);
    let third = rr.pick_next_task(10).unwrap();
    assert_eq!(third.max_time(), 100);
    assert!(rr.pick_next_task(10).is_none());
}

#[test]
fn multi_queue_serves_short_before_deadline() {
    let mut mq = MultiQ::new(1_000);
    mq.create_task(0, 100, 1);
    mq.create_task(0, 200, 1);
    // A preempted (long) task waits in the long queue.
    mq.enqueue_task(Request::new(1, 0, 900));
    // Before the long-queue deadline the short queue is served.
    let t = mq.pick_next_task(0).unwrap();
    assert_eq!(t.max_time(), 100);
    // Once the clock passes the deadline the long queue gets its turn.
    let t = mq.pick_next_task(1_000).unwrap();
    assert_eq!(t.max_time(), 900);
    // With the long queue empty, short tasks flow again.
    let t = mq.pick_next_task(5_000).unwrap();
    assert_eq!(t.max_time(), 200);
    assert!(mq.pick_next_task(5_000).is_none());
}

#[test]
fn multi_queue_serves_long_when_short_empty() {
    let mut mq = MultiQ::new(1_000_000);
    mq.enqueue_task(Request::new(1, 0, 900));
    // The deadline is far away, but the short queue is empty.
    let t = mq.pick_next_task(0).unwrap();
    assert_eq!(t.max_time(), 900);
}

#[test]
fn minos_small_cores_skip_large_tasks() {
    let mut m = Minos::new();
    m.create_task(0, consts::SHORT_TASK_CYCLES, 1);
    m.create_task(0, consts::LONG_TASK_CYCLES, 1);
    // The small core never sees the large task.
    let t = m.pick_next_task(CoreType::Small).unwrap();
    assert_eq!(t.max_time(), consts::SHORT_TASK_CYCLES);
    assert!(m.pick_next_task(CoreType::Small).is_none());
    // The large core drains it.
    let t = m.pick_next_task(CoreType::Large).unwrap();
    assert_eq!(t.max_time(), consts::LONG_TASK_CYCLES);
}

#[test]
fn minos_large_cores_prefer_large_tasks() {
    let mut m = Minos::new();
    m.create_task(0, consts::SHORT_TASK_CYCLES, 1);
    m.create_task(0, consts::LONG_TASK_CYCLES, 1);
    let t = m.pick_next_task(CoreType::Large).unwrap();
    assert_eq!(t.max_time(), consts::LONG_TASK_CYCLES);
    let t = m.pick_next_task(CoreType::Large).unwrap();
    assert_eq!(t.max_time(), consts::SHORT_TASK_CYCLES);
}

#[test]
fn tenant_forwards_to_policy() {
    let mut tenant = Tenant::new(3, SchedPolicy::RoundRobin(RoundRobin::new()));
    assert_eq!(tenant.tenant_id, 3);
    tenant.add_request(10, consts::SHORT_TASK_CYCLES);
    let req = tenant.get_request(10).unwrap();
    assert_eq!(req.get_tenant(), 3);
    assert_eq!(req.start_time(), 10);
    assert_eq!(req.max_time(), consts::SHORT_TASK_CYCLES);
    assert!(tenant.get_request(10).is_none());
    tenant.enqueue_task(req);
    assert!(tenant.get_request(10).is_some());
}
