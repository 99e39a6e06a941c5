use simulator::config::{Config, ConfigError, Distribution, Isolation};
use simulator::consts;
use simulator::cores::Simulator;
use simulator::stats::sort_cycles;

fn config() -> Config {
    Config {
        max_cores: 1,
        num_tenants: 1,
        tenant_skew: String::from("1.1"),
        num_reqs: 1,
        num_resps: 1,
        req_rate: 1000,
        batching: false,
        isolation: Isolation::NoIsolation,
        distribution: Distribution::Uniform,
        rng_seed: 7,
    }
}

#[test]
fn single_short_task_completes_in_a_microsecond() {
    // One core, one tenant, one response wanted, no isolation: the
    // first arrival is admitted at time zero, drawn short (1 us), and
    // completes in one quantum after the one first-ever activation.
    let mut sim = Simulator::new(config()).unwrap();
    let done = sim.start(10);
    assert!(done);
    assert_eq!(sim.cores[0].request_processed, 1);
    assert_eq!(sim.cores[0].num_preemptions, 0);
    assert_eq!(sim.cores[0].num_context_switches, 1);
    assert_eq!(sim.latencies[0], consts::SHORT_TASK_CYCLES);
}

#[test]
fn idle_core_fast_forwards_to_next_arrival() {
    // At 10 requests/s an arrival is due every 300,000,000 cycles.
    // After the first completes, the core must not busy-loop: its clock
    // jumps to the next arrival instead.
    let mut cfg = config();
    cfg.req_rate = 10;
    cfg.num_reqs = 2;
    cfg.num_resps = 1;
    let mut sim = Simulator::new(cfg).unwrap();
    let done = sim.start(1);
    assert!(done);
    let rate_inv = 3_000_000_000 / 10;
    assert_eq!(sim.cores[0].rdtsc, rate_inv);
    assert_eq!(sim.cores[0].idle_cycles, rate_inv - sim.cores[0].service_cycles);
}

#[test]
fn simulation_drains_all_arrivals() {
    // Two cores, each admitting 11 arrivals (the grid starts at zero)
    // and required to complete all of them: at the end nothing is
    // outstanding anywhere and the completion total is exactly
    // num_resps x max_cores.
    let mut cfg = config();
    cfg.max_cores = 2;
    cfg.num_tenants = 4;
    cfg.num_reqs = 10;
    cfg.num_resps = 11;
    let mut sim = Simulator::new(cfg).unwrap();
    let done = sim.start(100_000);
    assert!(done);
    let mut total: u64 = 0;
    for core in sim.cores.iter() {
        assert_eq!(core.outstanding, 0);
        // every completion was drained into the global record
        assert_eq!(core.latencies.len(), 0);
        total += core.request_processed;
    }
    assert_eq!(total, 11 * 2);
    assert_eq!(sim.latencies.len(), 22);
}

#[test]
fn zero_round_budget_changes_nothing() {
    let mut sim = Simulator::new(config()).unwrap();
    let done = sim.start(0);
    assert!(!done);
    assert_eq!(sim.cores[0].rdtsc, 0);
    assert_eq!(sim.cores[0].request_processed, 0);
    assert_eq!(sim.latencies.len(), 0);
}

#[test]
fn simulator_rejects_unreadable_skew() {
    let mut cfg = config();
    cfg.distribution = Distribution::Zipf;
    cfg.tenant_skew = String::from("steep");
    assert!(matches!(Simulator::new(cfg), Err(ConfigError::BadSkew)));
}

#[test]
fn core_init_builds_one_core_per_id() {
    let mut cfg = config();
    cfg.max_cores = 3;
    cfg.num_tenants = 9;
    let mut sim = Simulator {
        config: cfg,
        cores: Vec::new(),
        latencies: Vec::new(),
    };
    sim.core_init().unwrap();
    assert_eq!(sim.cores.len(), 3);
    for (i, core) in sim.cores.iter().enumerate() {
        assert_eq!(core.core_id as usize, i);
        assert_eq!(core.rdtsc, 0);
        assert_eq!(core.tenants.len(), 3);
    }
}

#[test]
fn simulator_rejects_zero_cores() {
    let mut cfg = config();
    cfg.max_cores = 0;
    assert!(matches!(Simulator::new(cfg), Err(ConfigError::BadCoreCount)));
}

#[test]
fn simulator_rejects_fewer_tenants_than_cores() {
    let mut cfg = config();
    cfg.max_cores = 2;
    cfg.num_tenants = 1;
    assert!(matches!(Simulator::new(cfg), Err(ConfigError::BadTenantCount)));
}

#[test]
fn batching_runs_up_to_eight_tasks_per_tenant() {
    let mut cfg = config();
    cfg.batching = true;
    cfg.num_reqs = 7;
    cfg.num_resps = 8;
    cfg.req_rate = 3_000_000_000;
    let mut sim = Simulator::new(cfg).unwrap();
    let done = sim.start(100);
    assert!(done);
    assert_eq!(sim.cores[0].request_processed, 8);
}

#[test]
fn latency_stats_odd_length() {
    let mut sim = Simulator::new(config()).unwrap();
    sim.latencies = vec![5, 1, 3];
    let (median, tail) = sim.latency_stats().unwrap();
    assert_eq!(sim.latencies, vec![1, 3, 5]);
    assert_eq!(median, 3);
    // index (3 * 99) / 100 == 2 of the sorted array
    assert_eq!(tail, 5);
}

#[test]
fn latency_stats_even_length() {
    let mut sim = Simulator::new(config()).unwrap();
    sim.latencies = vec![4, 1, 3, 2];
    let (median, tail) = sim.latency_stats().unwrap();
    assert_eq!(sim.latencies, vec![1, 2, 3, 4]);
    // the mean of the two middle elements
    assert_eq!(median, 2);
    assert_eq!(tail, 4);
}

#[test]
fn latency_stats_empty() {
    let mut sim = Simulator::new(config()).unwrap();
    assert!(sim.latency_stats().is_none());
}

#[test]
fn sort_cycles_orders_values() {
    let mut v = vec![9, 4, 7, 1, 1, 8, 0];
    sort_cycles(&mut v);
    assert_eq!(v, vec![0, 1, 1, 4, 7, 8, 9]);
}

#[test]
fn zipf_simulation_runs_to_completion() {
    let mut cfg = config();
    cfg.distribution = Distribution::Zipf;
    cfg.num_tenants = 20;
    cfg.num_reqs = 50;
    cfg.num_resps = 40;
    cfg.req_rate = 100_000;
    cfg.isolation = Isolation::MpkIsolation;
    let mut sim = Simulator::new(cfg).unwrap();
    let done = sim.start(1_000_000);
    assert!(done);
    assert!(sim.cores[0].request_processed >= 40);
}
