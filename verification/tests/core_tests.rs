use simulator::config::{Config, ConfigError, Distribution, Isolation};
use simulator::consts;
use simulator::cores::{build_domains, Core};

fn config(num_tenants: u64, isolation: Isolation) -> Config {
    Config {
        max_cores: 1,
        num_tenants,
        tenant_skew: String::from("1.1"),
        num_reqs: 0,
        num_resps: 0,
        req_rate: 1000,
        batching: false,
        isolation,
        distribution: Distribution::Uniform,
        rng_seed: 5,
    }
}

/// Queue one short-ish task of `cycles` on `tenant` and run it for one
/// quantum, keeping the core's accounting consistent.
fn run_one(core: &mut Core, tenant: u16, cycles: u64) {
    let index = (tenant - core.start_tenant) as usize;
    let now = core.rdtsc;
    core.tenants[index].add_request(now, cycles);
    core.outstanding += 1;
    let req = core.tenants[index].get_request(now).unwrap();
    core.process_request(req, index);
}

#[test]
fn domains_partition_thirty_tenants() {
    let mpk = build_domains(1, 31, consts::MPK_DOMAIN_SIZE);
    assert_eq!(mpk, vec![(1, 16), (16, 31)]);
    let vm = build_domains(1, 31, consts::VMFUNC_DOMAIN_SIZE);
    assert_eq!(vm, vec![(1, 31)]);
}

#[test]
fn domains_cover_uneven_ranges() {
    let mpk = build_domains(1, 33, consts::MPK_DOMAIN_SIZE);
    assert_eq!(mpk, vec![(1, 16), (16, 31), (31, 33)]);
}

#[test]
fn core_new_partitions_tenants() {
    let mut cfg = config(10, Isolation::NoIsolation);
    cfg.max_cores = 3;
    // 10 tenants over 3 cores: slices of 3, the last core absorbing the
    // remainder.
    let c0 = Core::new(0, &cfg, 3).unwrap();
    assert_eq!(c0.get_tenant_limit(), (1, 4));
    let c1 = Core::new(1, &cfg, 3).unwrap();
    assert_eq!(c1.get_tenant_limit(), (4, 7));
    let c2 = Core::new(2, &cfg, 3).unwrap();
    assert_eq!(c2.get_tenant_limit(), (7, 11));
    assert_eq!(c2.tenants.len(), 4);
}

#[test]
fn core_new_rejects_bad_counts() {
    let cfg = config(4, Isolation::NoIsolation);
    assert!(matches!(Core::new(0, &cfg, 0), Err(ConfigError::BadCoreCount)));
    assert!(matches!(Core::new(2, &cfg, 2), Err(ConfigError::BadCoreCount)));
    let cfg = config(1, Isolation::NoIsolation);
    assert!(matches!(Core::new(0, &cfg, 2), Err(ConfigError::BadTenantCount)));
}

#[test]
fn mpk_intra_domain_switches_are_cheap() {
    // 30 tenants, two MPK domains [1,16) and [16,31); alternating
    // between tenants 1 and 2 stays inside the first domain, so only
    // the first-ever activation is a full context switch.
    let cfg = config(30, Isolation::MpkIsolation);
    let mut core = Core::new(0, &cfg, 1).unwrap();
    assert_eq!(core.mpk_domains, vec![(1, 16), (16, 31)]);
    let runs: u64 = 10;
    for i in 0..runs {
        let tenant = if i % 2 == 0 { 1 } else { 2 };
        run_one(&mut core, tenant, consts::SHORT_TASK_CYCLES);
    }
    assert_eq!(core.request_processed, runs);
    assert_eq!(core.num_context_switches, 1);
    assert_eq!(core.num_mpk_switches, runs - 1);
    assert_eq!(
        core.rdtsc,
        consts::PAGING_TENANT_SWITCH_CYCLES + (runs - 1) * consts::MPK_TENANT_SWITCH_CYCLES
            + runs * consts::SHORT_TASK_CYCLES
    );
}

#[test]
fn mpk_cross_domain_switches_cost_full_context() {
    // Tenants 1 and 16 sit in different MPK domains: every switch is a
    // full context switch and no MPK switch is ever counted.
    let cfg = config(30, Isolation::MpkIsolation);
    let mut core = Core::new(0, &cfg, 1).unwrap();
    let runs: u64 = 10;
    for i in 0..runs {
        let tenant = if i % 2 == 0 { 1 } else { 16 };
        run_one(&mut core, tenant, consts::SHORT_TASK_CYCLES);
    }
    assert_eq!(core.request_processed, runs);
    assert_eq!(core.num_mpk_switches, 0);
    assert_eq!(core.num_context_switches, runs);
}

#[test]
fn same_tenant_pays_no_switch() {
    let cfg = config(4, Isolation::PageTableIsolation);
    let mut core = Core::new(0, &cfg, 1).unwrap();
    run_one(&mut core, 1, consts::SHORT_TASK_CYCLES);
    assert_eq!(core.num_context_switches, 1);
    run_one(&mut core, 1, consts::SHORT_TASK_CYCLES);
    // Still the active tenant: no new switch.
    assert_eq!(core.num_context_switches, 1);
}

#[test]
fn preemption_resume_charges_no_switch() {
    // After a preemption, the next quantum of the same tenant resumes
    // the still-loaded context: switch counters do not move and only
    // the quantum plus preemption overhead is charged.
    let cfg = config(4, Isolation::PageTableIsolation);
    let mut core = Core::new(0, &cfg, 1).unwrap();
    let now = core.rdtsc;
    core.tenants[0].add_request(now, consts::LONG_TASK_CYCLES);
    core.outstanding += 1;
    let req = core.tenants[0].get_request(now).unwrap();
    core.process_request(req, 0);
    assert_eq!(core.num_preemptions, 1);
    let switches_before = core.num_context_switches;
    let rdtsc_before = core.rdtsc;
    let req = core.tenants[0].get_request(core.rdtsc).unwrap();
    core.process_request(req, 0);
    assert_eq!(core.num_context_switches, switches_before);
    assert_eq!(core.num_mpk_switches, 0);
    assert_eq!(core.num_vmfunc_switches, 0);
    assert_eq!(
        core.rdtsc - rdtsc_before,
        consts::QUANTA_CYCLES + consts::PAGING_PREEMPTION_OVERHEAD_CYCLES
    );
}

#[test]
fn completion_latency_covers_full_demand() {
    let cfg = config(4, Isolation::VmfuncIsolation);
    let mut core = Core::new(0, &cfg, 1).unwrap();
    let mut quanta: u64 = 0;
    let now = core.rdtsc;
    core.tenants[2].add_request(now, consts::LONG_TASK_CYCLES);
    core.outstanding += 1;
    loop {
        let now = core.rdtsc;
        match core.tenants[2].get_request(now) {
            Some(req) => {
                core.process_request(req, 2);
                quanta += 1;
            },
            None => break,
        }
    }
    assert_eq!(quanta, 200);
    assert_eq!(core.request_processed, 1);
    assert_eq!(core.num_preemptions, 199);
    assert_eq!(core.outstanding, 0);
    assert_eq!(core.latencies.len(), 1);
    assert!(core.latencies[0] >= consts::LONG_TASK_CYCLES);
    assert_eq!(core.latencies[0], core.rdtsc);
}

#[test]
fn switch_overheads_reconstruct_counter_costs() {
    let cfg = config(30, Isolation::MpkIsolation);
    let mut core = Core::new(0, &cfg, 1).unwrap();
    for i in 0..6u64 {
        let tenant = if i % 2 == 0 { 1 } else { 2 };
        run_one(&mut core, tenant, consts::SHORT_TASK_CYCLES);
    }
    let (preempt_cycles, cs_cycles) = core.switch_overheads();
    assert_eq!(preempt_cycles, 0);
    assert_eq!(cs_cycles, 5 * consts::MPK_TENANT_SWITCH_CYCLES as u128);
}

#[test]
fn no_isolation_time_splits_into_service_and_preemptions() {
    // Under no isolation the clock is exactly idle skips plus service
    // plus the no-isolation preemption overhead per preemption.
    let cfg = config(4, Isolation::NoIsolation);
    let mut core = Core::new(0, &cfg, 1).unwrap();
    run_one(&mut core, 1, consts::SHORT_TASK_CYCLES);
    let now = core.rdtsc;
    core.tenants[1].add_request(now, consts::LONG_TASK_CYCLES);
    core.outstanding += 1;
    let req = core.tenants[1].get_request(now).unwrap();
    core.process_request(req, 1);
    assert_eq!(core.num_preemptions, 1);
    assert_eq!(
        core.rdtsc,
        core.idle_cycles + core.service_cycles
            + core.num_preemptions * consts::NOISOLATION_PREEMPTION_OVERHEAD_CYCLES
    );
    assert_eq!(
        core.service_cycles,
        consts::SHORT_TASK_CYCLES + consts::QUANTA_CYCLES
    );
}
