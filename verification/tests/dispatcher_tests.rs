use simulator::config::{Config, ConfigError, Distribution, Isolation};
use simulator::dispatcher::Dispatch;

fn base_config() -> Config {
    Config {
        max_cores: 1,
        num_tenants: 4,
        tenant_skew: String::from("1.1"),
        num_reqs: 10,
        num_resps: 10,
        req_rate: 1000,
        batching: false,
        isolation: Isolation::NoIsolation,
        distribution: Distribution::Uniform,
        rng_seed: 11,
    }
}

#[test]
fn arrivals_follow_the_grid() {
    let config = base_config();
    let mut d = Dispatch::new(&config, 1, 5, 11).unwrap();
    // rate 1000/s at 3 GHz: one arrival every 3,000,000 cycles.
    assert_eq!(d.get_next(), 0);
    let t = d.generate_request(0);
    assert!(t.is_some());
    let t = t.unwrap();
    assert!((1..5).contains(&t));
    assert_eq!(d.get_next(), 3_000_000);
    // The next grid point has not been reached yet.
    assert!(d.generate_request(2_999_999).is_none());
    assert!(d.generate_request(3_000_000).is_some());
    assert_eq!(d.get_next(), 6_000_000);
}

#[test]
fn arrival_budget_exhausts() {
    let mut config = base_config();
    config.num_reqs = 0;
    let mut d = Dispatch::new(&config, 1, 5, 11).unwrap();
    // The grid starts at zero, so one arrival is admitted.
    assert!(d.generate_request(u64::MAX).is_some());
    assert!(d.generate_request(u64::MAX).is_none());
    assert!(d.generate_request(u64::MAX).is_none());
}

#[test]
fn zero_rate_is_rejected() {
    let mut config = base_config();
    config.req_rate = 0;
    assert!(matches!(Dispatch::new(&config, 1, 5, 11), Err(ConfigError::ZeroRequestRate)));
}

#[test]
fn empty_tenant_range_is_rejected() {
    let config = base_config();
    assert!(matches!(Dispatch::new(&config, 5, 5, 11), Err(ConfigError::BadTenantCount)));
}

#[test]
fn unreadable_skew_is_rejected() {
    let mut config = base_config();
    config.distribution = Distribution::Zipf;
    config.tenant_skew = String::from("not a number");
    assert!(matches!(Dispatch::new(&config, 1, 5, 11), Err(ConfigError::BadSkew)));
}

#[test]
fn non_positive_skew_is_rejected() {
    let mut config = base_config();
    config.distribution = Distribution::Zipf;
    config.tenant_skew = String::from("0");
    assert!(matches!(Dispatch::new(&config, 1, 5, 11), Err(ConfigError::BadSkew)));
}

#[test]
fn non_finite_skew_is_rejected() {
    let mut config = base_config();
    config.distribution = Distribution::Zipf;
    config.tenant_skew = String::from("inf");
    assert!(matches!(Dispatch::new(&config, 1, 5, 11), Err(ConfigError::BadSkew)));
}

#[test]
fn oversized_budget_is_rejected() {
    let mut config = base_config();
    config.num_reqs = u64::MAX / 2;
    assert!(matches!(Dispatch::new(&config, 1, 5, 11), Err(ConfigError::HorizonOverflow)));
}

#[test]
fn zipf_samples_are_positive_ranks() {
    let mut config = base_config();
    config.distribution = Distribution::Zipf;
    config.num_reqs = 10_000;
    config.req_rate = 3_000_000_000;
    let mut d = Dispatch::new(&config, 1, 101, 11).unwrap();
    for _ in 0..1_000 {
        let t = d.generate_request(u64::MAX).unwrap();
        assert!((1..=100).contains(&t));
    }
}

#[test]
fn zipf_skew_routes_traffic_to_low_ranks() {
    // Skew 1.1 over 100 tenants: the top ten ranks should carry well
    // over half of a million arrivals.
    let mut config = base_config();
    config.distribution = Distribution::Zipf;
    config.tenant_skew = String::from("1.1");
    config.num_reqs = 1_000_000;
    config.req_rate = 3_000_000_000;
    let mut d = Dispatch::new(&config, 1, 101, 11).unwrap();
    let mut top10: u64 = 0;
    let mut total: u64 = 0;
    loop {
        match d.generate_request(u64::MAX) {
            Some(t) => {
                total += 1;
                if t <= 10 {
                    top10 += 1;
                }
            },
            None => break,
        }
    }
    assert_eq!(total, 1_000_001);
    // Expected share is about 61%; allow the stated 5-point tolerance.
    assert!(top10 * 100 >= total * 55, "top-10 share too small: {top10}/{total}");
    // The tail must still see real traffic: a degenerate sampler that
    // always returned the first rank would fail here.
    assert!(top10 * 100 <= total * 70, "top-10 share too large: {top10}/{total}");
}

#[test]
fn uniform_sampling_spreads_over_the_range() {
    let mut config = base_config();
    config.num_reqs = 1_000;
    config.req_rate = 3_000_000_000;
    let mut d = Dispatch::new(&config, 1, 5, 3).unwrap();
    let mut seen = [false; 5];
    for _ in 0..1_000 {
        let t = d.generate_request(u64::MAX).unwrap();
        seen[t as usize] = true;
    }
    assert!(!seen[0]);
    assert!(seen[1] && seen[2] && seen[3] && seen[4]);
}

#[test]
fn seeded_generators_are_deterministic() {
    let config = base_config();
    let mut a = Dispatch::new(&config, 1, 5, 99).unwrap();
    let mut b = Dispatch::new(&config, 1, 5, 99).unwrap();
    for k in 0..11u64 {
        assert_eq!(a.generate_request(k * 3_000_000), b.generate_request(k * 3_000_000));
    }
}
