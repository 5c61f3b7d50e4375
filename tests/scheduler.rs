use gateway_core::config::{ProxySelectionStrategy, ZaiDispatchMode};
use gateway_core::scheduler::{
    Account, DispatchError, DispatchRequest, Scheduler, SchedulerPolicy, Vendor,
};

fn account(id: u64, priority: i32) -> Account {
    Account {
        id,
        vendor: Vendor::Primary,
        enabled: true,
        consumption_percent: 0,
        priority,
        healthy: true,
        in_flight: 0,
        latency_ms: None,
    }
}

fn policy(strategy: ProxySelectionStrategy) -> SchedulerPolicy {
    SchedulerPolicy {
        strategy,
        consumption_threshold: 80,
        dispatch_mode: ZaiDispatchMode::Off,
        fixed_account: None,
        sticky_ttl_secs: 60,
    }
}

fn request(key: Option<&str>, now: u64) -> DispatchRequest {
    DispatchRequest { session_key: key.map(|k| k.to_string()), now, random: 0, exclude: None }
}

#[test]
fn priority_prefers_lowest_then_healthy() {
    let mut b = account(2, 1);
    b.healthy = false;
    let s = Scheduler::new(vec![account(1, 3), b, account(3, 1)]);
    let p = policy(ProxySelectionStrategy::Priority);
    assert_eq!(s.select(&p, &request(None, 0)), Ok(2));
    assert_eq!(s.select(&p, &request(None, 0)), Ok(2));
}

#[test]
fn priority_is_stable_across_dispatches() {
    let mut s = Scheduler::new(vec![account(1, 2), account(2, 1), account(3, 5)]);
    let p = policy(ProxySelectionStrategy::Priority);
    for _ in 0..4 {
        let i = s.dispatch(&p, &request(None, 0)).unwrap();
        assert_eq!(i, 1);
        s.release(i);
    }
}

#[test]
fn round_robin_visits_every_account_once() {
    let mut s = Scheduler::new(vec![account(1, 0), account(2, 0), account(3, 0)]);
    let p = policy(ProxySelectionStrategy::RoundRobin);
    let mut seen = Vec::new();
    for _ in 0..3 {
        seen.push(s.dispatch(&p, &request(None, 0)).unwrap());
    }
    seen.sort();
    assert_eq!(seen, vec![0, 1, 2]);
    assert_eq!(s.cursor, 3);
}

#[test]
fn round_robin_skips_ineligible_accounts() {
    let mut off = account(2, 0);
    off.enabled = false;
    let mut spent = account(3, 0);
    spent.consumption_percent = 90;
    let s = Scheduler::new(vec![account(1, 0), off, spent, account(4, 0)]);
    let p = policy(ProxySelectionStrategy::RoundRobin);
    let mut s2 = s;
    assert_eq!(s2.dispatch(&p, &request(None, 0)), Ok(0));
    assert_eq!(s2.dispatch(&p, &request(None, 0)), Ok(3));
    assert_eq!(s2.dispatch(&p, &request(None, 0)), Ok(0));
}

#[test]
fn least_connections_picks_idle_account() {
    let mut busy = account(1, 0);
    busy.in_flight = 3;
    let s = Scheduler::new(vec![busy, account(2, 5), account(3, 4)]);
    let p = policy(ProxySelectionStrategy::LeastConnections);
    assert_eq!(s.select(&p, &request(None, 0)), Ok(2));
}

#[test]
fn random_uses_the_drawn_number() {
    let s = Scheduler::new(vec![account(1, 0), account(2, 0), account(3, 0)]);
    let p = policy(ProxySelectionStrategy::Random);
    let mut r = request(None, 0);
    r.random = 7;
    assert_eq!(s.select(&p, &r), Ok(1));
}

#[test]
fn weighted_round_robin_favours_low_priority_values() {
    let s = Scheduler::new(vec![account(1, 0), account(2, 9)]);
    let p = policy(ProxySelectionStrategy::WeightedRoundRobin);
    let mut s = s;
    s.cursor = 19;
    assert_eq!(s.select(&p, &request(None, 0)), Ok(0));
    s.cursor = 20;
    assert_eq!(s.select(&p, &request(None, 0)), Ok(1));
    s.cursor = 22;
    assert_eq!(s.select(&p, &request(None, 0)), Ok(0));
}

#[test]
fn slow_accounts_weigh_less() {
    let mut slow = account(1, 0);
    slow.latency_ms = Some(2500);
    let mut s = Scheduler::new(vec![slow, account(2, 0)]);
    let p = policy(ProxySelectionStrategy::WeightedRoundRobin);
    s.cursor = 9;
    assert_eq!(s.select(&p, &request(None, 0)), Ok(0));
    s.cursor = 10;
    assert_eq!(s.select(&p, &request(None, 0)), Ok(1));
    s.cursor = 29;
    assert_eq!(s.select(&p, &request(None, 0)), Ok(1));
    s.cursor = 30;
    assert_eq!(s.select(&p, &request(None, 0)), Ok(0));
}

#[test]
fn empty_pool_has_no_upstream() {
    let s = Scheduler::new(Vec::new());
    let p = policy(ProxySelectionStrategy::Priority);
    assert_eq!(s.select(&p, &request(None, 0)), Err(DispatchError::NoAvailableUpstream));
}

#[test]
fn sticky_session_keeps_its_account() {
    let mut s = Scheduler::new(vec![account(1, 5), account(2, 0), account(3, 0)]);
    let p = policy(ProxySelectionStrategy::RoundRobin);
    let first = s.dispatch(&p, &request(Some("session-a"), 100)).unwrap();
    for t in 101..105 {
        assert_eq!(s.dispatch(&p, &request(Some("session-a"), t)).unwrap(), first);
    }
    let other = s.dispatch(&p, &request(Some("session-b"), 101)).unwrap();
    assert_ne!(other, first);
    assert_eq!(s.pool[first].in_flight, 5);
}

#[test]
fn sticky_binding_expires() {
    let mut s = Scheduler::new(vec![account(1, 0), account(2, 0)]);
    let p = policy(ProxySelectionStrategy::RoundRobin);
    let first = s.dispatch(&p, &request(Some("k"), 0)).unwrap();
    let later = s.dispatch(&p, &request(Some("k"), 60)).unwrap();
    assert_ne!(first, later);
}

#[test]
fn sticky_account_over_threshold_is_left() {
    let mut s = Scheduler::new(vec![account(1, 0), account(2, 1)]);
    let p = policy(ProxySelectionStrategy::Priority);
    let first = s.dispatch(&p, &request(Some("k"), 0)).unwrap();
    assert_eq!(first, 0);
    s.record_consumption(0, 85, 80);
    assert!(!s.pool[0].enabled);
    assert_eq!(s.dispatch(&p, &request(Some("k"), 1)), Ok(1));
}

#[test]
fn fixed_account_overrides_everything() {
    let mut off = account(9, 0);
    off.enabled = false;
    let s = Scheduler::new(vec![account(1, 0), off]);
    let mut p = policy(ProxySelectionStrategy::Priority);
    p.fixed_account = Some(9);
    assert_eq!(s.select(&p, &request(None, 0)), Ok(1));
    p.fixed_account = Some(42);
    assert_eq!(s.select(&p, &request(None, 0)), Ok(0));
}

#[test]
fn excluded_account_is_not_retried() {
    let s = Scheduler::new(vec![account(1, 0), account(2, 1)]);
    let p = policy(ProxySelectionStrategy::Priority);
    let mut r = request(None, 0);
    r.exclude = Some(1);
    assert_eq!(s.select(&p, &r), Ok(1));
}

fn secondary(id: u64) -> Account {
    let mut a = account(id, 0);
    a.vendor = Vendor::Secondary;
    a
}

#[test]
fn dispatch_modes_shape_the_candidates() {
    let mut p = policy(ProxySelectionStrategy::Priority);
    let s = Scheduler::new(vec![account(1, 3), secondary(2)]);
    p.dispatch_mode = ZaiDispatchMode::Off;
    assert_eq!(s.select(&p, &request(None, 0)), Ok(0));
    p.dispatch_mode = ZaiDispatchMode::Exclusive;
    assert_eq!(s.select(&p, &request(None, 0)), Ok(1));
    p.dispatch_mode = ZaiDispatchMode::Pooled;
    assert_eq!(s.select(&p, &request(None, 0)), Ok(1));
    p.dispatch_mode = ZaiDispatchMode::Fallback;
    assert_eq!(s.select(&p, &request(None, 0)), Ok(0));
    let mut off = account(1, 3);
    off.enabled = false;
    let s2 = Scheduler::new(vec![off, secondary(2)]);
    assert_eq!(s2.select(&p, &request(None, 0)), Ok(1));
}

#[test]
fn release_decrements_in_flight() {
    let mut s = Scheduler::new(vec![account(1, 0)]);
    let p = policy(ProxySelectionStrategy::Priority);
    let i = s.dispatch(&p, &request(None, 0)).unwrap();
    assert_eq!(s.pool[i].in_flight, 1);
    s.release(i);
    assert_eq!(s.pool[i].in_flight, 0);
    s.release(i);
    assert_eq!(s.pool[i].in_flight, 0);
}
