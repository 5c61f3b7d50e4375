use gateway_core::config::{ProxyEntry, ProxyPoolConfig, ProxySelectionStrategy};
use gateway_core::proxy_pool::{record_health_check, select_proxy};

fn entry(id: &str, priority: i32, enabled: bool, healthy: bool) -> ProxyEntry {
    ProxyEntry {
        id: id.to_string(),
        name: id.to_string(),
        url: format!("http://{}.example:8080", id),
        auth: None,
        enabled,
        priority,
        tags: Vec::new(),
        max_accounts: None,
        health_check_url: None,
        last_check_time: None,
        is_healthy: healthy,
        latency: None,
    }
}

fn pool(proxies: Vec<ProxyEntry>) -> ProxyPoolConfig {
    ProxyPoolConfig { enabled: true, proxies, ..ProxyPoolConfig::default() }
}

#[test]
fn disabled_pool_gives_no_proxy() {
    let mut p = pool(vec![entry("a", 0, true, true)]);
    p.enabled = false;
    assert_eq!(select_proxy(&p, &"acc".to_string(), &vec![0], 0, 0), None);
}

#[test]
fn priority_picks_healthy_preferred_entry() {
    let p = pool(vec![
        entry("a", 2, true, true),
        entry("b", 0, true, false),
        entry("c", 1, true, true),
        entry("d", 0, false, true),
    ]);
    assert_eq!(select_proxy(&p, &"acc".to_string(), &vec![0, 0, 0, 0], 0, 0), Some(2));
}

#[test]
fn bound_entry_wins_while_usable() {
    let mut p = pool(vec![entry("a", 0, true, true), entry("b", 5, true, true)]);
    p.account_bindings = vec![("acc".to_string(), "b".to_string())];
    assert_eq!(select_proxy(&p, &"acc".to_string(), &vec![0, 0], 0, 0), Some(1));
    p.proxies[1].is_healthy = false;
    assert_eq!(select_proxy(&p, &"acc".to_string(), &vec![0, 0], 0, 0), Some(0));
}

#[test]
fn degraded_use_only_with_auto_failover() {
    let mut p = pool(vec![entry("a", 0, true, false), entry("b", 1, false, true)]);
    assert_eq!(select_proxy(&p, &"acc".to_string(), &vec![0, 0], 0, 0), Some(0));
    p.auto_failover = false;
    assert_eq!(select_proxy(&p, &"acc".to_string(), &vec![0, 0], 0, 0), None);
}

#[test]
fn least_connections_on_entries() {
    let mut p = pool(vec![entry("a", 0, true, true), entry("b", 1, true, true)]);
    p.strategy = ProxySelectionStrategy::LeastConnections;
    assert_eq!(select_proxy(&p, &"acc".to_string(), &vec![4, 1], 0, 0), Some(1));
}

#[test]
fn health_check_is_recorded() {
    let mut e = entry("a", 0, true, true);
    record_health_check(&mut e, false, None, 1700000000);
    assert!(!e.is_healthy);
    assert_eq!(e.last_check_time, Some(1700000000));
    record_health_check(&mut e, true, Some(42), 1700000300);
    assert!(e.is_healthy);
    assert_eq!(e.latency, Some(42));
    assert_eq!(e.url, "http://a.example:8080");
}
