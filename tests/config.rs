use gateway_core::adapter::{lookup_mapping, set_mapping};
use gateway_core::config::{
    get_antigravity_identity_content, get_claude_thinking_mapping_enabled,
    get_endpoint_proxy_config, get_image_thinking_mode, get_punctuation_config,
    get_stream_handling_config, get_thinking_budget_config, host_header_from_parsed,
    normalize_proxy_url, resolve_endpoint_proxy_host_header, update_antigravity_identity_config,
    update_claude_thinking_mapping_enabled, update_image_thinking_mode,
    update_thinking_budget_config, AntigravityIdentityConfig, ConfigStore, EndpointProxyConfig,
    ProxyConfig, ThinkingBudgetConfig, ThinkingBudgetMode, DEFAULT_ANTIGRAVITY_IDENTITY_CONTENT,
};

#[test]
fn test_normalize_proxy_url() {
    assert_eq!(
        normalize_proxy_url("http://127.0.0.1:7890"),
        "http://127.0.0.1:7890"
    );
    assert_eq!(normalize_proxy_url("https://proxy.com"), "https://proxy.com");
    assert_eq!(
        normalize_proxy_url("socks5://127.0.0.1:1080"),
        "socks5://127.0.0.1:1080"
    );
    assert_eq!(
        normalize_proxy_url("socks5h://127.0.0.1:1080"),
        "socks5h://127.0.0.1:1080"
    );
    assert_eq!(normalize_proxy_url("127.0.0.1:7890"), "http://127.0.0.1:7890");
    assert_eq!(normalize_proxy_url("localhost:1082"), "http://localhost:1082");
    assert_eq!(normalize_proxy_url(""), "");
    assert_eq!(normalize_proxy_url("   "), "");
}

#[test]
fn store_reads_defaults_until_set() {
    let mut store = ConfigStore::new();
    let tb = get_thinking_budget_config(&store);
    assert_eq!(tb.mode, ThinkingBudgetMode::Auto);
    assert_eq!(tb.custom_value, 24576);
    assert!(get_claude_thinking_mapping_enabled(&store));
    assert_eq!(get_image_thinking_mode(&store), "enabled");
    let sh = get_stream_handling_config(&store);
    assert!(sh.fake_non_stream && sh.enable_fake_streaming);
    let pc = get_punctuation_config(&store);
    assert!(!pc.normalize);
    assert_eq!(pc.exclude_tags, "code,pre,script,style");
    assert!(!get_endpoint_proxy_config(&store).enabled);

    update_thinking_budget_config(
        &mut store,
        ThinkingBudgetConfig { mode: ThinkingBudgetMode::Custom, custom_value: 1000 },
    );
    update_claude_thinking_mapping_enabled(&mut store, false);
    update_image_thinking_mode(&mut store, Some("disabled".to_string()));
    assert_eq!(get_thinking_budget_config(&store).custom_value, 1000);
    assert!(!get_claude_thinking_mapping_enabled(&store));
    assert_eq!(get_image_thinking_mode(&store), "disabled");
    update_image_thinking_mode(&mut store, None);
    assert_eq!(get_image_thinking_mode(&store), "enabled");
}

#[test]
fn identity_content_falls_back_when_blank() {
    let mut store = ConfigStore::new();
    assert_eq!(
        get_antigravity_identity_content(&store).unwrap(),
        DEFAULT_ANTIGRAVITY_IDENTITY_CONTENT
    );
    update_antigravity_identity_config(
        &mut store,
        AntigravityIdentityConfig { enabled: true, content: "  \n ".to_string() },
    );
    assert_eq!(
        get_antigravity_identity_content(&store).unwrap(),
        DEFAULT_ANTIGRAVITY_IDENTITY_CONTENT
    );
    update_antigravity_identity_config(
        &mut store,
        AntigravityIdentityConfig { enabled: true, content: "be brief".to_string() },
    );
    assert_eq!(get_antigravity_identity_content(&store).unwrap(), "be brief");
    update_antigravity_identity_config(
        &mut store,
        AntigravityIdentityConfig { enabled: false, content: "be brief".to_string() },
    );
    assert!(get_antigravity_identity_content(&store).is_none());
}

fn endpoint(enabled: bool, host: Option<&str>) -> EndpointProxyConfig {
    EndpointProxyConfig {
        enabled,
        base_urls: Vec::new(),
        load_code_assist_url: None,
        oauth_url: None,
        googleapis_url: None,
        host: host.map(|h| h.to_string()),
    }
}

#[test]
fn host_header_from_endpoint_override() {
    assert_eq!(
        resolve_endpoint_proxy_host_header(&endpoint(true, Some(" example.com:8443 "))),
        Some("example.com:8443".to_string())
    );
    assert_eq!(
        resolve_endpoint_proxy_host_header(&endpoint(true, Some("https://api.example.com/v1"))),
        Some("api.example.com".to_string())
    );
    assert_eq!(resolve_endpoint_proxy_host_header(&endpoint(true, Some("   "))), None);
    assert_eq!(resolve_endpoint_proxy_host_header(&endpoint(true, None)), None);
    assert_eq!(
        resolve_endpoint_proxy_host_header(&endpoint(false, Some("example.com"))),
        None
    );
}

#[test]
fn host_header_from_parsed_parts() {
    assert_eq!(
        host_header_from_parsed("raw", Some((Some("h.example".to_string()), Some(8080)))),
        "h.example:8080"
    );
    assert_eq!(
        host_header_from_parsed("raw", Some((Some("h.example".to_string()), None))),
        "h.example"
    );
    assert_eq!(host_header_from_parsed("raw", Some((None, Some(1)))), "raw");
    assert_eq!(host_header_from_parsed("raw", None), "raw");
}

#[test]
fn proxy_config_defaults() {
    let c = ProxyConfig::default();
    assert_eq!(c.port, 8045);
    assert!(c.api_key.starts_with("sk-"));
    assert_eq!(c.api_key.len(), 35);
    assert_eq!(c.request_timeout, 120);
    assert_eq!(c.get_bind_address(), "127.0.0.1");
    let lan = ProxyConfig { allow_lan_access: true, ..ProxyConfig::default() };
    assert_eq!(lan.get_bind_address(), "0.0.0.0");
}

#[test]
fn mappings_keep_unique_keys() {
    let mut pairs: Vec<(String, String)> = Vec::new();
    set_mapping(&mut pairs, &"a".to_string(), "1".to_string());
    set_mapping(&mut pairs, &"b".to_string(), "2".to_string());
    set_mapping(&mut pairs, &"a".to_string(), "3".to_string());
    assert_eq!(pairs.len(), 2);
    assert_eq!(lookup_mapping(&pairs, &"a".to_string()), Some("3".to_string()));
    assert_eq!(lookup_mapping(&pairs, &"b".to_string()), Some("2".to_string()));
}

#[test]
fn api_key_digits_are_lower_hex() {
    let c = ProxyConfig::default();
    assert!(c.api_key[3..].chars().all(|ch| ch.is_ascii_digit() || ('a'..='f').contains(&ch)));
}
