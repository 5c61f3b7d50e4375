use gateway_core::adapter::{
    compression_level, inject_system_instruction, is_capped_family, lookup_mapping,
    resolve_model, resolve_thinking_budget, thinking_budget_for_family, CompressionLevel,
};
use gateway_core::admission::{
    check_admission, effective_auth_mode, is_always_open_route, service_gate, AdmissionDecision,
    AdmissionRequest,
};
use gateway_core::config::{
    ExperimentalConfig, GlobalSystemPromptConfig, ProxyAuthMode, SecurityMonitorConfig,
    StreamHandlingConfig, ThinkingBudgetConfig, ThinkingBudgetMode, ZaiConfig,
};
use gateway_core::failover::{
    classify_status, next_action, FailoverAction, FailoverState, RetryableError, UpstreamOutcome,
};
use gateway_core::streaming::{
    aggregate_chunks, decide_stream_mode, synthesize_chunks, Chunk, ResponseShape, StreamPlan,
    Usage,
};
use gateway_core::user_agent::{build_user_agent, clean_remote_version, resolve_version};

#[test]
fn failover_retries_exactly_once() {
    let s0 = FailoverState::new();
    let (a1, s1) = next_action(&s0, 7, UpstreamOutcome::Retryable(RetryableError::Timeout));
    assert_eq!(a1, FailoverAction::RetryExcluding(7));
    let (a2, s2) = next_action(&s1, 8, UpstreamOutcome::Retryable(RetryableError::ServerError));
    assert_eq!(a2, FailoverAction::Surface);
    assert_eq!(s2.retries, 1);
    let (a3, _) = next_action(&s1, 8, UpstreamOutcome::Success);
    assert_eq!(a3, FailoverAction::Deliver);
    let (a4, _) = next_action(&s0, 7, UpstreamOutcome::Fatal);
    assert_eq!(a4, FailoverAction::Surface);
}

#[test]
fn status_classes() {
    assert_eq!(classify_status(429), Some(RetryableError::RateLimited));
    assert_eq!(classify_status(503), Some(RetryableError::ServerError));
    assert_eq!(classify_status(400), None);
    assert_eq!(classify_status(200), None);
}

#[test]
fn stream_decision_table() {
    let on = StreamHandlingConfig { fake_non_stream: true, enable_fake_streaming: true };
    let off = StreamHandlingConfig { fake_non_stream: false, enable_fake_streaming: false };
    assert_eq!(
        decide_stream_mode(true, false, &on),
        StreamPlan { upstream_stream: true, shape: ResponseShape::PassThrough }
    );
    assert_eq!(
        decide_stream_mode(true, true, &on),
        StreamPlan { upstream_stream: false, shape: ResponseShape::SynthesizeChunks }
    );
    assert_eq!(
        decide_stream_mode(false, false, &on),
        StreamPlan { upstream_stream: true, shape: ResponseShape::Aggregate }
    );
    assert_eq!(
        decide_stream_mode(false, false, &off),
        StreamPlan { upstream_stream: false, shape: ResponseShape::PassThrough }
    );
}

#[test]
fn aggregation_keeps_last_chunk_metadata() {
    let chunks = vec![
        Chunk { text: "Hel".to_string(), usage: None, stop_reason: None },
        Chunk {
            text: "lo".to_string(),
            usage: Some(Usage { input_tokens: 1, output_tokens: 2 }),
            stop_reason: None,
        },
        Chunk {
            text: "!".to_string(),
            usage: Some(Usage { input_tokens: 10, output_tokens: 20 }),
            stop_reason: Some("end_turn".to_string()),
        },
    ];
    let r = aggregate_chunks(&chunks);
    assert_eq!(r.text, "Hello!");
    assert_eq!(r.usage, Some(Usage { input_tokens: 10, output_tokens: 20 }));
    assert_eq!(r.stop_reason, Some("end_turn".to_string()));
    let empty = aggregate_chunks(&Vec::new());
    assert_eq!(empty.text, "");
    assert!(empty.usage.is_none());
}

#[test]
fn synthesized_chunks_rebuild_the_text() {
    let pieces = synthesize_chunks("你好世界abc", 3);
    assert_eq!(pieces, vec!["你好世".to_string(), "界ab".to_string(), "c".to_string()]);
    assert!(synthesize_chunks("", 4).is_empty());
}

#[test]
fn thinking_budget_modes() {
    let auto = ThinkingBudgetConfig { mode: ThinkingBudgetMode::Auto, custom_value: 24576 };
    assert_eq!(resolve_thinking_budget(&auto, "Gemini-2.5-Flash", Some(30000)), Some(24576));
    assert_eq!(resolve_thinking_budget(&auto, "gemini-2.5-pro", Some(30000)), Some(30000));
    assert_eq!(resolve_thinking_budget(&auto, "model-thinking", Some(100)), Some(100));
    assert_eq!(resolve_thinking_budget(&auto, "gemini-flash", None), None);
    let pass = ThinkingBudgetConfig { mode: ThinkingBudgetMode::Passthrough, custom_value: 1 };
    assert_eq!(resolve_thinking_budget(&pass, "gemini-flash", Some(99999)), Some(99999));
    let custom = ThinkingBudgetConfig { mode: ThinkingBudgetMode::Custom, custom_value: 512 };
    assert_eq!(resolve_thinking_budget(&custom, "x", Some(99999)), Some(512));
    assert_eq!(resolve_thinking_budget(&custom, "x", None), Some(512));
    assert_eq!(thinking_budget_for_family(&auto, true, Some(24577)), Some(24576));
    assert!(is_capped_family("gemini-3-flash"));
    assert!(!is_capped_family("gemini-3-FLASH"));
}

#[test]
fn model_resolution() {
    let custom = vec![("gpt-4".to_string(), "gemini-2.5-pro".to_string())];
    let zai = ZaiConfig::default();
    let r = resolve_model("假流式/gpt-4", &custom, &zai, false, true).ok().unwrap();
    assert_eq!(r.model, "gemini-2.5-pro");
    assert!(r.fake_stream);
    assert!(!r.thinking_enabled);
    let r = resolve_model("vendor-opus-4-5-thinking", &custom, &zai, true, true).ok().unwrap();
    assert_eq!(r.model, "glm-4.7");
    assert!(r.thinking_enabled);
    let r = resolve_model("vendor-haiku-4-5", &custom, &zai, true, false).ok().unwrap();
    assert_eq!(r.model, "glm-4.5-air");
    assert!(!r.thinking_enabled);
    let r = resolve_model("vendor-opus-4-5-thinking", &custom, &zai, true, false).ok().unwrap();
    assert!(!r.thinking_enabled);
    let r = resolve_model("mystery", &custom, &zai, true, true).ok().unwrap();
    assert_eq!(r.model, "mystery");
    assert_eq!(lookup_mapping(&custom, &"gpt-4".to_string()), Some("gemini-2.5-pro".to_string()));
    assert_eq!(lookup_mapping(&custom, &"gpt-5".to_string()), None);
}

#[test]
fn blank_model_is_refused() {
    let zai = ZaiConfig::default();
    let err = resolve_model("假流式/  ", &Vec::new(), &zai, false, true).err().unwrap();
    assert_eq!(err.field, "model");
    assert!(resolve_model("", &Vec::new(), &zai, true, true).is_err());
}

#[test]
fn system_instruction_injection() {
    let global = GlobalSystemPromptConfig { enabled: true, content: "G".to_string() };
    let off = GlobalSystemPromptConfig { enabled: false, content: "G".to_string() };
    assert_eq!(inject_system_instruction("S", &Some("I".to_string()), &global), "I\n\nS\n\nG");
    assert_eq!(inject_system_instruction("", &Some("I".to_string()), &off), "I");
    assert_eq!(inject_system_instruction("S", &None, &global), "S\n\nG");
    assert_eq!(inject_system_instruction("S", &None, &off), "S");
}

#[test]
fn compression_levels() {
    let mut cfg = ExperimentalConfig::default();
    assert_eq!(compression_level(900, 1000, &cfg), CompressionLevel::Unneeded);
    cfg.enable_usage_scaling = true;
    assert_eq!(compression_level(399, 1000, &cfg), CompressionLevel::Unneeded);
    assert_eq!(compression_level(400, 1000, &cfg), CompressionLevel::TrimToolOutput);
    assert_eq!(compression_level(550, 1000, &cfg), CompressionLevel::CompressThinking);
    assert_eq!(compression_level(700, 1000, &cfg), CompressionLevel::ForkWithSummary);
    assert_eq!(compression_level(5, 0, &cfg), CompressionLevel::Unneeded);
}

fn req(path: &str, black: bool, white: bool, cred: bool) -> AdmissionRequest {
    AdmissionRequest {
        path: path.to_string(),
        ip_blacklisted: black,
        ip_whitelisted: white,
        has_valid_credential: cred,
    }
}

#[test]
fn admission_gate_order() {
    let mut sec = SecurityMonitorConfig::default();
    sec.blacklist.enabled = true;
    let m = ProxyAuthMode::Strict;
    assert_eq!(
        check_admission(&sec, m, false, true, &req("/v1/chat", true, false, true)),
        AdmissionDecision::Blacklisted
    );
    sec.whitelist.enabled = true;
    assert_eq!(
        check_admission(&sec, m, false, true, &req("/v1/chat", true, true, true)),
        AdmissionDecision::Allow
    );
    assert_eq!(
        check_admission(&sec, m, false, true, &req("/v1/chat", false, false, true)),
        AdmissionDecision::NotWhitelisted
    );
    sec.whitelist.whitelist_priority = false;
    assert_eq!(
        check_admission(&sec, m, false, true, &req("/v1/chat", true, true, true)),
        AdmissionDecision::Blacklisted
    );
    let open = SecurityMonitorConfig::default();
    assert_eq!(
        check_admission(&open, m, false, true, &req("/v1/chat", false, false, false)),
        AdmissionDecision::Unauthorized
    );
    assert_eq!(
        check_admission(&open, ProxyAuthMode::Auto, true, true, &req("/health", false, false, false)),
        AdmissionDecision::Allow
    );
    assert_eq!(
        check_admission(&open, ProxyAuthMode::Auto, false, false, &req("/v1/chat", false, false, false)),
        AdmissionDecision::ServiceDisabled
    );
    assert_eq!(
        check_admission(&open, ProxyAuthMode::Off, false, false, &req("/api/config", false, false, false)),
        AdmissionDecision::Allow
    );
}

#[test]
fn service_switch_routes() {
    assert!(is_always_open_route("/api/accounts"));
    assert!(is_always_open_route("/auth/callback"));
    assert!(is_always_open_route("/health"));
    assert!(!is_always_open_route("/healthz"));
    assert!(!service_gate("/v1/messages", false));
    assert!(service_gate("/v1/messages", true));
    assert_eq!(effective_auth_mode(ProxyAuthMode::Auto, true), ProxyAuthMode::AllExceptHealth);
    assert_eq!(effective_auth_mode(ProxyAuthMode::Auto, false), ProxyAuthMode::Off);
}

#[test]
fn version_and_user_agent() {
    assert_eq!(clean_remote_version(" 1.15.8-5724687216017408\n"), Some("1.15.8".to_string()));
    assert_eq!(clean_remote_version("  "), None);
    assert_eq!(clean_remote_version("-x"), None);
    assert_eq!(resolve_version(Some("2.0.1".to_string()), "0.1.0"), "2.0.1");
    assert_eq!(resolve_version(None, "0.1.0"), "0.1.0");
    assert_eq!(resolve_version(None, "dev"), "1.15.8");
    assert_eq!(build_user_agent("1.2.3", "linux", "x86_64"), "antigravity/1.2.3 linux/x86_64");
}
