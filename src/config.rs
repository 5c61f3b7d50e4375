//! Configuration of the gateway: the sub-configurations, their defaults, and
//! a snapshot store that replaces one sub-configuration at a time.

use vstd::prelude::*;
use crate::chars::{chars_of, string_of};
use crate::adapter::keys_unique;
use crate::punctuation::{trim, trim_chars};
use crate::stream_features::{contains_chars, contains_seq};

verus! {

// ---------------------------------------------------------------------------
// Default values
// ---------------------------------------------------------------------------

pub const DEFAULT_ANTIGRAVITY_IDENTITY_CONTENT: &'static str =
    "You are Antigravity, a powerful agentic AI coding assistant designed by the Google Deepmind team working on Advanced Agentic Coding.\nYou are pair programming with a USER to solve their coding task. The task may require creating a new codebase, modifying or debugging an existing codebase, or simply answering a question.\n**Absolute paths only**\n**Proactiveness**";

pub const DEFAULT_THINKING_BUDGET_CUSTOM_VALUE: u32 = 24576;

pub const DEFAULT_REQUEST_TIMEOUT_SECS: u64 = 120;

pub const DEFAULT_HEALTH_CHECK_INTERVAL_SECS: u64 = 300;

pub const DEFAULT_PORT: u16 = 8045;

pub fn default_antigravity_identity_content() -> (r: String)
    ensures
        r@ == DEFAULT_ANTIGRAVITY_IDENTITY_CONTENT@,
{
    String::from_str(DEFAULT_ANTIGRAVITY_IDENTITY_CONTENT)
}

pub fn default_thinking_budget_custom_value() -> (r: u32)
    ensures
        r == 24576,
{
    DEFAULT_THINKING_BUDGET_CUSTOM_VALUE
}

pub fn default_true() -> (r: bool)
    ensures
        r,
{
    true
}

pub fn default_false() -> (r: bool)
    ensures
        !r,
{
    false
}

pub fn default_punctuation_exclude_tags() -> (r: String)
    ensures
        r@ == "code,pre,script,style"@,
{
    String::from_str("code,pre,script,style")
}

pub fn default_block_message() -> (r: String)
    ensures
        r@ == "Access denied"@,
{
    String::from_str("Access denied")
}

pub fn default_request_timeout() -> (r: u64)
    ensures
        r == 120,
{
    DEFAULT_REQUEST_TIMEOUT_SECS
}

pub fn default_zai_base_url() -> (r: String)
    ensures
        r@ == "https://api.z.ai/api/anthropic"@,
{
    String::from_str("https://api.z.ai/api/anthropic")
}

pub fn default_zai_opus_model() -> (r: String)
    ensures
        r@ == "glm-4.7"@,
{
    String::from_str("glm-4.7")
}

pub fn default_zai_sonnet_model() -> (r: String)
    ensures
        r@ == "glm-4.7"@,
{
    String::from_str("glm-4.7")
}

pub fn default_zai_haiku_model() -> (r: String)
    ensures
        r@ == "glm-4.5-air"@,
{
    String::from_str("glm-4.5-air")
}

/// Default percentage of consumed quota at which an account is disabled.
pub fn default_auto_disable_consumption_percent() -> (r: u32)
    ensures
        r == 20,
{
    20
}

/// Default context-compression thresholds, in thousandths of the context window.
pub fn default_threshold_l1() -> (r: u32)
    ensures
        r == 400,
{
    400
}

pub fn default_threshold_l2() -> (r: u32)
    ensures
        r == 550,
{
    550
}

pub fn default_threshold_l3() -> (r: u32)
    ensures
        r == 700,
{
    700
}

// ---------------------------------------------------------------------------
// Sub-configurations
// ---------------------------------------------------------------------------

/// Identity instruction injected into every request's system instruction.
pub struct AntigravityIdentityConfig {
    pub enabled: bool,
    pub content: String,
}

impl AntigravityIdentityConfig {
    pub fn copied(&self) -> (r: Self)
        ensures
            r == *self,
    {
        AntigravityIdentityConfig { enabled: self.enabled, content: self.content.clone() }
    }
}

impl Default for AntigravityIdentityConfig {
    fn default() -> (r: Self)
        ensures
            r.enabled,
            r.content@ == DEFAULT_ANTIGRAVITY_IDENTITY_CONTENT@,
    {
        AntigravityIdentityConfig { enabled: true, content: default_antigravity_identity_content() }
    }
}

/// Operator prompt appended to every request's system instruction.
pub struct GlobalSystemPromptConfig {
    pub enabled: bool,
    pub content: String,
}

impl GlobalSystemPromptConfig {
    pub fn copied(&self) -> (r: Self)
        ensures
            r == *self,
    {
        GlobalSystemPromptConfig { enabled: self.enabled, content: self.content.clone() }
    }
}

impl Default for GlobalSystemPromptConfig {
    fn default() -> (r: Self)
        ensures
            !r.enabled,
            r.content@ == Seq::<char>::empty(),
    {
        GlobalSystemPromptConfig { enabled: false, content: String::new() }
    }
}

/// Authorization policy of the gateway.
#[derive(Clone, Copy, Debug, PartialEq, Eq, Structural)]
pub enum ProxyAuthMode {
    Off,
    Strict,
    AllExceptHealth,
    Auto,
}

impl Default for ProxyAuthMode {
    fn default() -> (r: Self)
        ensures
            r == ProxyAuthMode::Auto,
    {
        ProxyAuthMode::Auto
    }
}

/// How the secondary vendor's accounts take part in dispatch.
#[derive(Clone, Copy, Debug, PartialEq, Eq, Structural)]
pub enum ZaiDispatchMode {
    /// Never used.
    Off,
    /// Used for every request of its protocol.
    Exclusive,
    /// One more slot of the shared pool.
    Pooled,
    /// Used only when the primary pool has no eligible account.
    Fallback,
}

impl Default for ZaiDispatchMode {
    fn default() -> (r: Self)
        ensures
            r == ZaiDispatchMode::Off,
    {
        ZaiDispatchMode::Off
    }
}

/// The secondary vendor's default model for each of the opus, sonnet and haiku families.
pub struct ZaiModelDefaults {
    pub opus: String,
    pub sonnet: String,
    pub haiku: String,
}

impl Default for ZaiModelDefaults {
    fn default() -> (r: Self)
        ensures
            r.opus@ == "glm-4.7"@,
            r.sonnet@ == "glm-4.7"@,
            r.haiku@ == "glm-4.5-air"@,
    {
        ZaiModelDefaults {
            opus: default_zai_opus_model(),
            sonnet: default_zai_sonnet_model(),
            haiku: default_zai_haiku_model(),
        }
    }
}

pub struct ZaiMcpConfig {
    pub enabled: bool,
    pub web_search_enabled: bool,
    pub web_reader_enabled: bool,
    pub vision_enabled: bool,
}

impl Default for ZaiMcpConfig {
    fn default() -> (r: Self)
        ensures
            !r.enabled && !r.web_search_enabled && !r.web_reader_enabled && !r.vision_enabled,
    {
        ZaiMcpConfig {
            enabled: false,
            web_search_enabled: false,
            web_reader_enabled: false,
            vision_enabled: false,
        }
    }
}

/// Settings of the secondary (Anthropic-compatible) vendor.
pub struct ZaiConfig {
    pub enabled: bool,
    pub base_url: String,
    pub api_key: String,
    pub dispatch_mode: ZaiDispatchMode,
    /// Exact-match overrides, incoming model id to vendor model id; a map,
    /// so no two entries share a key (see `wf`).
    pub model_mapping: Vec<(String, String)>,
    pub models: ZaiModelDefaults,
    pub mcp: ZaiMcpConfig,
}

impl ZaiConfig {
    /// The model mapping is a map: its keys are unique.
    pub open spec fn wf(&self) -> bool {
        keys_unique(self.model_mapping@)
    }
}

impl Default for ZaiConfig {
    fn default() -> (r: Self)
        ensures
            !r.enabled,
            r.base_url@ == "https://api.z.ai/api/anthropic"@,
            r.api_key@ == Seq::<char>::empty(),
            r.dispatch_mode == ZaiDispatchMode::Off,
            r.model_mapping@.len() == 0,
            r.models.opus@ == "glm-4.7"@,
            r.models.sonnet@ == "glm-4.7"@,
            r.models.haiku@ == "glm-4.5-air"@,
            !r.mcp.enabled && !r.mcp.web_search_enabled && !r.mcp.web_reader_enabled
                && !r.mcp.vision_enabled,
            r.wf(),
    {
        ZaiConfig {
            enabled: false,
            base_url: default_zai_base_url(),
            api_key: String::new(),
            dispatch_mode: ZaiDispatchMode::Off,
            model_mapping: Vec::new(),
            models: ZaiModelDefaults::default(),
            mcp: ZaiMcpConfig::default(),
        }
    }
}

/// Feature flags. Context-compression thresholds are in thousandths of the
/// context window.
pub struct ExperimentalConfig {
    pub enable_signature_cache: bool,
    pub enable_tool_loop_recovery: bool,
    pub enable_cross_model_checks: bool,
    pub enable_usage_scaling: bool,
    pub context_compression_threshold_l1: u32,
    pub context_compression_threshold_l2: u32,
    pub context_compression_threshold_l3: u32,
}

impl Default for ExperimentalConfig {
    fn default() -> (r: Self)
        ensures
            r.enable_signature_cache && r.enable_tool_loop_recovery && r.enable_cross_model_checks,
            !r.enable_usage_scaling,
            r.context_compression_threshold_l1 == 400,
            r.context_compression_threshold_l2 == 550,
            r.context_compression_threshold_l3 == 700,
    {
        ExperimentalConfig {
            enable_signature_cache: true,
            enable_tool_loop_recovery: true,
            enable_cross_model_checks: true,
            enable_usage_scaling: false,
            context_compression_threshold_l1: default_threshold_l1(),
            context_compression_threshold_l2: default_threshold_l2(),
            context_compression_threshold_l3: default_threshold_l3(),
        }
    }
}

/// How a caller's thinking budget is treated.
#[derive(Clone, Copy, Debug, PartialEq, Eq, Structural)]
pub enum ThinkingBudgetMode {
    /// Capped for flash / thinking model families.
    Auto,
    /// Forwarded unchanged.
    Passthrough,
    /// Replaced by the operator's value.
    Custom,
}

impl Default for ThinkingBudgetMode {
    fn default() -> (r: Self)
        ensures
            r == ThinkingBudgetMode::Auto,
    {
        ThinkingBudgetMode::Auto
    }
}

#[derive(Clone, Copy, Debug, PartialEq, Eq, Structural)]
pub struct ThinkingBudgetConfig {
    pub mode: ThinkingBudgetMode,
    /// Used when `mode` is `Custom`.
    pub custom_value: u32,
}

impl Default for ThinkingBudgetConfig {
    fn default() -> (r: Self)
        ensures
            r.mode == ThinkingBudgetMode::Auto,
            r.custom_value == 24576,
    {
        ThinkingBudgetConfig {
            mode: ThinkingBudgetMode::Auto,
            custom_value: default_thinking_budget_custom_value(),
        }
    }
}

pub struct DebugLoggingConfig {
    pub enabled: bool,
    pub output_dir: Option<String>,
}

impl Default for DebugLoggingConfig {
    fn default() -> (r: Self)
        ensures
            !r.enabled,
            r.output_dir is None,
    {
        DebugLoggingConfig { enabled: false, output_dir: None }
    }
}

/// Emulation of the delivery mode the upstream does not offer.
#[derive(Clone, Copy, Debug, PartialEq, Eq, Structural)]
pub struct StreamHandlingConfig {
    /// Serve non-stream requests from a streamed upstream call, aggregated.
    pub fake_non_stream: bool,
    /// Accept the emulated-streaming marker in front of model ids.
    pub enable_fake_streaming: bool,
}

impl Default for StreamHandlingConfig {
    fn default() -> (r: Self)
        ensures
            r.fake_non_stream,
            r.enable_fake_streaming,
    {
        StreamHandlingConfig { fake_non_stream: true, enable_fake_streaming: true }
    }
}

pub struct PunctuationConfig {
    pub normalize: bool,
    /// Comma-separated tag names whose contents are never normalized.
    pub exclude_tags: String,
}

impl PunctuationConfig {
    pub fn copied(&self) -> (r: Self)
        ensures
            r == *self,
    {
        PunctuationConfig { normalize: self.normalize, exclude_tags: self.exclude_tags.clone() }
    }
}

impl Default for PunctuationConfig {
    fn default() -> (r: Self)
        ensures
            !r.normalize,
            r.exclude_tags@ == "code,pre,script,style"@,
    {
        PunctuationConfig { normalize: false, exclude_tags: default_punctuation_exclude_tags() }
    }
}

/// Overrides of the upstream endpoints.
pub struct EndpointProxyConfig {
    pub enabled: bool,
    /// Base URLs, tried in order.
    pub base_urls: Vec<String>,
    pub load_code_assist_url: Option<String>,
    pub oauth_url: Option<String>,
    pub googleapis_url: Option<String>,
    /// Value for the upstream `Host` header.
    pub host: Option<String>,
}

pub fn copy_opt_string(s: &Option<String>) -> (r: Option<String>)
    ensures
        r == *s,
{
    match s {
        Some(v) => Some(v.clone()),
        None => None,
    }
}

pub fn copy_strings(v: &Vec<String>) -> (r: Vec<String>)
    ensures
        r@ == v@,
{
    let mut r: Vec<String> = Vec::new();
    let mut i: usize = 0;
    while i < v.len()
        invariant
            i <= v@.len(),
            r@ =~= v@.subrange(0, i as int),
        decreases v@.len() - i,
    {
        r.push(v[i].clone());
        i += 1;
    }
    r
}

impl EndpointProxyConfig {
    /// The two configurations hold the same values.
    pub open spec fn same_as(&self, o: &Self) -> bool {
        &&& self.enabled == o.enabled
        &&& self.base_urls@ == o.base_urls@
        &&& self.load_code_assist_url == o.load_code_assist_url
        &&& self.oauth_url == o.oauth_url
        &&& self.googleapis_url == o.googleapis_url
        &&& self.host == o.host
    }

    pub fn copied(&self) -> (r: Self)
        ensures
            r.same_as(self),
    {
        EndpointProxyConfig {
            enabled: self.enabled,
            base_urls: copy_strings(&self.base_urls),
            load_code_assist_url: copy_opt_string(&self.load_code_assist_url),
            oauth_url: copy_opt_string(&self.oauth_url),
            googleapis_url: copy_opt_string(&self.googleapis_url),
            host: copy_opt_string(&self.host),
        }
    }
}

impl Default for EndpointProxyConfig {
    fn default() -> (r: Self)
        ensures
            !r.enabled,
            r.base_urls@.len() == 0,
            r.load_code_assist_url is None,
            r.oauth_url is None,
            r.googleapis_url is None,
            r.host is None,
    {
        EndpointProxyConfig {
            enabled: false,
            base_urls: Vec::new(),
            load_code_assist_url: None,
            oauth_url: None,
            googleapis_url: None,
            host: None,
        }
    }
}

pub struct IpBlacklistConfig {
    pub enabled: bool,
    pub block_message: String,
}

impl Default for IpBlacklistConfig {
    fn default() -> (r: Self)
        ensures
            !r.enabled,
            r.block_message@ == "Access denied"@,
    {
        IpBlacklistConfig { enabled: false, block_message: default_block_message() }
    }
}

pub struct IpWhitelistConfig {
    /// Only listed addresses are admitted.
    pub enabled: bool,
    /// A listed address skips the blacklist check.
    pub whitelist_priority: bool,
}

impl Default for IpWhitelistConfig {
    fn default() -> (r: Self)
        ensures
            !r.enabled,
            r.whitelist_priority,
    {
        IpWhitelistConfig { enabled: false, whitelist_priority: true }
    }
}

pub struct SecurityMonitorConfig {
    pub blacklist: IpBlacklistConfig,
    pub whitelist: IpWhitelistConfig,
}

impl Default for SecurityMonitorConfig {
    fn default() -> (r: Self)
        ensures
            !r.blacklist.enabled,
            r.blacklist.block_message@ == "Access denied"@,
            !r.whitelist.enabled,
            r.whitelist.whitelist_priority,
    {
        SecurityMonitorConfig {
            blacklist: IpBlacklistConfig::default(),
            whitelist: IpWhitelistConfig::default(),
        }
    }
}

/// Egress proxy for all upstream calls.
pub struct UpstreamProxyConfig {
    pub enabled: bool,
    /// `http://`, `https://` or `socks5://` address.
    pub url: String,
}

impl Default for UpstreamProxyConfig {
    fn default() -> (r: Self)
        ensures
            !r.enabled,
            r.url@ == Seq::<char>::empty(),
    {
        UpstreamProxyConfig { enabled: false, url: String::new() }
    }
}

pub struct ProxyAuth {
    pub username: String,
    pub password: String,
}

/// One egress proxy of the pool.
pub struct ProxyEntry {
    pub id: String,
    pub name: String,
    pub url: String,
    pub auth: Option<ProxyAuth>,
    pub enabled: bool,
    /// Lower is preferred.
    pub priority: i32,
    pub tags: Vec<String>,
    /// Most accounts bound to this proxy; 0 means no limit.
    pub max_accounts: Option<usize>,
    pub health_check_url: Option<String>,
    pub last_check_time: Option<i64>,
    pub is_healthy: bool,
    /// Last measured latency in milliseconds.
    pub latency: Option<u64>,
}

/// How one entry of a pool is chosen.
#[derive(Clone, Copy, Debug, PartialEq, Eq, Structural)]
pub enum ProxySelectionStrategy {
    RoundRobin,
    Random,
    Priority,
    LeastConnections,
    WeightedRoundRobin,
}

pub struct ProxyPoolConfig {
    pub enabled: bool,
    pub proxies: Vec<ProxyEntry>,
    pub health_check_interval: u64,
    pub auto_failover: bool,
    pub strategy: ProxySelectionStrategy,
    /// Account id to proxy id; a map, so no two entries share an account
    /// (see `wf`).
    pub account_bindings: Vec<(String, String)>,
}

impl ProxyPoolConfig {
    /// The account bindings are a map: each account is bound at most once.
    pub open spec fn wf(&self) -> bool {
        keys_unique(self.account_bindings@)
    }
}

impl Default for ProxyPoolConfig {
    fn default() -> (r: Self)
        ensures
            !r.enabled,
            r.proxies@.len() == 0,
            r.health_check_interval == 300,
            r.auto_failover,
            r.strategy == ProxySelectionStrategy::Priority,
            r.account_bindings@.len() == 0,
            r.wf(),
    {
        ProxyPoolConfig {
            enabled: false,
            proxies: Vec::new(),
            health_check_interval: DEFAULT_HEALTH_CHECK_INTERVAL_SECS,
            auto_failover: true,
            strategy: ProxySelectionStrategy::Priority,
            account_bindings: Vec::new(),
        }
    }
}

} // verus!

verus! {

// ---------------------------------------------------------------------------
// The whole configuration
// ---------------------------------------------------------------------------

pub open spec fn lower_hex_digit(c: char) -> bool {
    ('0' <= c <= '9') || ('a' <= c <= 'f')
}

/// Relies on `uuid::Uuid::new_v4` shown in its simple form: a random UUID
/// written as 32 lowercase hexadecimal digits.
#[verifier::external_body]
fn random_uuid_simple() -> (r: String)
    ensures
        r@.len() == 32,
        forall|i: int| 0 <= i < 32 ==> lower_hex_digit(#[trigger] r@[i]),
{
    uuid::Uuid::new_v4().simple().to_string()
}

/// A fresh API key: `sk-` followed by a random UUID's 32 hexadecimal digits.
pub fn generate_api_key() -> (r: String)
    ensures
        r@.len() == 35,
        r@.subrange(0, 3) == "sk-"@,
        forall|i: int| 3 <= i < 35 ==> lower_hex_digit(#[trigger] r@[i]),
{
    let id = random_uuid_simple();
    let key = String::from_str("sk-").concat(id.as_str());
    proof {
        reveal_strlit("sk-");
        assert(key@.subrange(0, 3) =~= "sk-"@);
        assert forall|i: int| 3 <= i < 35 implies lower_hex_digit(#[trigger] key@[i]) by {
            assert(key@[i] == id@[i - 3]);
        }
    }
    key
}

/// Settings of the gateway.
pub struct ProxyConfig {
    pub enabled: bool,
    /// Listen on all interfaces rather than on the loopback one only.
    pub allow_lan_access: bool,
    pub auth_mode: ProxyAuthMode,
    pub port: u16,
    pub api_key: String,
    /// Password of the admin UI; the API key when absent.
    pub admin_password: Option<String>,
    pub auto_start: bool,
    /// Exact-match model id overrides; a map, so no two entries share a key
    /// (see `wf`).
    pub custom_mapping: Vec<(String, String)>,
    /// Upstream call timeout in seconds.
    pub request_timeout: u64,
    pub stream_handling: StreamHandlingConfig,
    pub punctuation: PunctuationConfig,
    pub auto_disable_on_consumption: bool,
    /// Consumed-quota percentage (1 to 99) at which an account is disabled.
    pub auto_disable_consumption_percent: u32,
    pub enable_logging: bool,
    pub debug_logging: DebugLoggingConfig,
    pub upstream_proxy: UpstreamProxyConfig,
    pub zai: ZaiConfig,
    pub user_agent_override: Option<String>,
    pub experimental: ExperimentalConfig,
    pub security_monitor: SecurityMonitorConfig,
    /// Pins every request to this account when set.
    pub preferred_account_id: Option<String>,
    pub saved_user_agent: Option<String>,
    pub thinking_budget: ThinkingBudgetConfig,
    pub antigravity_identity: AntigravityIdentityConfig,
    pub global_system_prompt: GlobalSystemPromptConfig,
    /// `enabled` keeps the thinking chain of image models, `disabled` drops it.
    pub image_thinking_mode: Option<String>,
    /// Map thinking variants of opus, sonnet and haiku ids to non-thinking upstream models.
    pub claude_thinking_mapping: bool,
    pub proxy_pool: ProxyPoolConfig,
    pub endpoint_proxy: EndpointProxyConfig,
}

impl Default for ProxyConfig {
    fn default() -> (r: Self)
        ensures
            !r.enabled,
            !r.allow_lan_access,
            r.auth_mode == ProxyAuthMode::Auto,
            r.port == 8045,
            r.api_key@.len() == 35,
            r.api_key@.subrange(0, 3) == "sk-"@,
            forall|i: int| 3 <= i < 35 ==> lower_hex_digit(#[trigger] r.api_key@[i]),
            r.admin_password is None,
            !r.auto_start,
            r.custom_mapping@.len() == 0,
            r.request_timeout == 120,
            r.stream_handling.fake_non_stream && r.stream_handling.enable_fake_streaming,
            !r.punctuation.normalize,
            r.punctuation.exclude_tags@ == "code,pre,script,style"@,
            r.auto_disable_on_consumption,
            r.auto_disable_consumption_percent == 20,
            r.enable_logging,
            !r.debug_logging.enabled,
            r.debug_logging.output_dir is None,
            !r.upstream_proxy.enabled,
            r.upstream_proxy.url@ == Seq::<char>::empty(),
            !r.zai.enabled,
            r.zai.base_url@ == "https://api.z.ai/api/anthropic"@,
            r.zai.api_key@ == Seq::<char>::empty(),
            r.zai.dispatch_mode == ZaiDispatchMode::Off,
            r.zai.model_mapping@.len() == 0,
            r.zai.models.opus@ == "glm-4.7"@,
            r.zai.models.sonnet@ == "glm-4.7"@,
            r.zai.models.haiku@ == "glm-4.5-air"@,
            !r.zai.mcp.enabled && !r.zai.mcp.web_search_enabled && !r.zai.mcp.web_reader_enabled
                && !r.zai.mcp.vision_enabled,
            r.user_agent_override is None,
            r.experimental.enable_signature_cache && r.experimental.enable_tool_loop_recovery
                && r.experimental.enable_cross_model_checks,
            !r.experimental.enable_usage_scaling,
            r.experimental.context_compression_threshold_l1 == 400,
            r.experimental.context_compression_threshold_l2 == 550,
            r.experimental.context_compression_threshold_l3 == 700,
            !r.security_monitor.blacklist.enabled,
            r.security_monitor.blacklist.block_message@ == "Access denied"@,
            !r.security_monitor.whitelist.enabled,
            r.security_monitor.whitelist.whitelist_priority,
            r.preferred_account_id is None,
            r.saved_user_agent is None,
            r.thinking_budget.mode == ThinkingBudgetMode::Auto,
            r.thinking_budget.custom_value == 24576,
            r.antigravity_identity.enabled,
            r.antigravity_identity.content@ == DEFAULT_ANTIGRAVITY_IDENTITY_CONTENT@,
            !r.global_system_prompt.enabled,
            r.global_system_prompt.content@ == Seq::<char>::empty(),
            r.image_thinking_mode is None,
            r.claude_thinking_mapping,
            !r.proxy_pool.enabled,
            r.proxy_pool.proxies@.len() == 0,
            r.proxy_pool.health_check_interval == 300,
            r.proxy_pool.auto_failover,
            r.proxy_pool.strategy == ProxySelectionStrategy::Priority,
            r.proxy_pool.account_bindings@.len() == 0,
            !r.endpoint_proxy.enabled,
            r.endpoint_proxy.base_urls@.len() == 0,
            r.endpoint_proxy.host is None,
            r.wf(),
    {
        ProxyConfig {
            enabled: false,
            allow_lan_access: false,
            auth_mode: ProxyAuthMode::default(),
            port: DEFAULT_PORT,
            api_key: generate_api_key(),
            admin_password: None,
            auto_start: false,
            custom_mapping: Vec::new(),
            request_timeout: default_request_timeout(),
            stream_handling: StreamHandlingConfig::default(),
            punctuation: PunctuationConfig::default(),
            auto_disable_on_consumption: true,
            auto_disable_consumption_percent: default_auto_disable_consumption_percent(),
            enable_logging: true,
            debug_logging: DebugLoggingConfig::default(),
            upstream_proxy: UpstreamProxyConfig::default(),
            zai: ZaiConfig::default(),
            user_agent_override: None,
            experimental: ExperimentalConfig::default(),
            security_monitor: SecurityMonitorConfig::default(),
            preferred_account_id: None,
            saved_user_agent: None,
            thinking_budget: ThinkingBudgetConfig::default(),
            antigravity_identity: AntigravityIdentityConfig::default(),
            global_system_prompt: GlobalSystemPromptConfig::default(),
            image_thinking_mode: None,
            claude_thinking_mapping: true,
            proxy_pool: ProxyPoolConfig::default(),
            endpoint_proxy: EndpointProxyConfig::default(),
        }
    }
}

impl ProxyConfig {
    /// Every mapping held in the configuration is a map with unique keys.
    pub open spec fn wf(&self) -> bool {
        keys_unique(self.custom_mapping@) && self.zai.wf() && self.proxy_pool.wf()
    }

    /// The address to listen on: every interface with LAN access, else loopback.
    pub fn get_bind_address(&self) -> (r: &'static str)
        ensures
            self.allow_lan_access ==> r@ == "0.0.0.0"@,
            !self.allow_lan_access ==> r@ == "127.0.0.1"@,
    {
        if self.allow_lan_access {
            "0.0.0.0"
        } else {
            "127.0.0.1"
        }
    }
}

// ---------------------------------------------------------------------------
// Snapshot store
// ---------------------------------------------------------------------------

/// The sub-configurations read on every request. An absent entry has never
/// been set and reads as its default; an update replaces one entry whole.
pub struct ConfigStore {
    pub thinking_budget: Option<ThinkingBudgetConfig>,
    pub claude_thinking_mapping: Option<bool>,
    pub antigravity_identity: Option<AntigravityIdentityConfig>,
    pub global_system_prompt: Option<GlobalSystemPromptConfig>,
    pub image_thinking_mode: Option<String>,
    pub stream_handling: Option<StreamHandlingConfig>,
    pub punctuation: Option<PunctuationConfig>,
    pub endpoint_proxy: Option<EndpointProxyConfig>,
}

impl ConfigStore {
    pub open spec fn is_empty(&self) -> bool {
        &&& self.thinking_budget is None
        &&& self.claude_thinking_mapping is None
        &&& self.antigravity_identity is None
        &&& self.global_system_prompt is None
        &&& self.image_thinking_mode is None
        &&& self.stream_handling is None
        &&& self.punctuation is None
        &&& self.endpoint_proxy is None
    }

    pub fn new() -> (r: Self)
        ensures
            r.is_empty(),
    {
        ConfigStore {
            thinking_budget: None,
            claude_thinking_mapping: None,
            antigravity_identity: None,
            global_system_prompt: None,
            image_thinking_mode: None,
            stream_handling: None,
            punctuation: None,
            endpoint_proxy: None,
        }
    }
}

pub fn get_thinking_budget_config(store: &ConfigStore) -> (r: ThinkingBudgetConfig)
    ensures
        store.thinking_budget matches Some(c) ==> r == c,
        store.thinking_budget is None ==> r.mode == ThinkingBudgetMode::Auto && r.custom_value
            == 24576,
{
    match &store.thinking_budget {
        Some(c) => *c,
        None => ThinkingBudgetConfig::default(),
    }
}

pub fn update_thinking_budget_config(store: &mut ConfigStore, config: ThinkingBudgetConfig)
    ensures
        *final(store) == (ConfigStore { thinking_budget: Some(config), ..*old(store) }),
{
    store.thinking_budget = Some(config);
}

pub fn get_claude_thinking_mapping_enabled(store: &ConfigStore) -> (r: bool)
    ensures
        store.claude_thinking_mapping matches Some(b) ==> r == b,
        store.claude_thinking_mapping is None ==> r,
{
    match store.claude_thinking_mapping {
        Some(b) => b,
        None => true,
    }
}

pub fn update_claude_thinking_mapping_enabled(store: &mut ConfigStore, enabled: bool)
    ensures
        *final(store) == (ConfigStore { claude_thinking_mapping: Some(enabled), ..*old(store) }),
{
    store.claude_thinking_mapping = Some(enabled);
}

pub fn get_antigravity_identity_config(store: &ConfigStore) -> (r: AntigravityIdentityConfig)
    ensures
        store.antigravity_identity matches Some(c) ==> r == c,
        store.antigravity_identity is None ==> r.enabled && r.content@
            == DEFAULT_ANTIGRAVITY_IDENTITY_CONTENT@,
{
    match &store.antigravity_identity {
        Some(c) => c.copied(),
        None => AntigravityIdentityConfig::default(),
    }
}

/// The identity instruction to inject, if enabled: the configured content,
/// or the built-in one when the configured content is blank.
pub fn get_antigravity_identity_content(store: &ConfigStore) -> (r: Option<String>)
    ensures
        ({
            let (enabled, content) = match store.antigravity_identity {
                Some(c) => (c.enabled, c.content@),
                None => (true, DEFAULT_ANTIGRAVITY_IDENTITY_CONTENT@),
            };
            &&& !enabled ==> r is None
            &&& enabled && trim(content).len() == 0 ==> (r matches Some(s) && s@
                == DEFAULT_ANTIGRAVITY_IDENTITY_CONTENT@)
            &&& enabled && trim(content).len() > 0 ==> (r matches Some(s) && s@ == content)
        }),
{
    let config = get_antigravity_identity_config(store);
    if !config.enabled {
        return None;
    }
    let trimmed = trim_chars(&chars_of(config.content.as_str()));
    if trimmed.len() == 0 {
        return Some(default_antigravity_identity_content());
    }
    Some(config.content)
}

pub fn update_antigravity_identity_config(
    store: &mut ConfigStore,
    config: AntigravityIdentityConfig,
)
    ensures
        *final(store) == (ConfigStore { antigravity_identity: Some(config), ..*old(store) }),
{
    store.antigravity_identity = Some(config);
}

pub fn get_global_system_prompt(store: &ConfigStore) -> (r: GlobalSystemPromptConfig)
    ensures
        store.global_system_prompt matches Some(c) ==> r == c,
        store.global_system_prompt is None ==> !r.enabled && r.content@ == Seq::<char>::empty(),
{
    match &store.global_system_prompt {
        Some(c) => c.copied(),
        None => GlobalSystemPromptConfig::default(),
    }
}

pub fn update_global_system_prompt_config(store: &mut ConfigStore, config: GlobalSystemPromptConfig)
    ensures
        *final(store) == (ConfigStore { global_system_prompt: Some(config), ..*old(store) }),
{
    store.global_system_prompt = Some(config);
}

pub fn get_image_thinking_mode(store: &ConfigStore) -> (r: String)
    ensures
        store.image_thinking_mode matches Some(m) ==> r == m,
        store.image_thinking_mode is None ==> r@ == "enabled"@,
{
    match &store.image_thinking_mode {
        Some(m) => m.clone(),
        None => String::from_str("enabled"),
    }
}

/// Sets the image thinking mode; `None` stands for `enabled`.
pub fn update_image_thinking_mode(store: &mut ConfigStore, mode: Option<String>)
    ensures
        final(store).image_thinking_mode matches Some(m) && (mode is Some ==> m == mode->0) && (
        mode is None ==> m@ == "enabled"@),
        *final(store) == (ConfigStore {
            image_thinking_mode: final(store).image_thinking_mode,
            ..*old(store)
        }),
{
    let val = match mode {
        Some(m) => m,
        None => String::from_str("enabled"),
    };
    store.image_thinking_mode = Some(val);
}

pub fn get_stream_handling_config(store: &ConfigStore) -> (r: StreamHandlingConfig)
    ensures
        store.stream_handling matches Some(c) ==> r == c,
        store.stream_handling is None ==> r.fake_non_stream && r.enable_fake_streaming,
{
    match &store.stream_handling {
        Some(c) => *c,
        None => StreamHandlingConfig::default(),
    }
}

pub fn update_stream_handling_config(store: &mut ConfigStore, config: StreamHandlingConfig)
    ensures
        *final(store) == (ConfigStore { stream_handling: Some(config), ..*old(store) }),
{
    store.stream_handling = Some(config);
}

pub fn get_punctuation_config(store: &ConfigStore) -> (r: PunctuationConfig)
    ensures
        store.punctuation matches Some(c) ==> r == c,
        store.punctuation is None ==> !r.normalize && r.exclude_tags@ == "code,pre,script,style"@,
{
    match &store.punctuation {
        Some(c) => c.copied(),
        None => PunctuationConfig::default(),
    }
}

pub fn update_punctuation_config(store: &mut ConfigStore, config: PunctuationConfig)
    ensures
        *final(store) == (ConfigStore { punctuation: Some(config), ..*old(store) }),
{
    store.punctuation = Some(config);
}

pub fn get_endpoint_proxy_config(store: &ConfigStore) -> (r: EndpointProxyConfig)
    ensures
        store.endpoint_proxy matches Some(c) ==> r.same_as(&c),
        store.endpoint_proxy is None ==> !r.enabled && r.base_urls@.len() == 0
            && r.load_code_assist_url is None && r.oauth_url is None && r.googleapis_url is None
            && r.host is None,
{
    match &store.endpoint_proxy {
        Some(c) => c.copied(),
        None => EndpointProxyConfig::default(),
    }
}

pub fn update_endpoint_proxy_config(store: &mut ConfigStore, config: EndpointProxyConfig)
    ensures
        *final(store) == (ConfigStore { endpoint_proxy: Some(config), ..*old(store) }),
{
    store.endpoint_proxy = Some(config);
}

} // verus!

verus! {

// ---------------------------------------------------------------------------
// Proxy and endpoint addresses
// ---------------------------------------------------------------------------

pub open spec fn scheme_separator() -> Seq<char> {
    seq![':', '/', '/']
}

/// A proxy address with surrounding whitespace removed and `http://` put in
/// front when it names no scheme; empty when the address is blank.
pub open spec fn normalized_proxy_url(url: Seq<char>) -> Seq<char> {
    let t = trim(url);
    if t.len() == 0 {
        t
    } else if contains_seq(t, scheme_separator()) {
        t
    } else {
        seq!['h', 't', 't', 'p', ':', '/', '/'] + t
    }
}

fn concat_chars(a: &Vec<char>, b: &Vec<char>) -> (r: Vec<char>)
    ensures
        r@ == a@ + b@,
{
    let mut r: Vec<char> = Vec::new();
    let mut i: usize = 0;
    while i < a.len()
        invariant
            i <= a@.len(),
            r@ =~= a@.subrange(0, i as int),
        decreases a@.len() - i,
    {
        r.push(a[i]);
        i += 1;
    }
    let mut j: usize = 0;
    while j < b.len()
        invariant
            j <= b@.len(),
            r@ =~= a@ + b@.subrange(0, j as int),
        decreases b@.len() - j,
    {
        r.push(b[j]);
        j += 1;
    }
    r
}

pub fn normalize_proxy_url(url: &str) -> (r: String)
    ensures
        r@ == normalized_proxy_url(url@),
{
    let t = trim_chars(&chars_of(url));
    if t.len() == 0 {
        return String::new();
    }
    let sep = vec![':', '/', '/'];
    assert(sep@ =~= scheme_separator());
    if contains_chars(&t, &sep) {
        string_of(&t)
    } else {
        let scheme = vec!['h', 't', 't', 'p', ':', '/', '/'];
        string_of(&concat_chars(&scheme, &t))
    }
}

pub open spec fn digit_char(d: nat) -> char {
    if d == 0 {
        '0'
    } else if d == 1 {
        '1'
    } else if d == 2 {
        '2'
    } else if d == 3 {
        '3'
    } else if d == 4 {
        '4'
    } else if d == 5 {
        '5'
    } else if d == 6 {
        '6'
    } else if d == 7 {
        '7'
    } else if d == 8 {
        '8'
    } else {
        '9'
    }
}

/// Decimal digits of `n`, without leading zeros.
pub open spec fn decimal(n: nat) -> Seq<char>
    decreases n,
{
    if n < 10 {
        seq![digit_char(n)]
    } else {
        decimal(n / 10).push(digit_char(n % 10))
    }
}

fn push_decimal(out: &mut Vec<char>, n: u16)
    ensures
        final(out)@ == old(out)@ + decimal(n as nat),
    decreases n,
{
    if n >= 10 {
        push_decimal(out, n / 10);
    }
    let d = n % 10;
    let c = if d == 0 {
        '0'
    } else if d == 1 {
        '1'
    } else if d == 2 {
        '2'
    } else if d == 3 {
        '3'
    } else if d == 4 {
        '4'
    } else if d == 5 {
        '5'
    } else if d == 6 {
        '6'
    } else if d == 7 {
        '7'
    } else if d == 8 {
        '8'
    } else {
        '9'
    };
    out.push(c);
    assert(final(out)@ =~= old(out)@ + decimal(n as nat));
}

/// The `Host` header for a configured host value `raw`, given what parsing
/// it as a URL gave (`None` when it did not parse): `host:port` or `host`
/// when the URL had a host, else `raw` itself.
pub open spec fn host_header(raw: Seq<char>, parsed: Option<(Option<Seq<char>>, Option<u16>)>) -> Seq<
    char,
> {
    match parsed {
        Some((Some(h), Some(p))) => h + seq![':'] + decimal(p as nat),
        Some((Some(h), None)) => h,
        _ => raw,
    }
}

pub open spec fn parsed_view(parsed: Option<(Option<String>, Option<u16>)>) -> Option<
    (Option<Seq<char>>, Option<u16>),
> {
    match parsed {
        Some((Some(h), p)) => Some((Some(h@), p)),
        Some((None, p)) => Some((None, p)),
        None => None,
    }
}

/// What reading a string as an absolute URL gives: `None` when it is not
/// one, else its host (if any) and its explicit port (if any, and not the
/// scheme's default).
pub uninterp spec fn url_host_port(s: Seq<char>) -> Option<(Option<Seq<char>>, Option<u16>)>;

/// Relies on `url::Url::parse` and, on the parsed URL, `url::Url::host_str`
/// and `url::Url::port`: the result depends on the string alone.
#[verifier::external_body]
fn parse_host_port(s: &str) -> (r: Option<(Option<String>, Option<u16>)>)
    ensures
        parsed_view(r) == url_host_port(s@),
{
    match url::Url::parse(s) {
        Ok(u) => Some((u.host_str().map(|h| h.to_string()), u.port())),
        Err(_) => None,
    }
}

pub fn host_header_from_parsed(raw: &str, parsed: Option<(Option<String>, Option<u16>)>) -> (r:
    String)
    ensures
        r@ == host_header(raw@, parsed_view(parsed)),
{
    match parsed {
        Some((Some(h), Some(p))) => {
            let mut out = chars_of(h.as_str());
            out.push(':');
            push_decimal(&mut out, p);
            string_of(&out)
        },
        Some((Some(h), None)) => h,
        _ => String::from_str(raw),
    }
}

/// The URL that a host value stands for: itself when it names a scheme, else
/// the value behind `https://`.
pub open spec fn host_candidate(raw: Seq<char>) -> Seq<char> {
    if contains_seq(raw, scheme_separator()) {
        raw
    } else {
        seq!['h', 't', 't', 'p', 's', ':', '/', '/'] + raw
    }
}

/// The `Host` header to send upstream when the endpoint override is enabled
/// and names a non-blank host. It is `host[:port]` of that value read as a URL,
/// or the trimmed value itself where it has no host.
pub fn resolve_endpoint_proxy_host_header(cfg: &EndpointProxyConfig) -> (r: Option<String>)
    ensures
        r is None <==> (!cfg.enabled || cfg.host is None || trim(cfg.host->0@).len() == 0),
        r is Some ==> r->0@ == host_header(
            trim(cfg.host->0@),
            url_host_port(host_candidate(trim(cfg.host->0@))),
        ),
{
    if !cfg.enabled {
        return None;
    }
    let host = match &cfg.host {
        Some(h) => h,
        None => {
            return None;
        },
    };
    let raw_chars = trim_chars(&chars_of(host.as_str()));
    if raw_chars.len() == 0 {
        return None;
    }
    let raw = string_of(&raw_chars);
    let sep = vec![':', '/', '/'];
    assert(sep@ =~= scheme_separator());
    let candidate = if contains_chars(&raw_chars, &sep) {
        raw.clone()
    } else {
        let scheme = vec!['h', 't', 't', 'p', 's', ':', '/', '/'];
        let scheme_chars = concat_chars(&scheme, &raw_chars);
        assert(scheme@ =~= seq!['h', 't', 't', 'p', 's', ':', '/', '/']);
        string_of(&scheme_chars)
    };
    assert(candidate@ == host_candidate(raw@));
    let parsed = parse_host_port(candidate.as_str());
    Some(host_header_from_parsed(raw.as_str(), parsed))
}

} // verus!
