//! The admission gate: IP lists, authorization mode and the service switch.

use vstd::prelude::*;
use crate::chars::chars_of;
use crate::config::{ProxyAuthMode, SecurityMonitorConfig};

verus! {

/// Verdict on an inbound request.
#[derive(Clone, Copy, Debug, PartialEq, Eq, Structural)]
pub enum AdmissionDecision {
    Allow,
    Blacklisted,
    NotWhitelisted,
    Unauthorized,
    /// The gateway is switched off (service unavailable).
    ServiceDisabled,
}

/// What admission needs to know of one request.
pub struct AdmissionRequest {
    pub path: String,
    pub ip_blacklisted: bool,
    pub ip_whitelisted: bool,
    pub has_valid_credential: bool,
}

pub open spec fn starts_with(s: Seq<char>, p: Seq<char>) -> bool {
    s.len() >= p.len() && s.subrange(0, p.len() as int) == p
}

pub open spec fn admin_prefix() -> Seq<char> {
    seq!['/', 'a', 'p', 'i', '/']
}

pub open spec fn auth_callback_path() -> Seq<char> {
    seq!['/', 'a', 'u', 't', 'h', '/', 'c', 'a', 'l', 'l', 'b', 'a', 'c', 'k']
}

pub open spec fn health_path() -> Seq<char> {
    seq!['/', 'h', 'e', 'a', 'l', 't', 'h']
}

/// Administrative, OAuth-callback and liveness routes stay open while the
/// gateway is switched off.
pub open spec fn always_open_route(path: Seq<char>) -> bool {
    starts_with(path, admin_prefix()) || path == auth_callback_path() || path == health_path()
}

/// `Auto` stands for `AllExceptHealth` with LAN access and `Off` without.
pub open spec fn effective_mode(mode: ProxyAuthMode, allow_lan_access: bool) -> ProxyAuthMode {
    match mode {
        ProxyAuthMode::Auto => if allow_lan_access {
            ProxyAuthMode::AllExceptHealth
        } else {
            ProxyAuthMode::Off
        },
        m => m,
    }
}

pub open spec fn needs_credential(mode: ProxyAuthMode, allow_lan_access: bool, path: Seq<char>) -> bool {
    match effective_mode(mode, allow_lan_access) {
        ProxyAuthMode::Strict => true,
        ProxyAuthMode::AllExceptHealth => path != health_path(),
        _ => false,
    }
}

pub open spec fn admission(
    security: SecurityMonitorConfig,
    mode: ProxyAuthMode,
    allow_lan_access: bool,
    running: bool,
    path: Seq<char>,
    blacklisted: bool,
    whitelisted: bool,
    credential: bool,
) -> AdmissionDecision {
    let skip_blacklist = security.whitelist.enabled && security.whitelist.whitelist_priority
        && whitelisted;
    if security.blacklist.enabled && blacklisted && !skip_blacklist {
        AdmissionDecision::Blacklisted
    } else if security.whitelist.enabled && !whitelisted {
        AdmissionDecision::NotWhitelisted
    } else if needs_credential(mode, allow_lan_access, path) && !credential {
        AdmissionDecision::Unauthorized
    } else if !running && !always_open_route(path) {
        AdmissionDecision::ServiceDisabled
    } else {
        AdmissionDecision::Allow
    }
}

fn starts_with_chars(s: &Vec<char>, p: &Vec<char>) -> (r: bool)
    ensures
        r == starts_with(s@, p@),
{
    if s.len() < p.len() {
        return false;
    }
    let mut i: usize = 0;
    while i < p.len()
        invariant
            i <= p@.len() <= s@.len(),
            forall|j: int| 0 <= j < i ==> s@[j] == p@[j],
        decreases p@.len() - i,
    {
        if s[i] != p[i] {
            assert(s@.subrange(0, p@.len() as int)[i as int] != p@[i as int]);
            return false;
        }
        i += 1;
    }
    assert(s@.subrange(0, p@.len() as int) =~= p@);
    true
}

fn equal_chars(s: &Vec<char>, p: &Vec<char>) -> (r: bool)
    ensures
        r == (s@ == p@),
{
    if s.len() != p.len() {
        return false;
    }
    let r = starts_with_chars(s, p);
    assert(s@.subrange(0, p@.len() as int) =~= s@);
    r
}

/// Whether `path` stays reachable while the gateway is switched off.
pub fn is_always_open_route(path: &str) -> (r: bool)
    ensures
        r == always_open_route(path@),
{
    let t = chars_of(path);
    let api = vec!['/', 'a', 'p', 'i', '/'];
    let callback = vec!['/', 'a', 'u', 't', 'h', '/', 'c', 'a', 'l', 'l', 'b', 'a', 'c', 'k'];
    let health = vec!['/', 'h', 'e', 'a', 'l', 't', 'h'];
    assert(api@ =~= admin_prefix());
    assert(callback@ =~= auth_callback_path());
    assert(health@ =~= health_path());
    starts_with_chars(&t, &api) || equal_chars(&t, &callback) || equal_chars(&t, &health)
}

/// The service switch alone: a request passes when the gateway runs or its
/// route stays open.
pub fn service_gate(path: &str, running: bool) -> (r: bool)
    ensures
        r == (running || always_open_route(path@)),
{
    if is_always_open_route(path) {
        return true;
    }
    running
}

pub fn effective_auth_mode(mode: ProxyAuthMode, allow_lan_access: bool) -> (r: ProxyAuthMode)
    ensures
        r == effective_mode(mode, allow_lan_access),
{
    match mode {
        ProxyAuthMode::Auto => if allow_lan_access {
            ProxyAuthMode::AllExceptHealth
        } else {
            ProxyAuthMode::Off
        },
        m => m,
    }
}

/// Decides admission: blacklist (skipped for a whitelisted address when the
/// whitelist has priority), whitelist, authorization, then the service switch.
pub fn check_admission(
    security: &SecurityMonitorConfig,
    mode: ProxyAuthMode,
    allow_lan_access: bool,
    running: bool,
    req: &AdmissionRequest,
) -> (r: AdmissionDecision)
    ensures
        r == admission(
            *security,
            mode,
            allow_lan_access,
            running,
            req.path@,
            req.ip_blacklisted,
            req.ip_whitelisted,
            req.has_valid_credential,
        ),
{
    let skip_blacklist = security.whitelist.enabled && security.whitelist.whitelist_priority
        && req.ip_whitelisted;
    if security.blacklist.enabled && req.ip_blacklisted && !skip_blacklist {
        return AdmissionDecision::Blacklisted;
    }
    if security.whitelist.enabled && !req.ip_whitelisted {
        return AdmissionDecision::NotWhitelisted;
    }
    let t = chars_of(req.path.as_str());
    let health = vec!['/', 'h', 'e', 'a', 'l', 't', 'h'];
    assert(health@ =~= health_path());
    let needs = match effective_auth_mode(mode, allow_lan_access) {
        ProxyAuthMode::Strict => true,
        ProxyAuthMode::AllExceptHealth => !equal_chars(&t, &health),
        _ => false,
    };
    if needs && !req.has_valid_credential {
        return AdmissionDecision::Unauthorized;
    }
    if !service_gate(req.path.as_str(), running) {
        return AdmissionDecision::ServiceDisabled;
    }
    AdmissionDecision::Allow
}

} // verus!
