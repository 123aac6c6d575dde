//! The configuration and the document that it is saved as.
use vstd::prelude::*;

use crate::text;

verus! {

/// One deployment ID or several.
#[derive(Debug)]
pub enum ScriptId {
    One(String),
    Many(Vec<String>),
}

/// Domains that are reached through a CDN edge.
#[derive(Debug)]
pub struct FrontingGroup {
    pub name: String,
    pub ip: String,
    pub sni: String,
    pub domains: Vec<String>,
}

/// The optional second hop.
#[derive(Debug)]
pub struct ExitNodeConfig {
    pub enabled: bool,
    pub relay_url: String,
    pub psk: String,
    pub hosts: Vec<String>,
    pub mode: String,
}

/// Overrides of the direct mode for Google domains.
#[derive(Debug)]
pub struct DirectModeConfig {
    pub enabled: bool,
    pub fronts: Vec<String>,
    pub google_domains: Vec<String>,
    pub sanctioned_domains: Vec<String>,
}

/// The configuration. `extras` holds the members of the saved document that no
/// other field stands for.
#[derive(Debug)]
pub struct Config {
    pub mode: String,
    pub google_ip: String,
    pub front_domain: String,
    pub script_id: Option<ScriptId>,
    pub script_ids: Option<ScriptId>,
    pub auth_key: String,
    pub listen_host: String,
    pub listen_port: u16,
    pub socks5_port: Option<u16>,
    pub log_level: String,
    pub log_color_info: String,
    pub log_color_warn: String,
    pub log_color_error: String,
    pub verify_ssl: bool,
    pub hosts: Vec<(String, String)>,
    pub enable_batching: bool,
    pub upstream_socks5: Option<String>,
    pub parallel_relay: u8,
    pub coalesce_step_ms: u16,
    pub coalesce_max_ms: u16,
    pub sni_hosts: Option<Vec<String>>,
    pub fetch_ips_from_api: bool,
    pub max_ips_to_scan: usize,
    pub scan_batch_size: usize,
    pub google_ip_validation: bool,
    pub normalize_x_graphql: bool,
    pub youtube_via_relay: bool,
    pub relay_url_patterns: Vec<String>,
    pub sabr_strip: bool,
    pub passthrough_hosts: Vec<String>,
    pub block_quic: bool,
    pub block_stun: bool,
    pub disable_padding: bool,
    pub force_http1: bool,
    pub tunnel_doh: bool,
    pub bypass_doh_hosts: Vec<String>,
    pub block_doh: bool,
    pub fronting_groups: Vec<FrontingGroup>,
    pub auto_blacklist_strikes: u32,
    pub auto_blacklist_window_secs: u64,
    pub auto_blacklist_cooldown_secs: u64,
    pub request_timeout_secs: u64,
    pub apps_script_lang: String,
    pub exit_node: ExitNodeConfig,
    pub direct_mode: DirectModeConfig,
    pub extras: serde_json::Map<String, serde_json::Value>,
}

/// The colour of INFO lines where none is chosen.
pub const DEFAULT_LOG_COLOR_INFO: &'static str = "#5ab464";

/// The colour of WARN lines where none is chosen.
pub const DEFAULT_LOG_COLOR_WARN: &'static str = "#e0a83a";

/// The colour of ERROR lines where none is chosen.
pub const DEFAULT_LOG_COLOR_ERROR: &'static str = "#dc6e6e";

/// A copy of strings.
pub fn copy_texts(v: &Vec<String>) -> (r: Vec<String>)
    ensures
        r@ == v@,
{
    let mut r: Vec<String> = Vec::new();
    let mut i: usize = 0;
    while i < v.len()
        invariant
            i <= v@.len(),
            r@ == v@.take(i as int),
        decreases v@.len() - i,
    {
        r.push(v[i].clone());
        i = i + 1;
    }
    r
}

/// A copy of pairs of strings.
pub fn copy_pairs(v: &Vec<(String, String)>) -> (r: Vec<(String, String)>)
    ensures
        r@ == v@,
{
    let mut r: Vec<(String, String)> = Vec::new();
    let mut i: usize = 0;
    while i < v.len()
        invariant
            i <= v@.len(),
            r@ == v@.take(i as int),
        decreases v@.len() - i,
    {
        r.push((v[i].0.clone(), v[i].1.clone()));
        i = i + 1;
    }
    r
}

/// Two lists hold the same strings in the same order.
pub open spec fn same_texts(a: Vec<String>, b: Vec<String>) -> bool {
    text::texts(a@) == text::texts(b@)
}

/// Two exit-node settings are the same.
pub open spec fn same_exit_node(a: ExitNodeConfig, b: ExitNodeConfig) -> bool {
    &&& a.enabled == b.enabled
    &&& a.relay_url@ == b.relay_url@
    &&& a.psk@ == b.psk@
    &&& same_texts(a.hosts, b.hosts)
    &&& a.mode@ == b.mode@
}

/// Two direct-mode settings are the same.
pub open spec fn same_direct_mode(a: DirectModeConfig, b: DirectModeConfig) -> bool {
    &&& a.enabled == b.enabled
    &&& same_texts(a.fronts, b.fronts)
    &&& same_texts(a.google_domains, b.google_domains)
    &&& same_texts(a.sanctioned_domains, b.sanctioned_domains)
}

impl ExitNodeConfig {
    /// A copy.
    pub fn copy(&self) -> (r: ExitNodeConfig)
        ensures
            same_exit_node(r, *self),
    {
        ExitNodeConfig {
            enabled: self.enabled,
            relay_url: self.relay_url.clone(),
            psk: self.psk.clone(),
            hosts: copy_texts(&self.hosts),
            mode: self.mode.clone(),
        }
    }

    /// No exit node.
    pub fn disabled() -> (r: ExitNodeConfig)
        ensures
            default_exit_node(r),
            !r.enabled,
            r.mode@ == "selective"@,
    {
        let r = ExitNodeConfig {
            enabled: false,
            relay_url: String::new(),
            psk: String::new(),
            hosts: Vec::new(),
            mode: "selective".to_owned(),
        };
        r
    }
}

impl DirectModeConfig {
    /// A copy.
    pub fn copy(&self) -> (r: DirectModeConfig)
        ensures
            same_direct_mode(r, *self),
    {
        DirectModeConfig {
            enabled: self.enabled,
            fronts: copy_texts(&self.fronts),
            google_domains: copy_texts(&self.google_domains),
            sanctioned_domains: copy_texts(&self.sanctioned_domains),
        }
    }

    /// The built-in behaviour: enabled, without overrides.
    pub fn built_in() -> (r: DirectModeConfig)
        ensures
            default_direct_mode(r),
    {
        DirectModeConfig {
            enabled: true,
            fronts: Vec::new(),
            google_domains: Vec::new(),
            sanctioned_domains: Vec::new(),
        }
    }
}

/// Nothing is set up: disabled, without address, key or hosts, in the default
/// mode.
pub open spec fn default_exit_node(en: ExitNodeConfig) -> bool {
    &&& !en.enabled
    &&& en.relay_url@.len() == 0
    &&& en.psk@.len() == 0
    &&& en.hosts@.len() == 0
    &&& en.mode@.len() == 0 || en.mode@ == "selective"@
}

/// Enabled, without overrides.
pub open spec fn default_direct_mode(d: DirectModeConfig) -> bool {
    d.enabled && d.fronts@.len() == 0 && d.google_domains@.len() == 0
        && d.sanctioned_domains@.len() == 0
}

/// Empty, or the default up to ASCII case.
pub open spec fn default_or_blank(s: Seq<char>, default: Seq<char>) -> bool {
    s.len() == 0 || text::lower(s) == text::lower(default)
}

/// Tests for the default count of strikes.
pub fn is_default_strikes(v: &u32) -> (r: bool)
    ensures
        r == (*v == 3),
{
    *v == 3
}

/// Tests for the default strike window.
pub fn is_default_window_secs(v: &u64) -> (r: bool)
    ensures
        r == (*v == 30),
{
    *v == 30
}

/// Tests for the default cooldown.
pub fn is_default_cooldown_secs(v: &u64) -> (r: bool)
    ensures
        r == (*v == 120),
{
    *v == 120
}

/// Tests for the default request timeout.
pub fn is_default_timeout_secs(v: &u64) -> (r: bool)
    ensures
        r == (*v == 30),
{
    *v == 30
}

/// Tests for the default error-page language.
pub fn is_default_apps_script_lang(v: &str) -> (r: bool)
    ensures
        r == default_or_blank(v@, "en"@),
{
    v.is_empty() || text::same_ignoring_case(v, "en")
}

/// Tests whether no exit node is set up.
pub fn is_default_exit_node(en: &ExitNodeConfig) -> (r: bool)
    ensures
        r == default_exit_node(*en),
{
    !en.enabled && en.relay_url.as_str().is_empty() && en.psk.as_str().is_empty() && en.hosts.len()
        == 0 && (en.mode.as_str().is_empty() || text::same(en.mode.as_str(), "selective"))
}

/// Tests for the built-in direct mode.
pub fn is_default_direct_mode(d: &DirectModeConfig) -> (r: bool)
    ensures
        r == default_direct_mode(*d),
{
    d.enabled && d.fronts.len() == 0 && d.google_domains.len() == 0 && d.sanctioned_domains.len()
        == 0
}

/// Tests for the default colour of INFO lines.
pub fn is_default_log_color_info(s: &str) -> (r: bool)
    ensures
        r == default_or_blank(s@, DEFAULT_LOG_COLOR_INFO@),
{
    s.is_empty() || text::same_ignoring_case(s, DEFAULT_LOG_COLOR_INFO)
}

/// Tests for the default colour of WARN lines.
pub fn is_default_log_color_warn(s: &str) -> (r: bool)
    ensures
        r == default_or_blank(s@, DEFAULT_LOG_COLOR_WARN@),
{
    s.is_empty() || text::same_ignoring_case(s, DEFAULT_LOG_COLOR_WARN)
}

/// Tests for the default colour of ERROR lines.
pub fn is_default_log_color_error(s: &str) -> (r: bool)
    ensures
        r == default_or_blank(s@, DEFAULT_LOG_COLOR_ERROR@),
{
    s.is_empty() || text::same_ignoring_case(s, DEFAULT_LOG_COLOR_ERROR)
}

/// Tests for `false`.
pub fn is_false(b: &bool) -> (r: bool)
    ensures
        r == !*b,
{
    !*b
}

/// Tests for `true`.
pub fn is_true(b: &bool) -> (r: bool)
    ensures
        r == *b,
{
    *b
}

/// Tests for zero.
pub fn is_zero_u8(v: &u8) -> (r: bool)
    ensures
        r == (*v == 0),
{
    *v == 0
}

/// Tests for zero.
pub fn is_zero_u16(v: &u16) -> (r: bool)
    ensures
        r == (*v == 0),
{
    *v == 0
}

/// The keys that the configuration's own fields use in the saved document.
/// `script_ids` is only ever read.
pub open spec fn modeled_keys() -> Seq<Seq<char>> {
    seq![
        "mode"@,
        "google_ip"@,
        "front_domain"@,
        "script_id"@,
        "script_ids"@,
        "auth_key"@,
        "listen_host"@,
        "listen_port"@,
        "socks5_port"@,
        "log_level"@,
        "log_color_info"@,
        "log_color_warn"@,
        "log_color_error"@,
        "verify_ssl"@,
        "hosts"@,
        "enable_batching"@,
        "upstream_socks5"@,
        "parallel_relay"@,
        "coalesce_step_ms"@,
        "coalesce_max_ms"@,
        "sni_hosts"@,
        "fetch_ips_from_api"@,
        "max_ips_to_scan"@,
        "scan_batch_size"@,
        "google_ip_validation"@,
        "normalize_x_graphql"@,
        "youtube_via_relay"@,
        "relay_url_patterns"@,
        "sabr_strip"@,
        "passthrough_hosts"@,
        "block_quic"@,
        "block_stun"@,
        "disable_padding"@,
        "force_http1"@,
        "tunnel_doh"@,
        "bypass_doh_hosts"@,
        "block_doh"@,
        "fronting_groups"@,
        "auto_blacklist_strikes"@,
        "auto_blacklist_window_secs"@,
        "auto_blacklist_cooldown_secs"@,
        "request_timeout_secs"@,
        "apps_script_lang"@,
        "exit_node"@,
        "direct_mode"@,
    ]
}

/// The keys that the configuration's own fields use in the saved document.
pub fn modeled_config_keys() -> (keys: [&'static str; 45])
    ensures
        keys@.map_values(|k: &'static str| k@) == modeled_keys(),
{
    let keys: [&'static str; 45] = [
        "mode",
        "google_ip",
        "front_domain",
        "script_id",
        "script_ids",
        "auth_key",
        "listen_host",
        "listen_port",
        "socks5_port",
        "log_level",
        "log_color_info",
        "log_color_warn",
        "log_color_error",
        "verify_ssl",
        "hosts",
        "enable_batching",
        "upstream_socks5",
        "parallel_relay",
        "coalesce_step_ms",
        "coalesce_max_ms",
        "sni_hosts",
        "fetch_ips_from_api",
        "max_ips_to_scan",
        "scan_batch_size",
        "google_ip_validation",
        "normalize_x_graphql",
        "youtube_via_relay",
        "relay_url_patterns",
        "sabr_strip",
        "passthrough_hosts",
        "block_quic",
        "block_stun",
        "disable_padding",
        "force_http1",
        "tunnel_doh",
        "bypass_doh_hosts",
        "block_doh",
        "fronting_groups",
        "auto_blacklist_strikes",
        "auto_blacklist_window_secs",
        "auto_blacklist_cooldown_secs",
        "request_timeout_secs",
        "apps_script_lang",
        "exit_node",
        "direct_mode",
    ];
    proof {
        assert(keys@.map_values(|k: &'static str| k@) =~= modeled_keys());
    }
    keys
}

/// The key, trimmed, is one of the configuration's own.
pub open spec fn is_modeled(key: Seq<char>) -> bool {
    modeled_keys().contains(text::trimmed(key))
}

/// Tests whether a custom key would collide with a field of the configuration.
pub fn is_modeled_config_key(key: &str) -> (r: bool)
    ensures
        r == is_modeled(key@),
{
    let trimmed = text::trim(key);
    let keys = modeled_config_keys();
    let ghost list = keys@.map_values(|k: &'static str| k@);
    let mut i: usize = 0;
    while i < 45
        invariant
            i <= 45,
            keys@.len() == 45,
            list == keys@.map_values(|k: &'static str| k@),
            list == modeled_keys(),
            trimmed@ == text::trimmed(key@),
            forall|j: int| 0 <= j < i ==> #[trigger] list[j] != trimmed@,
        decreases 45 - i,
    {
        if text::same(keys[i], trimmed.as_str()) {
            proof {
                assert(list[i as int] == trimmed@);
            }
            return true;
        }
        proof {
            assert(list[i as int] == keys@[i as int]@);
        }
        i = i + 1;
    }
    false
}

/// A name is known with or without blanks around it.
pub proof fn law_known_names_ignore_blanks(before: Seq<char>, key: Seq<char>, after: Seq<char>)
    requires
        forall|i: int| 0 <= i < before.len() ==> text::is_space(#[trigger] before[i]),
        forall|i: int| 0 <= i < after.len() ==> text::is_space(#[trigger] after[i]),
        key.len() > 0,
        !text::is_space(key[0]),
        !text::is_space(key.last()),
    ensures
        is_modeled(before + key + after) <==> modeled_keys().contains(key),
{
    text::law_trimmed_is_the_core(before, key, after);
}

/// The exit node is as built in while it is off, has no relay, no key and no
/// hosts, and picks hosts; the direct mode while it is on and lists nothing.
pub proof fn law_as_built_in(en: ExitNodeConfig, d: DirectModeConfig)
    ensures
        default_exit_node(en) <==> !en.enabled && en.relay_url@.len() == 0 && en.psk@.len() == 0
            && en.hosts@.len() == 0 && (en.mode@.len() == 0 || en.mode@ == "selective"@),
        default_direct_mode(d) <==> d.enabled && d.fronts@.len() == 0 && d.google_domains@.len()
            == 0 && d.sanctioned_domains@.len() == 0,
{
}

/// A copy of an exit node or of a direct mode has every setting of the one it
/// was made of.
pub proof fn law_copies_keep_every_setting(
    a: ExitNodeConfig,
    b: ExitNodeConfig,
    c: DirectModeConfig,
    d: DirectModeConfig,
)
    ensures
        same_exit_node(a, b) ==> a.enabled == b.enabled && a.relay_url@ == b.relay_url@ && a.psk@
            == b.psk@ && text::texts(a.hosts@) == text::texts(b.hosts@) && a.mode@ == b.mode@,
        same_direct_mode(c, d) ==> c.enabled == d.enabled && text::texts(c.fronts@) == text::texts(
            d.fronts@,
        ) && text::texts(c.google_domains@) == text::texts(d.google_domains@) && text::texts(
            c.sanctioned_domains@,
        ) == text::texts(d.sanctioned_domains@),
{
}

} // verus!
