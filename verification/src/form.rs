//! The settings form: loading it from a configuration, its checks, and the
//! configuration that it is saved as.
use vstd::prelude::*;

use crate::config;
use crate::config::{Config, DirectModeConfig, ExitNodeConfig, FrontingGroup, ScriptId};
use crate::custom_params;
use crate::fronting;
use crate::json;
use crate::json::JsonView;
use crate::log_view;
use crate::numeral;
use crate::sni;
use crate::sni::SniRow;
use crate::text;

verus! {

/// The form. The settings without a widget are carried along, so that saving
/// keeps what the file had.
pub struct FormState {
    pub mode: String,
    pub script_id: String,
    pub auth_key: String,
    pub google_ip: String,
    pub front_domain: String,
    pub listen_host: String,
    pub listen_port: String,
    pub socks5_port: String,
    pub log_level: String,
    pub verify_ssl: bool,
    pub upstream_socks5: String,
    pub parallel_relay: u8,
    pub show_auth_key: bool,
    pub sni_pool: Vec<SniRow>,
    pub sni_custom_input: String,
    pub discover_hostname_input: String,
    /// One text of domains for each fronting group, by position.
    pub domain_buffers: Vec<String>,
    pub sni_editor_open: bool,
    pub show_log: bool,
    pub fetch_ips_from_api: bool,
    pub max_ips_to_scan: usize,
    pub scan_batch_size: usize,
    pub google_ip_validation: bool,
    pub normalize_x_graphql: bool,
    pub youtube_via_relay: bool,
    pub relay_url_patterns: Vec<String>,
    pub sabr_strip: bool,
    pub passthrough_hosts: Vec<String>,
    pub block_quic: bool,
    pub block_stun: bool,
    pub disable_padding: bool,
    pub force_http1: bool,
    pub tunnel_doh: bool,
    pub bypass_doh_hosts: Vec<String>,
    pub block_doh: bool,
    pub fronting_groups: Vec<FrontingGroup>,
    pub auto_blacklist_strikes: u32,
    pub auto_blacklist_window_secs: u64,
    pub auto_blacklist_cooldown_secs: u64,
    pub request_timeout_secs: u64,
    pub apps_script_lang: String,
    pub exit_node: ExitNodeConfig,
    pub direct_mode: DirectModeConfig,
    pub hosts_passthrough: Vec<(String, String)>,
    pub enable_batching: bool,
    pub coalesce_step_ms: u16,
    pub coalesce_max_ms: u16,
    pub log_color_info: String,
    pub log_color_warn: String,
    pub log_color_error: String,
    pub log_color_editor_open: bool,
    /// Rows of a key and a value for the settings that no field stands for.
    pub custom_params_buffer: Vec<(String, String)>,
}

/// The mode runs without the relay. `google_only` is an old name of `direct`.
pub open spec fn is_direct(mode: Seq<char>) -> bool {
    mode == "direct"@ || mode == "google_only"@
}

/// Tests for a mode that runs without the relay.
pub fn is_direct_mode(mode: &str) -> (r: bool)
    ensures
        r == is_direct(mode@),
{
    text::same(mode, "direct") || text::same(mode, "google_only")
}

/// The IDs that a text lists, between commas and newlines.
pub open spec fn entered_ids(s: Seq<char>) -> Seq<Seq<char>> {
    text::cleaned(text::split(s, ',', '\n'))
}

/// The IDs of a setting.
pub open spec fn ids_of(s: Option<ScriptId>) -> Seq<Seq<char>> {
    match s {
        Some(ScriptId::One(id)) => seq![id@],
        Some(ScriptId::Many(ids)) => text::texts(ids@),
        None => Seq::empty(),
    }
}

/// The setting has the form that its number of IDs asks for.
pub open spec fn is_collapsed(s: Option<ScriptId>) -> bool {
    match s {
        Some(ScriptId::One(_)) => true,
        Some(ScriptId::Many(ids)) => ids@.len() > 1,
        None => true,
    }
}

/// The IDs that are in force: those of `script_id`, or where it is absent, of
/// `script_ids`.
pub open spec fn loaded_ids(c: Config) -> Seq<Seq<char>> {
    match c.script_id {
        Some(_) => ids_of(c.script_id),
        None => ids_of(c.script_ids),
    }
}

/// The IDs in force as the form shows them, one to a line.
pub open spec fn shown_ids(c: Config) -> Seq<char> {
    text::joined(loaded_ids(c), "\n"@)
}

/// The SOCKS5 port that the form asks for, if any.
pub open spec fn entered_socks5(f: FormState) -> Option<nat> {
    if text::trimmed(f.socks5_port@).len() == 0 {
        None
    } else {
        numeral::parsed(f.socks5_port@, 0xffff)
    }
}

/// The first row, from `from` on, whose key is one of the configuration's own.
pub open spec fn first_collision(r: Seq<(Seq<char>, Seq<char>)>, from: int) -> Option<Seq<char>>
    decreases r.len() - from,
{
    if from < 0 || from >= r.len() {
        None
    } else if config::is_modeled(r[from].0) {
        Some(text::trimmed(r[from].0))
    } else {
        first_collision(r, from + 1)
    }
}

/// The complaint about a custom row with a key of the configuration's own.
pub open spec fn collision_text(key: Seq<char>) -> Seq<char> {
    "Custom parameter '"@ + key
        + "' collides with a built-in field. Remove the custom row or rename it \u{2014} the form above already controls this value."@
}

/// Why the form cannot be saved.
pub open spec fn complaint(f: FormState) -> Option<Seq<char>> {
    let http = numeral::parsed(f.listen_port@, 0xffff);
    let collision = first_collision(custom_params::rows(f.custom_params_buffer@), 0);
    if !is_direct(f.mode@) && text::trimmed(f.script_id@).len() == 0 {
        Some("Apps Script ID is required"@)
    } else if !is_direct(f.mode@) && text::trimmed(f.auth_key@).len() == 0 {
        Some("Auth key is required"@)
    } else if http is None {
        Some("HTTP port must be a number"@)
    } else if text::trimmed(f.socks5_port@).len() > 0 && entered_socks5(f) is None {
        Some("SOCKS5 port must be a number"@)
    } else if entered_socks5(f) == http {
        Some("HTTP and SOCKS5 ports must be different"@)
    } else if collision is Some {
        Some(collision_text(collision->0))
    } else {
        None
    }
}

/// A text setting that is absent when blank.
pub open spec fn is_optional_text(s: Option<String>, entered: Seq<char>) -> bool {
    match s {
        Some(t) => text::trimmed(entered).len() > 0 && t@ == text::trimmed(entered),
        None => text::trimmed(entered).len() == 0,
    }
}

/// A list setting that is absent when empty.
pub open spec fn is_optional_list(v: Option<Vec<String>>, names: Seq<Seq<char>>) -> bool {
    match v {
        Some(list) => names.len() > 0 && text::texts(list@) == names,
        None => names.len() == 0,
    }
}

/// Form and configuration agree on the settings that the form only carries.
pub open spec fn carried(f: FormState, c: Config) -> bool {
    &&& f.verify_ssl == c.verify_ssl
    &&& f.fetch_ips_from_api == c.fetch_ips_from_api
    &&& f.google_ip_validation == c.google_ip_validation
    &&& f.normalize_x_graphql == c.normalize_x_graphql
    &&& f.youtube_via_relay == c.youtube_via_relay
    &&& f.sabr_strip == c.sabr_strip
    &&& f.block_quic == c.block_quic
    &&& f.block_stun == c.block_stun
    &&& f.disable_padding == c.disable_padding
    &&& f.force_http1 == c.force_http1
    &&& f.tunnel_doh == c.tunnel_doh
    &&& f.block_doh == c.block_doh
    &&& f.enable_batching == c.enable_batching
    &&& f.parallel_relay == c.parallel_relay
    &&& f.max_ips_to_scan == c.max_ips_to_scan
    &&& f.scan_batch_size == c.scan_batch_size
    &&& f.auto_blacklist_strikes == c.auto_blacklist_strikes
    &&& f.auto_blacklist_window_secs == c.auto_blacklist_window_secs
    &&& f.auto_blacklist_cooldown_secs == c.auto_blacklist_cooldown_secs
    &&& f.request_timeout_secs == c.request_timeout_secs
    &&& f.coalesce_step_ms == c.coalesce_step_ms
    &&& f.coalesce_max_ms == c.coalesce_max_ms
    &&& f.relay_url_patterns@ == c.relay_url_patterns@
    &&& f.passthrough_hosts@ == c.passthrough_hosts@
    &&& f.bypass_doh_hosts@ == c.bypass_doh_hosts@
    &&& f.hosts_passthrough@ == c.hosts@
    &&& f.apps_script_lang@ == c.apps_script_lang@
    &&& config::same_exit_node(f.exit_node, c.exit_node)
    &&& config::same_direct_mode(f.direct_mode, c.direct_mode)
}

/// `c` is the configuration that the form stands for.
pub open spec fn is_config_of(f: FormState, c: Config) -> bool {
    &&& carried(f, c)
    &&& c.mode@ == f.mode@
    &&& c.google_ip@ == text::trimmed(f.google_ip@)
    &&& c.front_domain@ == text::trimmed(f.front_domain@)
    &&& ids_of(c.script_id) == entered_ids(f.script_id@)
    &&& is_collapsed(c.script_id)
    &&& c.script_ids is None
    &&& c.auth_key@ == f.auth_key@
    &&& c.listen_host@ == text::trimmed(f.listen_host@)
    &&& numeral::parsed(f.listen_port@, 0xffff) == Some(c.listen_port as nat)
    &&& entered_socks5(f) == (match c.socks5_port {
        Some(p) => Some(p as nat),
        None => None,
    })
    &&& c.log_level@ == text::trimmed(f.log_level@)
    &&& c.log_color_info@ == log_view::normal_color(
        f.log_color_info@,
        config::DEFAULT_LOG_COLOR_INFO@,
    )
    &&& c.log_color_warn@ == log_view::normal_color(
        f.log_color_warn@,
        config::DEFAULT_LOG_COLOR_WARN@,
    )
    &&& c.log_color_error@ == log_view::normal_color(
        f.log_color_error@,
        config::DEFAULT_LOG_COLOR_ERROR@,
    )
    &&& is_optional_text(c.upstream_socks5, f.upstream_socks5@)
    &&& is_optional_list(c.sni_hosts, sni::active_names(sni::row_views(f.sni_pool@)))
    &&& fronting::views(c.fronting_groups@) == fronting::saved_groups(
        fronting::views(f.fronting_groups@),
        text::texts(f.domain_buffers@),
        f.fronting_groups@.len() as int,
    )
    &&& json::members(c.extras) == custom_params::extras_of(
        custom_params::rows(f.custom_params_buffer@),
    )
}

/// A loaded mode under its present name.
pub open spec fn present_mode(mode: Seq<char>) -> Seq<char> {
    if mode == "google_only"@ {
        "direct"@
    } else {
        mode
    }
}

/// Nothing is being edited: editors are closed, inputs empty, the log shown.
pub open spec fn is_at_rest(f: FormState) -> bool {
    &&& !f.show_auth_key
    &&& f.sni_custom_input@.len() == 0
    &&& f.discover_hostname_input@.len() == 0
    &&& !f.sni_editor_open
    &&& f.show_log
    &&& !f.log_color_editor_open
}

/// The rows show the members, and stand for them again: for each one that the
/// editor does not change, and for all where it changes none.
pub open spec fn is_table_of(
    r: Seq<(Seq<char>, Seq<char>)>,
    m: Map<Seq<char>, JsonView>,
) -> bool {
    &&& custom_params::shows(r, m)
    &&& custom_params::keeps(custom_params::extras_of(r), m)
    &&& custom_params::all_editable(m) ==> custom_params::extras_of(r) == m
}

/// `f` is the form in which the configuration is first shown.
pub open spec fn is_form_of(c: Config, f: FormState) -> bool {
    &&& carried(f, c)
    &&& is_at_rest(f)
    &&& f.mode@ == present_mode(c.mode@)
    &&& f.script_id@ == shown_ids(c)
    &&& f.auth_key@ == c.auth_key@
    &&& f.google_ip@ == c.google_ip@
    &&& f.front_domain@ == c.front_domain@
    &&& f.listen_host@ == c.listen_host@
    &&& f.listen_port@ == numeral::decimal(c.listen_port as nat)
    &&& f.socks5_port@ == (match c.socks5_port {
        Some(p) => numeral::decimal(p as nat),
        None => Seq::empty(),
    })
    &&& f.log_level@ == c.log_level@
    &&& f.log_color_info@ == log_view::normal_color(
        c.log_color_info@,
        config::DEFAULT_LOG_COLOR_INFO@,
    )
    &&& f.log_color_warn@ == log_view::normal_color(
        c.log_color_warn@,
        config::DEFAULT_LOG_COLOR_WARN@,
    )
    &&& f.log_color_error@ == log_view::normal_color(
        c.log_color_error@,
        config::DEFAULT_LOG_COLOR_ERROR@,
    )
    &&& f.upstream_socks5@ == (match c.upstream_socks5 {
        Some(s) => s@,
        None => Seq::empty(),
    })
    &&& sni::row_views(f.sni_pool@) == sni::enabled_rows(
        sni::form_names(sni::configured(c.sni_hosts), c.front_domain@),
    )
    &&& fronting::views(f.fronting_groups@) == fronting::views(c.fronting_groups@)
    &&& text::texts(f.domain_buffers@) == fronting::initial_texts(
        fronting::views(c.fronting_groups@),
    )
    &&& is_table_of(custom_params::rows(f.custom_params_buffer@), json::members(c.extras))
}

/// `f` is the form of a fresh install.
pub open spec fn is_fresh_install(f: FormState) -> bool {
    &&& is_at_rest(f)
    &&& f.mode@ == "apps_script"@
    &&& f.script_id@.len() == 0
    &&& f.auth_key@.len() == 0
    &&& f.google_ip@ == "216.239.38.120"@
    &&& f.front_domain@ == "www.google.com"@
    &&& f.listen_host@ == "127.0.0.1"@
    &&& f.listen_port@ == "8085"@
    &&& f.socks5_port@ == "8086"@
    &&& f.log_level@ == "info"@
    &&& f.verify_ssl
    &&& f.upstream_socks5@.len() == 0
    &&& f.parallel_relay == 0
    &&& sni::row_views(f.sni_pool@) == sni::enabled_rows(
        sni::form_names(Seq::empty(), "www.google.com"@),
    )
    &&& f.domain_buffers@.len() == 0
    &&& !f.fetch_ips_from_api
    &&& f.max_ips_to_scan == 100
    &&& f.google_ip_validation
    &&& f.scan_batch_size == 500
    &&& !f.normalize_x_graphql
    &&& !f.youtube_via_relay
    &&& f.relay_url_patterns@.len() == 0
    &&& !f.sabr_strip
    &&& f.passthrough_hosts@.len() == 0
    &&& f.block_quic
    &&& !f.block_stun
    &&& !f.disable_padding
    &&& !f.force_http1
    &&& f.tunnel_doh
    &&& f.bypass_doh_hosts@.len() == 0
    &&& f.block_doh
    &&& f.fronting_groups@.len() == 0
    &&& f.auto_blacklist_strikes == 3
    &&& f.auto_blacklist_window_secs == 30
    &&& f.auto_blacklist_cooldown_secs == 120
    &&& f.request_timeout_secs == 30
    &&& f.apps_script_lang@ == "en"@
    &&& config::default_exit_node(f.exit_node)
    &&& config::default_direct_mode(f.direct_mode)
    &&& f.custom_params_buffer@.len() == 0
    &&& f.hosts_passthrough@.len() == 0
    &&& !f.enable_batching
    &&& f.coalesce_step_ms == 0
    &&& f.coalesce_max_ms == 0
    &&& f.log_color_info@ == config::DEFAULT_LOG_COLOR_INFO@
    &&& f.log_color_warn@ == config::DEFAULT_LOG_COLOR_WARN@
    &&& f.log_color_error@ == config::DEFAULT_LOG_COLOR_ERROR@
}

fn entered_script_id(s: &str) -> (r: Option<ScriptId>)
    ensures
        ids_of(r) == entered_ids(s@),
        is_collapsed(r),
{
    let pieces = text::split_at_either(s, ',', '\n');
    let ids = text::clean(&pieces);
    proof {
        assert(text::texts(ids@).len() == ids@.len());
    }
    if ids.len() == 0 {
        proof {
            assert(text::texts(ids@) =~= Seq::empty());
        }
        None
    } else if ids.len() == 1 {
        proof {
            assert(text::texts(ids@) =~= seq![ids@[0]@]);
        }
        Some(ScriptId::One(ids[0].clone()))
    } else {
        Some(ScriptId::Many(ids))
    }
}

/// How many IDs a text lists.
pub fn count_ids(s: &str) -> (n: usize)
    ensures
        n == entered_ids(s@).len(),
{
    let pieces = text::split_at_either(s, ',', '\n');
    let ids = text::clean(&pieces);
    proof {
        assert(text::texts(ids@).len() == ids@.len());
    }
    ids.len()
}

fn show_script_ids(s: &ScriptId) -> (r: String)
    ensures
        r@ == text::joined(ids_of(Some(*s)), "\n"@),
{
    match s {
        ScriptId::One(id) => id.clone(),
        ScriptId::Many(ids) => text::join(ids, "\n"),
    }
}

fn show_loaded_ids(c: &Config) -> (r: String)
    ensures
        r@ == shown_ids(*c),
{
    match &c.script_id {
        Some(s) => show_script_ids(s),
        None => match &c.script_ids {
            Some(s) => show_script_ids(s),
            None => String::new(),
        },
    }
}

fn show_mode(mode: &str) -> (r: String)
    ensures
        r@ == present_mode(mode@),
{
    if text::same(mode, "google_only") {
        "direct".to_owned()
    } else {
        mode.to_owned()
    }
}

fn show_port(port: Option<u16>) -> (r: String)
    ensures
        r@ == (match port {
            Some(p) => numeral::decimal(p as nat),
            None => Seq::empty(),
        }),
{
    match port {
        Some(p) => numeral::to_decimal(p as u64),
        None => String::new(),
    }
}

fn show_optional(s: &Option<String>) -> (r: String)
    ensures
        r@ == (match s {
            Some(t) => t@,
            None => Seq::empty(),
        }),
{
    match s {
        Some(t) => t.clone(),
        None => String::new(),
    }
}

fn find_collision(rows: &Vec<(String, String)>) -> (r: Option<String>)
    ensures
        match r {
            Some(key) => first_collision(custom_params::rows(rows@), 0) == Some(key@),
            None => first_collision(custom_params::rows(rows@), 0) is None,
        },
{
    let ghost rv = custom_params::rows(rows@);
    let mut i: usize = 0;
    while i < rows.len()
        invariant
            i <= rows@.len(),
            rv == custom_params::rows(rows@),
            first_collision(rv, 0) == first_collision(rv, i as int),
        decreases rows@.len() - i,
    {
        proof {
            assert(rv[i as int].0 == rows@[i as int].0@);
        }
        if config::is_modeled_config_key(rows[i].0.as_str()) {
            return Some(text::trim(rows[i].0.as_str()));
        }
        i = i + 1;
    }
    None
}

fn optional_text(entered: &str) -> (r: Option<String>)
    ensures
        is_optional_text(r, entered@),
{
    let t = text::trim(entered);
    if t.as_str().is_empty() {
        None
    } else {
        Some(t)
    }
}

fn optional_names(rows: &Vec<SniRow>) -> (r: Option<Vec<String>>)
    ensures
        is_optional_list(r, sni::active_names(sni::row_views(rows@))),
{
    let names = sni::active_rows(rows);
    proof {
        assert(text::texts(names@).len() == names@.len());
    }
    if names.len() == 0 {
        None
    } else {
        Some(names)
    }
}

impl FormState {
    /// The form of a fresh install.
    pub fn fresh_install_defaults() -> (f: FormState)
        ensures
            is_fresh_install(f),
    {
        FormState {
            mode: "apps_script".to_owned(),
            script_id: String::new(),
            auth_key: String::new(),
            google_ip: "216.239.38.120".to_owned(),
            front_domain: "www.google.com".to_owned(),
            listen_host: "127.0.0.1".to_owned(),
            listen_port: "8085".to_owned(),
            socks5_port: "8086".to_owned(),
            log_level: "info".to_owned(),
            verify_ssl: true,
            upstream_socks5: String::new(),
            parallel_relay: 0,
            show_auth_key: false,
            sni_pool: sni::sni_pool_for_form(&None, "www.google.com"),
            sni_custom_input: String::new(),
            discover_hostname_input: String::new(),
            domain_buffers: Vec::new(),
            sni_editor_open: false,
            show_log: true,
            fetch_ips_from_api: false,
            max_ips_to_scan: 100,
            google_ip_validation: true,
            scan_batch_size: 500,
            normalize_x_graphql: false,
            youtube_via_relay: false,
            relay_url_patterns: Vec::new(),
            sabr_strip: false,
            passthrough_hosts: Vec::new(),
            block_quic: true,
            block_stun: false,
            disable_padding: false,
            force_http1: false,
            tunnel_doh: true,
            bypass_doh_hosts: Vec::new(),
            block_doh: true,
            fronting_groups: Vec::new(),
            auto_blacklist_strikes: 3,
            auto_blacklist_window_secs: 30,
            auto_blacklist_cooldown_secs: 120,
            request_timeout_secs: 30,
            apps_script_lang: "en".to_owned(),
            exit_node: ExitNodeConfig::disabled(),
            direct_mode: DirectModeConfig::built_in(),
            custom_params_buffer: Vec::new(),
            hosts_passthrough: Vec::new(),
            enable_batching: false,
            coalesce_step_ms: 0,
            coalesce_max_ms: 0,
            log_color_info: config::DEFAULT_LOG_COLOR_INFO.to_owned(),
            log_color_warn: config::DEFAULT_LOG_COLOR_WARN.to_owned(),
            log_color_error: config::DEFAULT_LOG_COLOR_ERROR.to_owned(),
            log_color_editor_open: false,
        }
    }

    /// The form in which a configuration is first shown.
    pub fn from_config(c: &Config) -> (f: FormState)
        ensures
            is_form_of(*c, f),
    {
        FormState {
            mode: show_mode(c.mode.as_str()),
            script_id: show_loaded_ids(c),
            auth_key: c.auth_key.clone(),
            google_ip: c.google_ip.clone(),
            front_domain: c.front_domain.clone(),
            listen_host: c.listen_host.clone(),
            listen_port: numeral::to_decimal(c.listen_port as u64),
            socks5_port: show_port(c.socks5_port),
            log_level: c.log_level.clone(),
            upstream_socks5: show_optional(&c.upstream_socks5),
            show_auth_key: false,
            sni_pool: sni::sni_pool_for_form(&c.sni_hosts, c.front_domain.as_str()),
            sni_custom_input: String::new(),
            discover_hostname_input: String::new(),
            domain_buffers: fronting::initial_buffers(&c.fronting_groups),
            sni_editor_open: false,
            show_log: true,
            verify_ssl: c.verify_ssl,
            fetch_ips_from_api: c.fetch_ips_from_api,
            google_ip_validation: c.google_ip_validation,
            normalize_x_graphql: c.normalize_x_graphql,
            youtube_via_relay: c.youtube_via_relay,
            sabr_strip: c.sabr_strip,
            block_quic: c.block_quic,
            block_stun: c.block_stun,
            disable_padding: c.disable_padding,
            force_http1: c.force_http1,
            tunnel_doh: c.tunnel_doh,
            block_doh: c.block_doh,
            enable_batching: c.enable_batching,
            parallel_relay: c.parallel_relay,
            max_ips_to_scan: c.max_ips_to_scan,
            scan_batch_size: c.scan_batch_size,
            auto_blacklist_strikes: c.auto_blacklist_strikes,
            auto_blacklist_window_secs: c.auto_blacklist_window_secs,
            auto_blacklist_cooldown_secs: c.auto_blacklist_cooldown_secs,
            request_timeout_secs: c.request_timeout_secs,
            coalesce_step_ms: c.coalesce_step_ms,
            coalesce_max_ms: c.coalesce_max_ms,
            relay_url_patterns: config::copy_texts(&c.relay_url_patterns),
            passthrough_hosts: config::copy_texts(&c.passthrough_hosts),
            bypass_doh_hosts: config::copy_texts(&c.bypass_doh_hosts),
            fronting_groups: fronting::copy_groups(&c.fronting_groups),
            apps_script_lang: c.apps_script_lang.clone(),
            exit_node: c.exit_node.copy(),
            direct_mode: c.direct_mode.copy(),
            custom_params_buffer: custom_params::extras_to_buffer(&c.extras),
            hosts_passthrough: config::copy_pairs(&c.hosts),
            log_color_info: log_view::normalize_log_color(
                c.log_color_info.as_str(),
                config::DEFAULT_LOG_COLOR_INFO,
            ),
            log_color_warn: log_view::normalize_log_color(
                c.log_color_warn.as_str(),
                config::DEFAULT_LOG_COLOR_WARN,
            ),
            log_color_error: log_view::normalize_log_color(
                c.log_color_error.as_str(),
                config::DEFAULT_LOG_COLOR_ERROR,
            ),
            log_color_editor_open: false,
        }
    }

    fn check(&self) -> (r: Result<(u16, Option<u16>), String>)
        ensures
            match r {
                Ok(ports) => {
                    &&& complaint(*self) is None
                    &&& numeral::parsed(self.listen_port@, 0xffff) == Some(ports.0 as nat)
                    &&& entered_socks5(*self) == (match ports.1 {
                        Some(p) => Some(p as nat),
                        None => None,
                    })
                },
                Err(e) => complaint(*self) == Some(e@),
            },
    {
        if !is_direct_mode(self.mode.as_str()) {
            if text::trim(self.script_id.as_str()).as_str().is_empty() {
                return Err("Apps Script ID is required".to_owned());
            }
            if text::trim(self.auth_key.as_str()).as_str().is_empty() {
                return Err("Auth key is required".to_owned());
            }
        }
        let listen_port: u16 = match numeral::parse_u16(self.listen_port.as_str()) {
            Some(p) => p,
            None => return Err("HTTP port must be a number".to_owned()),
        };
        let socks5_port: Option<u16> = if text::trim(self.socks5_port.as_str()).as_str().is_empty() {
            None
        } else {
            match numeral::parse_u16(self.socks5_port.as_str()) {
                Some(p) => Some(p),
                None => return Err("SOCKS5 port must be a number".to_owned()),
            }
        };
        if let Some(p) = socks5_port {
            if p == listen_port {
                return Err("HTTP and SOCKS5 ports must be different".to_owned());
            }
        }
        if let Some(key) = find_collision(&self.custom_params_buffer) {
            return Err(
                "Custom parameter '".to_owned().concat(key.as_str()).concat(
                    "' collides with a built-in field. Remove the custom row or rename it \u{2014} the form above already controls this value.",
                ),
            );
        }
        Ok((listen_port, socks5_port))
    }

    /// The configuration that the form stands for, or why it cannot be saved.
    pub fn to_config(&self) -> (r: Result<Config, String>)
        ensures
            match r {
                Ok(c) => complaint(*self) is None && is_config_of(*self, c),
                Err(e) => complaint(*self) == Some(e@),
            },
    {
        let (listen_port, socks5_port) = match self.check() {
            Ok(ports) => ports,
            Err(e) => return Err(e),
        };
        Ok(Config {
            mode: self.mode.clone(),
            google_ip: text::trim(self.google_ip.as_str()),
            front_domain: text::trim(self.front_domain.as_str()),
            script_id: entered_script_id(self.script_id.as_str()),
            script_ids: None,
            auth_key: self.auth_key.clone(),
            listen_host: text::trim(self.listen_host.as_str()),
            listen_port,
            socks5_port,
            log_level: text::trim(self.log_level.as_str()),
            log_color_info: log_view::normalize_log_color(
                self.log_color_info.as_str(),
                config::DEFAULT_LOG_COLOR_INFO,
            ),
            log_color_warn: log_view::normalize_log_color(
                self.log_color_warn.as_str(),
                config::DEFAULT_LOG_COLOR_WARN,
            ),
            log_color_error: log_view::normalize_log_color(
                self.log_color_error.as_str(),
                config::DEFAULT_LOG_COLOR_ERROR,
            ),
            hosts: config::copy_pairs(&self.hosts_passthrough),
            upstream_socks5: optional_text(self.upstream_socks5.as_str()),
            sni_hosts: optional_names(&self.sni_pool),
            verify_ssl: self.verify_ssl,
            fetch_ips_from_api: self.fetch_ips_from_api,
            google_ip_validation: self.google_ip_validation,
            normalize_x_graphql: self.normalize_x_graphql,
            youtube_via_relay: self.youtube_via_relay,
            sabr_strip: self.sabr_strip,
            block_quic: self.block_quic,
            block_stun: self.block_stun,
            disable_padding: self.disable_padding,
            force_http1: self.force_http1,
            tunnel_doh: self.tunnel_doh,
            block_doh: self.block_doh,
            enable_batching: self.enable_batching,
            parallel_relay: self.parallel_relay,
            max_ips_to_scan: self.max_ips_to_scan,
            scan_batch_size: self.scan_batch_size,
            auto_blacklist_strikes: self.auto_blacklist_strikes,
            auto_blacklist_window_secs: self.auto_blacklist_window_secs,
            auto_blacklist_cooldown_secs: self.auto_blacklist_cooldown_secs,
            request_timeout_secs: self.request_timeout_secs,
            coalesce_step_ms: self.coalesce_step_ms,
            coalesce_max_ms: self.coalesce_max_ms,
            relay_url_patterns: config::copy_texts(&self.relay_url_patterns),
            passthrough_hosts: config::copy_texts(&self.passthrough_hosts),
            bypass_doh_hosts: config::copy_texts(&self.bypass_doh_hosts),
            fronting_groups: fronting::build_fronting_groups_from_editor(
                &self.fronting_groups,
                &self.domain_buffers,
            ),
            apps_script_lang: self.apps_script_lang.clone(),
            exit_node: self.exit_node.copy(),
            direct_mode: self.direct_mode.copy(),
            extras: custom_params::build_extras_from_buffer(&self.custom_params_buffer),
        })
    }

    /// Brings the log colours of a saved form into the form in which they were
    /// saved.
    pub fn heal_log_colors(&mut self)
        ensures
            *final(self) == (FormState {
                log_color_info: final(self).log_color_info,
                log_color_warn: final(self).log_color_warn,
                log_color_error: final(self).log_color_error,
                ..*old(self)
            }),
            final(self).log_color_info@ == log_view::normal_color(
                old(self).log_color_info@,
                config::DEFAULT_LOG_COLOR_INFO@,
            ),
            final(self).log_color_warn@ == log_view::normal_color(
                old(self).log_color_warn@,
                config::DEFAULT_LOG_COLOR_WARN@,
            ),
            final(self).log_color_error@ == log_view::normal_color(
                old(self).log_color_error@,
                config::DEFAULT_LOG_COLOR_ERROR@,
            ),
    {
        self.log_color_info = log_view::normalize_log_color(
            self.log_color_info.as_str(),
            config::DEFAULT_LOG_COLOR_INFO,
        );
        self.log_color_warn = log_view::normalize_log_color(
            self.log_color_warn.as_str(),
            config::DEFAULT_LOG_COLOR_WARN,
        );
        self.log_color_error = log_view::normalize_log_color(
            self.log_color_error.as_str(),
            config::DEFAULT_LOG_COLOR_ERROR,
        );
    }
}

/// Reading a configuration file: where it lies and what came of it.
pub struct LoadAttempt {
    pub path: String,
    pub outcome: Result<Config, String>,
}

/// The form to start with, and a warning where a file is there but cannot be
/// loaded. Without a file the form is that of a fresh install.
pub fn load_form(attempt: &Option<LoadAttempt>) -> (r: (FormState, Option<String>))
    ensures
        match *attempt {
            Some(a) => match a.outcome {
                Ok(c) => is_form_of(c, r.0) && r.1 is None,
                Err(e) => is_fresh_install(r.0) && (r.1 matches Some(w) && w@ == "Config at "@ + a.path@
                    + " failed to load: "@ + e@),
            },
            None => is_fresh_install(r.0) && r.1 is None,
        },
{
    match attempt {
        Some(a) => match &a.outcome {
            Ok(c) => (FormState::from_config(c), None),
            Err(e) => {
                let warning = "Config at ".to_owned().concat(a.path.as_str()).concat(
                    " failed to load: ",
                ).concat(e.as_str());
                (FormState::fresh_install_defaults(), Some(warning))
            },
        },
        None => (FormState::fresh_install_defaults(), None),
    }
}

proof fn lemma_numeral_trimmed(n: nat)
    ensures
        text::trimmed(numeral::decimal(n)) == numeral::decimal(n),
        numeral::decimal(n).len() > 0,
{
    let s = numeral::decimal(n);
    numeral::lemma_decimal_digits(n);
    assert(numeral::is_digit(s[0]));
    assert(numeral::is_digit(s[s.len() - 1]));
    assert(text::trim_start(s) == s);
    assert(text::trim_end(s) == s);
}

/// A form that nobody edited stands for the configuration that it was loaded
/// from: the ports and all carried settings are unchanged, texts are trimmed,
/// colours canonical; deployment IDs and fronting groups in saved form, a
/// configured SNI list and each extra whose key is trimmed and whose value the
/// parser reads back come back as they were.
pub proof fn law_untouched_form_saves_back(c: Config, f: FormState, d: Config)
    requires
        is_form_of(c, f),
        is_config_of(f, d),
    ensures
        carried(f, d),
        d.mode@ == present_mode(c.mode@),
        d.auth_key@ == c.auth_key@,
        d.google_ip@ == text::trimmed(c.google_ip@),
        d.front_domain@ == text::trimmed(c.front_domain@),
        d.listen_host@ == text::trimmed(c.listen_host@),
        d.log_level@ == text::trimmed(c.log_level@),
        d.listen_port == c.listen_port,
        d.socks5_port == c.socks5_port,
        fronting::is_saved_form(loaded_ids(c)) ==> ids_of(d.script_id) == loaded_ids(c),
        text::cleaned(sni::configured(c.sni_hosts)).len() > 0 ==> sni::configured(d.sni_hosts)
            == text::cleaned(sni::configured(c.sni_hosts)),
        (forall|i: int|
            0 <= i < c.fronting_groups@.len() ==> fronting::is_saved_form(
                (#[trigger] c.fronting_groups@[i])@.domains,
            ) && c.fronting_groups@[i].domains@.len() > 0) ==> fronting::views(d.fronting_groups@)
            == fronting::views(c.fronting_groups@),
        custom_params::keeps(json::members(d.extras), json::members(c.extras)),
        custom_params::all_editable(json::members(c.extras)) ==> json::members(d.extras)
            == json::members(c.extras),
{
    numeral::law_decimal_reads_back(c.listen_port as nat, 0xffff);
    if let Some(p) = c.socks5_port {
        numeral::law_decimal_reads_back(p as nat, 0xffff);
        lemma_numeral_trimmed(p as nat);
    } else {
        assert(text::trimmed(f.socks5_port@).len() == 0);
    }
    if fronting::is_saved_form(loaded_ids(c)) {
        lemma_shown_ids_read_back(loaded_ids(c));
    }
    if text::cleaned(sni::configured(c.sni_hosts)).len() > 0 {
        sni::law_form_pool_saves_back(sni::configured(c.sni_hosts), c.front_domain@);
    }
    if forall|i: int|
        0 <= i < c.fronting_groups@.len() ==> fronting::is_saved_form(
            (#[trigger] c.fronting_groups@[i])@.domains,
        ) && c.fronting_groups@[i].domains@.len() > 0 {
        lemma_groups_read_back(
            c.fronting_groups@,
            text::texts(f.domain_buffers@),
            c.fronting_groups@.len() as int,
        );
        let gv = fronting::views(c.fronting_groups@);
        assert(gv.take(gv.len() as int) =~= gv);
    }
}

proof fn lemma_shown_ids_read_back(ids: Seq<Seq<char>>)
    requires
        fronting::is_saved_form(ids),
    ensures
        entered_ids(text::joined(ids, "\n"@)) == ids,
{
    fronting::lemma_saved_form_stable(ids);
    if ids.len() > 0 {
        fronting::lemma_split_joined(ids);
    } else {
        let e = Seq::<char>::empty();
        assert(text::split(e, ',', '\n') =~= seq![e]);
        assert(text::cleaned(seq![e]) =~= ids) by {
            reveal_with_fuel(text::cleaned, 2);
            assert(seq![e].drop_last() =~= Seq::empty());
        }
    }
}

proof fn lemma_groups_read_back(groups: Seq<FrontingGroup>, buffers: Seq<Seq<char>>, n: int)
    requires
        0 <= n <= groups.len(),
        buffers == fronting::initial_texts(fronting::views(groups)),
        forall|i: int|
            0 <= i < groups.len() ==> fronting::is_saved_form((#[trigger] groups[i])@.domains)
                && groups[i].domains@.len() > 0,
    ensures
        fronting::saved_groups(fronting::views(groups), buffers, n) == fronting::views(groups).take(
            n,
        ),
    decreases n,
{
    let gv = fronting::views(groups);
    if n > 0 {
        lemma_groups_read_back(groups, buffers, n - 1);
        let g = groups[n - 1];
        assert(fronting::is_saved_form(g@.domains));
        assert(gv[n - 1] == g@);
        fronting::law_untouched_group_keeps_domains(g@);
        assert(buffers[n - 1] == fronting::initial_buffer(g@));
        assert(g@.domains.len() == g.domains@.len());
        assert(gv.take(n - 1).push(g@) =~= gv.take(n));
    } else {
        assert(gv.take(0) =~= Seq::empty());
    }
}

/// A complete configuration can be saved from the form that shows it: with
/// credentials where the mode needs them, different ports, and no extra under
/// one of the configuration's own keys, the form has no complaint.
pub proof fn law_complete_config_has_no_complaint(c: Config, f: FormState)
    requires
        is_form_of(c, f),
        is_direct(c.mode@) || (text::trimmed(shown_ids(c)).len() > 0 && text::trimmed(
            c.auth_key@,
        ).len() > 0),
        c.socks5_port != Some(c.listen_port),
        forall|k: Seq<char>|
            #[trigger] json::members(c.extras).contains_key(k) ==> !config::is_modeled(k),
    ensures
        complaint(f) is None,
{
    numeral::law_decimal_reads_back(c.listen_port as nat, 0xffff);
    if let Some(p) = c.socks5_port {
        numeral::law_decimal_reads_back(p as nat, 0xffff);
        lemma_numeral_trimmed(p as nat);
    } else {
        assert(text::trimmed(f.socks5_port@).len() == 0);
    }
    let r = custom_params::rows(f.custom_params_buffer@);
    assert forall|i: int| 0 <= i < r.len() implies !config::is_modeled((#[trigger] r[i]).0) by {
        assert(json::members(c.extras).contains_key(r[i].0));
    }
    lemma_no_collision(r, 0);
}

proof fn lemma_no_collision(r: Seq<(Seq<char>, Seq<char>)>, from: int)
    requires
        0 <= from <= r.len(),
        forall|i: int| 0 <= i < r.len() ==> !config::is_modeled((#[trigger] r[i]).0),
    ensures
        first_collision(r, from) is None,
    decreases r.len() - from,
{
    if from < r.len() {
        assert(!config::is_modeled(r[from].0));
        lemma_no_collision(r, from + 1);
    }
}

/// No custom row of a form without complaint uses a key of the configuration's
/// own, so no extra of its configuration does.
pub proof fn law_saved_extras_never_collide(f: FormState, c: Config)
    requires
        complaint(f) is None,
        is_config_of(f, c),
    ensures
        forall|k: Seq<char>|
            #[trigger] json::members(c.extras).contains_key(k) ==> !config::modeled_keys().contains(k),
{
    let r = custom_params::rows(f.custom_params_buffer@);
    lemma_collision_free(r, 0);
    lemma_extras_keys_from_rows(r);
    assert forall|k: Seq<char>| #[trigger] json::members(c.extras).contains_key(k) implies !config::modeled_keys().contains(
        k,
    ) by {
        let i = choose|i: int| 0 <= i < r.len() && text::trimmed((#[trigger] r[i]).0) == k;
        assert(!config::is_modeled(r[i].0));
    }
}

proof fn lemma_collision_free(r: Seq<(Seq<char>, Seq<char>)>, from: int)
    requires
        0 <= from <= r.len(),
        first_collision(r, from) is None,
    ensures
        forall|i: int| from <= i < r.len() ==> !config::is_modeled((#[trigger] r[i]).0),
    decreases r.len() - from,
{
    if from < r.len() {
        lemma_collision_free(r, from + 1);
    }
}

proof fn lemma_extras_keys_from_rows(r: Seq<(Seq<char>, Seq<char>)>)
    ensures
        forall|k: Seq<char>|
            #[trigger] custom_params::extras_of(r).contains_key(k) ==> exists|i: int|
                0 <= i < r.len() && text::trimmed((#[trigger] r[i]).0) == k,
    decreases r.len(),
{
    if r.len() > 0 {
        let q = r.drop_last();
        lemma_extras_keys_from_rows(q);
        assert forall|k: Seq<char>| #[trigger] custom_params::extras_of(r).contains_key(
            k,
        ) implies exists|i: int| 0 <= i < r.len() && text::trimmed((#[trigger] r[i]).0) == k by {
            if custom_params::extras_of(q).contains_key(k) {
                let i = choose|i: int| 0 <= i < q.len() && text::trimmed((#[trigger] q[i]).0) == k;
                assert(text::trimmed(r[i].0) == k);
            } else {
                assert(text::trimmed(r[r.len() - 1].0) == k);
            }
        }
    }
}

/// The settings that the form holds in the shape of the configuration pass
/// between the two unchanged, each under its own name, whether the form was
/// loaded from the configuration or the configuration made of the form.
pub proof fn law_settings_pass_unchanged(f: FormState, c: Config)
    requires
        is_form_of(c, f) || is_config_of(f, c),
    ensures
        f.verify_ssl == c.verify_ssl,
        f.fetch_ips_from_api == c.fetch_ips_from_api,
        f.google_ip_validation == c.google_ip_validation,
        f.normalize_x_graphql == c.normalize_x_graphql,
        f.youtube_via_relay == c.youtube_via_relay,
        f.sabr_strip == c.sabr_strip,
        f.block_quic == c.block_quic,
        f.block_stun == c.block_stun,
        f.disable_padding == c.disable_padding,
        f.force_http1 == c.force_http1,
        f.tunnel_doh == c.tunnel_doh,
        f.block_doh == c.block_doh,
        f.enable_batching == c.enable_batching,
        f.parallel_relay == c.parallel_relay,
        f.max_ips_to_scan == c.max_ips_to_scan,
        f.scan_batch_size == c.scan_batch_size,
        f.auto_blacklist_strikes == c.auto_blacklist_strikes,
        f.auto_blacklist_window_secs == c.auto_blacklist_window_secs,
        f.auto_blacklist_cooldown_secs == c.auto_blacklist_cooldown_secs,
        f.request_timeout_secs == c.request_timeout_secs,
        f.coalesce_step_ms == c.coalesce_step_ms,
        f.coalesce_max_ms == c.coalesce_max_ms,
        f.relay_url_patterns@ == c.relay_url_patterns@,
        f.passthrough_hosts@ == c.passthrough_hosts@,
        f.bypass_doh_hosts@ == c.bypass_doh_hosts@,
        f.apps_script_lang@ == c.apps_script_lang@,
        f.hosts_passthrough@ == c.hosts@,
        f.exit_node.enabled == c.exit_node.enabled,
        f.exit_node.relay_url@ == c.exit_node.relay_url@,
        f.exit_node.psk@ == c.exit_node.psk@,
        text::texts(f.exit_node.hosts@) == text::texts(c.exit_node.hosts@),
        f.exit_node.mode@ == c.exit_node.mode@,
        f.direct_mode.enabled == c.direct_mode.enabled,
        text::texts(f.direct_mode.fronts@) == text::texts(c.direct_mode.fronts@),
        text::texts(f.direct_mode.google_domains@) == text::texts(c.direct_mode.google_domains@),
        text::texts(f.direct_mode.sanctioned_domains@) == text::texts(
            c.direct_mode.sanctioned_domains@,
        ),
{
}

/// What a loaded form shows: every text of the configuration in its own field,
/// the ports in decimal, the deployment IDs one to a line, and a blank field for
/// what is not set.
pub proof fn law_form_shows_configuration(c: Config, f: FormState)
    requires
        is_form_of(c, f),
    ensures
        c.mode@ != "google_only"@ ==> f.mode@ == c.mode@,
        c.mode@ == "google_only"@ ==> f.mode@ == "direct"@,
        f.auth_key@ == c.auth_key@,
        f.google_ip@ == c.google_ip@,
        f.front_domain@ == c.front_domain@,
        f.listen_host@ == c.listen_host@,
        f.log_level@ == c.log_level@,
        numeral::parsed(f.listen_port@, 65535) == Some(c.listen_port as nat),
        c.socks5_port matches Some(p) ==> numeral::parsed(f.socks5_port@, 65535) == Some(p as nat),
        c.socks5_port is None ==> f.socks5_port@.len() == 0,
        c.upstream_socks5 matches Some(s) ==> f.upstream_socks5@ == s@,
        c.upstream_socks5 is None ==> f.upstream_socks5@.len() == 0,
        c.script_id matches Some(ScriptId::One(id)) ==> f.script_id@ == id@,
        c.script_id matches Some(ScriptId::Many(ids)) ==> f.script_id@ == text::joined(
            text::texts(ids@),
            "\n"@,
        ),
        f.fronting_groups@.len() == c.fronting_groups@.len(),
        f.domain_buffers@.len() == c.fronting_groups@.len(),
        !f.show_auth_key,
{
    numeral::law_decimal_reads_back(c.listen_port as nat, 65535);
    if let Some(p) = c.socks5_port {
        numeral::law_decimal_reads_back(p as nat, 65535);
    }
    assert(fronting::views(f.fronting_groups@).len() == f.fronting_groups@.len());
    assert(text::texts(f.domain_buffers@).len() == f.domain_buffers@.len());
}

/// What a configuration takes from a form: the texts without the blanks around
/// them, but the key and the mode as they are; the ports as numbers, a blank
/// SOCKS5 port as none; the deployment IDs under one name.
pub proof fn law_configuration_takes_what_was_typed(f: FormState, c: Config)
    requires
        is_config_of(f, c),
    ensures
        c.mode@ == f.mode@,
        c.auth_key@ == f.auth_key@,
        c.google_ip@ == text::trimmed(f.google_ip@),
        c.front_domain@ == text::trimmed(f.front_domain@),
        c.listen_host@ == text::trimmed(f.listen_host@),
        c.log_level@ == text::trimmed(f.log_level@),
        numeral::parsed(f.listen_port@, 65535) == Some(c.listen_port as nat),
        text::trimmed(f.socks5_port@).len() == 0 ==> c.socks5_port is None,
        c.socks5_port matches Some(p) ==> numeral::parsed(f.socks5_port@, 65535) == Some(p as nat),
        text::trimmed(f.upstream_socks5@).len() == 0 <==> c.upstream_socks5 is None,
        c.upstream_socks5 matches Some(s) ==> s@ == text::trimmed(f.upstream_socks5@),
        c.script_ids is None,
        entered_ids(f.script_id@).len() == 0 <==> c.script_id is None,
        entered_ids(f.script_id@).len() == 1 ==> {
            &&& c.script_id matches Some(ScriptId::One(id))
            &&& id@ == entered_ids(f.script_id@)[0]
        },
        entered_ids(f.script_id@).len() > 1 ==> {
            &&& c.script_id matches Some(ScriptId::Many(ids))
            &&& text::texts(ids@) == entered_ids(f.script_id@)
        },
        c.sni_hosts is None <==> sni::active_names(sni::row_views(f.sni_pool@)).len() == 0,
        c.sni_hosts matches Some(list) ==> text::texts(list@) == sni::active_names(
            sni::row_views(f.sni_pool@),
        ),
{
    match c.script_id {
        Some(ScriptId::One(id)) => {
            assert(ids_of(c.script_id).len() == 1);
        },
        Some(ScriptId::Many(ids)) => {
            assert(text::texts(ids@).len() == ids@.len());
        },
        None => {},
    }
}

/// Typed deployment IDs are cut at commas and line breaks; each is kept without
/// the blanks around it, and blank ones are none.
pub proof fn law_typed_ids(s: Seq<char>, c: char, t: Seq<char>, id: Seq<char>)
    requires
        c == ',' || c == '\n',
        forall|i: int| 0 <= i < id.len() ==> #[trigger] id[i] != ',' && id[i] != '\n',
    ensures
        entered_ids(s + seq![c] + t) == entered_ids(s) + entered_ids(t),
        text::trimmed(id).len() > 0 ==> entered_ids(id) == seq![text::trimmed(id)],
        text::trimmed(id).len() == 0 ==> entered_ids(id).len() == 0,
{
    text::law_split_at_separator(s, c, t, ',', '\n');
    text::law_split_of_one_piece(id, ',', '\n');
    text::law_cleaned_piece_by_piece(
        text::split(s, ',', '\n'),
        text::split(t, ',', '\n'),
        id,
    );
}

/// A form can be saved if and only if a mode with a relay has deployment IDs and
/// a key, both ports are numbers or the SOCKS5 port is blank, the two differ,
/// and no row of the table bears the name of a field.
pub proof fn law_which_forms_can_be_saved(f: FormState)
    ensures
        complaint(f) is None <==> {
            &&& f.mode@ == "direct"@ || f.mode@ == "google_only"@ || (text::trimmed(
                f.script_id@,
            ).len() > 0 && text::trimmed(f.auth_key@).len() > 0)
            &&& numeral::parsed(f.listen_port@, 65535) is Some
            &&& text::trimmed(f.socks5_port@).len() == 0 || numeral::parsed(
                f.socks5_port@,
                65535,
            ) is Some
            &&& text::trimmed(f.socks5_port@).len() > 0 ==> numeral::parsed(f.socks5_port@, 65535)
                != numeral::parsed(f.listen_port@, 65535)
            &&& forall|i: int|
                0 <= i < f.custom_params_buffer@.len() ==> !config::is_modeled(
                    (#[trigger] f.custom_params_buffer@[i]).0@,
                )
        },
{
    let r = custom_params::rows(f.custom_params_buffer@);
    if first_collision(r, 0) is None {
        lemma_collision_free(r, 0);
    }
    if forall|i: int| 0 <= i < r.len() ==> !config::is_modeled((#[trigger] r[i]).0) {
        assert forall|i: int| 0 <= i < f.custom_params_buffer@.len() implies !config::is_modeled(
            (#[trigger] f.custom_params_buffer@[i]).0@,
        ) by {
            assert(!config::is_modeled(r[i].0));
        }
        lemma_no_collision(r, 0);
    } else {
        let i = choose|i: int| 0 <= i < r.len() && config::is_modeled((#[trigger] r[i]).0);
        assert(config::is_modeled(f.custom_params_buffer@[i].0@));
    }
}

/// The first thing that is wrong with a form is what is told.
pub proof fn law_first_complaint_is_told(f: FormState)
    ensures
        ({
            let relay = f.mode@ != "direct"@ && f.mode@ != "google_only"@;
            let no_ids = relay && text::trimmed(f.script_id@).len() == 0;
            let no_key = relay && text::trimmed(f.auth_key@).len() == 0;
            let no_http = numeral::parsed(f.listen_port@, 65535) is None;
            let no_socks = text::trimmed(f.socks5_port@).len() > 0 && numeral::parsed(
                f.socks5_port@,
                65535,
            ) is None;
            &&& no_ids ==> complaint(f) == Some("Apps Script ID is required"@)
            &&& !no_ids && no_key ==> complaint(f) == Some("Auth key is required"@)
            &&& !no_ids && !no_key && no_http ==> complaint(f) == Some(
                "HTTP port must be a number"@,
            )
            &&& !no_ids && !no_key && !no_http && no_socks ==> complaint(f) == Some(
                "SOCKS5 port must be a number"@,
            )
            &&& !no_ids && !no_key && !no_http && !no_socks && text::trimmed(f.socks5_port@).len()
                > 0 && numeral::parsed(f.socks5_port@, 65535) == numeral::parsed(
                f.listen_port@,
                65535,
            ) ==> complaint(f) == Some("HTTP and SOCKS5 ports must be different"@)
        }),
{
}

/// A new installation can be started in the direct mode as it is, and needs
/// deployment IDs for its own mode.
pub proof fn law_new_installation_lacks_ids_only(f: FormState)
    requires
        is_fresh_install(f),
    ensures
        complaint(f) == Some("Apps Script ID is required"@),
        f.listen_port@ == "8085"@,
        f.socks5_port@ == "8086"@,
        f.listen_host@ == "127.0.0.1"@,
        f.google_ip@ == "216.239.38.120"@,
        f.front_domain@ == "www.google.com"@,
        f.verify_ssl && f.google_ip_validation && f.block_quic && f.block_doh && f.tunnel_doh,
        f.auto_blacklist_strikes == 3 && f.auto_blacklist_window_secs == 30
            && f.auto_blacklist_cooldown_secs == 120 && f.request_timeout_secs == 30,
{
    reveal_strlit("apps_script");
    reveal_strlit("direct");
    reveal_strlit("google_only");
    assert("apps_script"@.len() == 11 && "direct"@.len() == 6);
    assert("apps_script"@[0] != "google_only"@[0]);
    let t = text::trimmed(f.script_id@);
    text::law_trimmed_is_the_core(Seq::empty(), Seq::empty(), Seq::empty());
    assert(Seq::<char>::empty() + Seq::<char>::empty() + Seq::<char>::empty()
        =~= Seq::<char>::empty());
    assert(f.script_id@ =~= Seq::<char>::empty());
}

/// The first row that bears the name of a field is complained about, by that
/// name.
pub proof fn law_first_colliding_row(r: Seq<(Seq<char>, Seq<char>)>, from: int, k: int)
    requires
        0 <= from <= k < r.len(),
        config::is_modeled(r[k].0),
        forall|i: int| from <= i < k ==> !config::is_modeled((#[trigger] r[i]).0),
    ensures
        first_collision(r, from) == Some(text::trimmed(r[k].0)),
        collision_text(text::trimmed(r[k].0)) == "Custom parameter '"@ + text::trimmed(r[k].0)
            + "' collides with a built-in field. Remove the custom row or rename it \u{2014} the form above already controls this value."@,
    decreases k - from,
{
    if from < k {
        assert(!config::is_modeled(r[from].0));
        law_first_colliding_row(r, from + 1, k);
    }
}

/// A form that was just loaded or made has nothing typed into its extra inputs,
/// no editor open, the key hidden and the log shown.
pub proof fn law_new_form_is_at_rest(c: Config, f: FormState)
    requires
        is_form_of(c, f) || is_fresh_install(f),
    ensures
        !f.show_auth_key,
        f.sni_custom_input@.len() == 0,
        f.discover_hostname_input@.len() == 0,
        !f.sni_editor_open,
        f.show_log,
        !f.log_color_editor_open,
{
}

/// The settings that a new installation starts with.
pub proof fn law_settings_of_a_new_installation(f: FormState)
    requires
        is_fresh_install(f),
    ensures
        f.mode@ == "apps_script"@,
        f.auth_key@.len() == 0,
        f.log_level@ == "info"@,
        f.upstream_socks5@.len() == 0,
        f.parallel_relay == 0,
        f.max_ips_to_scan == 100,
        f.scan_batch_size == 500,
        !f.fetch_ips_from_api && !f.normalize_x_graphql && !f.youtube_via_relay && !f.sabr_strip,
        !f.block_stun && !f.disable_padding && !f.force_http1 && !f.enable_batching,
        f.relay_url_patterns@.len() == 0 && f.passthrough_hosts@.len() == 0
            && f.bypass_doh_hosts@.len() == 0 && f.fronting_groups@.len() == 0
            && f.domain_buffers@.len() == 0 && f.custom_params_buffer@.len() == 0
            && f.hosts_passthrough@.len() == 0,
        f.apps_script_lang@ == "en"@,
        f.coalesce_step_ms == 0 && f.coalesce_max_ms == 0,
        f.log_color_info@ == "#5ab464"@,
        f.log_color_warn@ == "#e0a83a"@,
        f.log_color_error@ == "#dc6e6e"@,
        !f.exit_node.enabled,
        f.direct_mode.enabled,
{
}

} // verus!
