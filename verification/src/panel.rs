//! The settings window: what its texts say and what its clicks lead to.
use std::collections::VecDeque;

use vstd::prelude::*;

use crate::commands;
use crate::config;
use crate::config::Config;
use crate::custom_params;
use crate::engine::Engine;
use crate::form;
use crate::form::FormState;
use crate::json;
use crate::json::JsonView;
use crate::log_view;
use crate::numeral;
use crate::sni;
use crate::sni::SniRow;
use crate::text;
use crate::wire;
use crate::wire::ConfigWire;

verus! {

/// How often the counters are polled.
pub const POLL_INTERVAL_MS: u64 = 700;

/// How long a message stays.
pub const TOAST_TTL_MS: u64 = 5_000;

/// How long a message about a configuration that did not load stays: it explains
/// why the form is empty.
pub const LOAD_TOAST_TTL_MS: u64 = 30_000;

/// A message at the bottom of the window, and when it came.
pub struct Toast {
    pub text: String,
    pub at: u64,
}

/// How long a message with this text stays.
pub open spec fn toast_ttl(text: Seq<char>) -> u64 {
    if text::occurs(text, "failed to load"@) {
        LOAD_TOAST_TTL_MS
    } else {
        TOAST_TTL_MS
    }
}

impl Toast {
    /// Whether the message is still shown at `now`.
    pub fn is_shown(&self, now: u64) -> (r: bool)
        ensures
            r == (now < self.at + toast_ttl(self.text@)),
    {
        let ttl: u64 = if text::contains(self.text.as_str(), "failed to load") {
            LOAD_TOAST_TTL_MS
        } else {
            TOAST_TTL_MS
        };
        now < self.at || now - self.at < ttl
    }
}

/// Whether a poll of the counters is due.
pub fn poll_due(last_poll: u64, now: u64) -> (r: bool)
    ensures
        r == (now > last_poll + POLL_INTERVAL_MS),
{
    now > last_poll && now - last_poll > POLL_INTERVAL_MS
}

/// The name under which a mode is shown.
pub open spec fn mode_name(mode: Seq<char>) -> Seq<char> {
    if form::is_direct(mode) {
        "Direct (no relay)"@
    } else if mode == "full"@ {
        "Full tunnel (no cert)"@
    } else {
        "Apps Script (MITM)"@
    }
}

/// Gives the name under which a mode is shown.
pub fn mode_label(mode: &str) -> (r: String)
    ensures
        r@ == mode_name(mode@),
{
    if form::is_direct_mode(mode) {
        "Direct (no relay)".to_owned()
    } else if text::same(mode, "full") {
        "Full tunnel (no cert)".to_owned()
    } else {
        "Apps Script (MITM)".to_owned()
    }
}

/// Takes the form back to the mode that a refused switch left the proxy in. The
/// result is the message to show.
pub fn take_revert(f: &mut FormState, revert: Option<(String, String)>) -> (r: Option<String>)
    ensures
        match revert {
            Some(back) => *final(f) == (FormState { mode: back.0, ..*old(f) }) && r == Some(back.1),
            None => *final(f) == *old(f) && r is None,
        },
{
    match revert {
        Some((mode, message)) => {
            f.mode = mode;
            Some(message)
        },
        None => None,
    }
}

/// What is said below the mode.
pub open spec fn mode_hint_texts(mode: Seq<char>) -> Seq<Seq<char>> {
    if form::is_direct(mode) {
        seq![
            "Direct mode \u{2014} SNI-rewrite tunnel only. Reach the Google edge (and any configured fronting_groups) without an Apps Script relay."@,
            "Also works as upstream proxy for Psiphon / xray \u{2014} unfronted hosts pass through as raw TCP. Setup: docs/use-as-upstream.md (FA: docs/use-as-upstream.fa.md)."@,
        ]
    } else if mode == "full"@ {
        seq![
            "Full tunnel \u{2014} all traffic tunneled end-to-end via Apps Script + remote tunnel node. No certificate needed."@,
        ]
    } else {
        Seq::empty()
    }
}

/// The lines below the mode.
pub fn mode_hints(mode: &str) -> (r: Vec<String>)
    ensures
        text::texts(r@) == mode_hint_texts(mode@),
{
    let mut r: Vec<String> = Vec::new();
    if form::is_direct_mode(mode) {
        r.push("Direct mode \u{2014} SNI-rewrite tunnel only. Reach the Google edge (and any configured fronting_groups) without an Apps Script relay.".to_owned());
        r.push("Also works as upstream proxy for Psiphon / xray \u{2014} unfronted hosts pass through as raw TCP. Setup: docs/use-as-upstream.md (FA: docs/use-as-upstream.fa.md).".to_owned());
    } else if text::same(mode, "full") {
        r.push("Full tunnel \u{2014} all traffic tunneled end-to-end via Apps Script + remote tunnel node. No certificate needed.".to_owned());
    }
    proof {
        assert(text::texts(r@) =~= mode_hint_texts(mode@));
    }
    r
}

/// What a change of the mode leads to: a configuration for the proxy to switch
/// to, and a message.
pub struct ModeChange {
    pub switch_to: Option<Config>,
    pub message: Option<String>,
}

/// The mode was changed in the form. While the proxy is active it is asked to
/// switch; if the form cannot be saved, the mode goes back to what it was.
pub fn mode_changed(f: &mut FormState, before: String, proxy_active: bool) -> (r: ModeChange)
    ensures
        if old(f).mode@ == before@ || !proxy_active {
            *final(f) == *old(f) && r.switch_to is None && r.message is None
        } else {
            match form::complaint(*old(f)) {
                None => {
                    &&& *final(f) == *old(f)
                    &&& r.switch_to matches Some(c) && form::is_config_of(*old(f), c)
                    &&& r.message matches Some(m) && m@ == "Switching mode \u{2192} "@ + old(f).mode@
                },
                Some(e) => {
                    &&& *final(f) == (FormState { mode: before, ..*old(f) })
                    &&& r.switch_to is None
                    &&& r.message matches Some(m) && m@ == "Cannot switch mode: "@ + e
                },
            }
        },
{
    if text::same(f.mode.as_str(), before.as_str()) || !proxy_active {
        return ModeChange { switch_to: None, message: None };
    }
    match f.to_config() {
        Ok(c) => {
            let message = "Switching mode \u{2192} ".to_owned().concat(f.mode.as_str());
            ModeChange { switch_to: Some(c), message: Some(message) }
        },
        Err(e) => {
            f.mode = before;
            ModeChange {
                switch_to: None,
                message: Some("Cannot switch mode: ".to_owned().concat(e.as_str())),
            }
        },
    }
}

/// Start was clicked: the configuration to start with, or the message why not.
pub fn start_clicked(f: &FormState) -> (r: Result<Config, String>)
    ensures
        match r {
            Ok(c) => form::complaint(*f) is None && form::is_config_of(*f, c),
            Err(m) => form::complaint(*f) matches Some(e) && m@ == "Cannot start: "@ + e,
        },
{
    match f.to_config() {
        Ok(c) => Ok(c),
        Err(e) => Err("Cannot start: ".to_owned().concat(e.as_str())),
    }
}

/// The relay test was clicked: the configuration to test, or the message why
/// not.
pub fn test_clicked(f: &FormState) -> (r: Result<Config, String>)
    ensures
        match r {
            Ok(c) => form::complaint(*f) is None && form::is_config_of(*f, c),
            Err(m) => form::complaint(*f) matches Some(e) && m@ == "Cannot test: "@ + e,
        },
{
    match f.to_config() {
        Ok(c) => Ok(c),
        Err(e) => Err("Cannot test: ".to_owned().concat(e.as_str())),
    }
}

/// The address scan was clicked: the configuration to scan with and the message.
/// A form that cannot be saved starts no scan.
pub fn scan_clicked(f: &FormState) -> (r: Option<(Config, String)>)
    ensures
        match r {
            Some(s) => form::complaint(*f) is None && form::is_config_of(*f, s.0) && s.1@
                == "Scan started \u{2014} check the Recent log below."@,
            None => form::complaint(*f) is Some,
        },
{
    match f.to_config() {
        Ok(c) => Some((c, "Scan started \u{2014} check the Recent log below.".to_owned())),
        Err(_) => None,
    }
}

/// Saving was clicked: the document to write, or the message why not.
pub fn save_clicked(f: &FormState) -> (r: Result<serde_json::Value, String>)
    ensures
        match r {
            Ok(v) => form::complaint(*f) is None && exists|c: Config|
                #[trigger] form::is_config_of(*f, c) && json::json_view(v) == JsonView::Object(
                    wire::document(c),
                ),
            Err(m) => form::complaint(*f) matches Some(e) && m@ == "Save failed: "@ + e,
        },
{
    match f.to_config() {
        Ok(c) => {
            let v = ConfigWire::from(&c).into_value();
            proof {
                assert(form::is_config_of(*f, c));
            }
            Ok(v)
        },
        Err(e) => Err("Save failed: ".to_owned().concat(e.as_str())),
    }
}

/// The hint below the deployment IDs.
pub fn ids_hint(script_id: &str) -> (r: String)
    ensures
        r@ == (if form::entered_ids(script_id@).len() <= 1 {
            "Tip: add more IDs for round-robin with auto-failover."@
        } else {
            numeral::decimal(form::entered_ids(script_id@).len())
                + " IDs \u{2014} round-robin with auto-failover on quota."@
        }),
{
    let n: usize = form::count_ids(script_id);
    if n <= 1 {
        "Tip: add more IDs for round-robin with auto-failover.".to_owned()
    } else {
        numeral::to_decimal(n as u64).concat(" IDs \u{2014} round-robin with auto-failover on quota.")
    }
}

/// How the window offers the choice of the listen address.
pub enum Bind {
    /// An address of the user's own, which the checkbox must not overwrite.
    Custom(String),
    /// A checkbox: shared with the network, or for this machine only.
    Shared(bool),
}

/// An address that is neither blank nor loopback nor shared is the user's own.
pub open spec fn is_custom_bind(listen_host: Seq<char>, shared: bool) -> bool {
    let host = text::trimmed(listen_host);
    host.len() > 0 && !shared && text::lower(host) != "127.0.0.1"@ && text::lower(host)
        != "localhost"@
}

/// Decides how the listen address is offered. `shared` tells that it stands for
/// all of the machine's addresses.
pub fn bind_choice(listen_host: &str, shared: bool) -> (r: Bind)
    ensures
        match r {
            Bind::Custom(host) => is_custom_bind(listen_host@, shared) && host@ == text::trimmed(
                listen_host@,
            ),
            Bind::Shared(b) => !is_custom_bind(listen_host@, shared) && b == shared,
        },
{
    let host = text::trim(listen_host);
    let lower = text::to_lower(host.as_str());
    if !host.as_str().is_empty() && !shared && !text::same(lower.as_str(), "127.0.0.1")
        && !text::same(lower.as_str(), "localhost") {
        Bind::Custom(host)
    } else {
        Bind::Shared(shared)
    }
}

/// The listen address that the checkbox sets.
pub fn shared_host(share: bool) -> (r: String)
    ensures
        r@ == (if share {
            "0.0.0.0"@
        } else {
            "127.0.0.1"@
        }),
{
    if share {
        "0.0.0.0".to_owned()
    } else {
        "127.0.0.1".to_owned()
    }
}

/// A port field's text, with a default where it is blank.
pub open spec fn port_or(port: Seq<char>, default: Seq<char>) -> Seq<char> {
    if text::trimmed(port).len() == 0 {
        default
    } else {
        text::trimmed(port)
    }
}

fn port_text(port: &str, default: &str) -> (r: String)
    ensures
        r@ == port_or(port@, default@),
{
    let trimmed = text::trim(port);
    if trimmed.as_str().is_empty() {
        default.to_owned()
    } else {
        trimmed
    }
}

/// The line that tells other devices where to find the proxy.
pub fn other_devices_line(ip: &str, listen_port: &str, socks5_port: &str) -> (r: String)
    ensures
        r@ == "Other devices: HTTP "@ + ip@ + ":"@ + port_or(listen_port@, "8085"@)
            + "  \u{b7}  SOCKS5 "@ + ip@ + ":"@ + port_or(socks5_port@, "8086"@),
{
    let http = port_text(listen_port, "8085");
    let socks = port_text(socks5_port, "8086");
    "Other devices: HTTP ".to_owned().concat(ip).concat(":").concat(http.as_str()).concat(
        "  \u{b7}  SOCKS5 ",
    ).concat(ip).concat(":").concat(socks.as_str())
}

/// The address to give to an upstream client: only while the proxy runs without
/// the relay.
pub fn upstream_hint(running: bool, mode: &str, host: &str, listen_port: &str) -> (r: Option<String>)
    ensures
        match r {
            Some(a) => running && form::is_direct(mode@) && a@ == host@ + ":"@ + port_or(
                listen_port@,
                "8085"@,
            ),
            None => !running || !form::is_direct(mode@),
        },
{
    if running && form::is_direct_mode(mode) {
        let port = port_text(listen_port, "8085");
        Some(host.to_owned().concat(":").concat(port.as_str()))
    } else {
        None
    }
}

/// The route of an update check.
pub enum Route {
    Direct,
    Proxy { host: String, port: u16 },
}

/// Update checks go through the running proxy if its port can be read, else
/// directly.
pub fn update_check_route(running: bool, f: &FormState) -> (r: Route)
    ensures
        match r {
            Route::Proxy { host, port } => {
                &&& running
                &&& numeral::parsed(text::trimmed(f.listen_port@), 0xffff) == Some(port as nat)
                &&& host@ == (if text::trimmed(f.listen_host@).len() == 0 {
                    "127.0.0.1"@
                } else {
                    text::trimmed(f.listen_host@)
                })
            },
            Route::Direct => !running || numeral::parsed(
                text::trimmed(f.listen_port@),
                0xffff,
            ) is None,
        },
{
    if running {
        let port_field = text::trim(f.listen_port.as_str());
        if let Some(port) = numeral::parse_u16(port_field.as_str()) {
            let trimmed = text::trim(f.listen_host.as_str());
            let host = if trimmed.as_str().is_empty() {
                "127.0.0.1".to_owned()
            } else {
                trimmed
            };
            return Route::Proxy { host, port };
        }
    }
    Route::Direct
}

/// The message about the curated groups: how many were added and how many were
/// there already, or why they could not be loaded.
pub fn curated_message(outcome: Result<(u64, u64), String>) -> (r: String)
    ensures
        r@ == (match outcome {
            Ok(n) => "Loaded curated groups: "@ + numeral::decimal(n.0 as nat) + " added, "@
                + numeral::decimal(n.1 as nat)
                + " already present. Press Save config to persist."@,
            Err(e) => "Could not load curated groups: "@ + e@,
        }),
{
    match outcome {
        Ok((added, skipped)) => {
            let a = numeral::to_decimal(added);
            let s = numeral::to_decimal(skipped);
            "Loaded curated groups: ".to_owned().concat(a.as_str()).concat(" added, ").concat(
                s.as_str(),
            ).concat(" already present. Press Save config to persist.")
        },
        Err(e) => "Could not load curated groups: ".to_owned().concat(e.as_str()),
    }
}

/// A custom row is marked: its key is not blank and is one of the
/// configuration's own.
pub fn row_collides(key: &str) -> (r: bool)
    ensures
        r == (text::trimmed(key@).len() > 0 && config::is_modeled(key@)),
{
    !text::trim(key).as_str().is_empty() && config::is_modeled_config_key(key)
}

/// Adds an empty custom row.
pub fn add_row(rows: &mut Vec<(String, String)>)
    ensures
        custom_params::rows(final(rows)@) == custom_params::rows(old(rows)@).push(
            (Seq::<char>::empty(), Seq::<char>::empty()),
        ),
{
    let ghost before = custom_params::rows(rows@);
    rows.push((String::new(), String::new()));
    proof {
        let e = Seq::<char>::empty();
        assert(custom_params::rows(rows@) =~= before.push((e, e)));
    }
}

/// Removes a custom row.
pub fn remove_row(rows: &mut Vec<(String, String)>, index: usize)
    requires
        index < old(rows)@.len(),
    ensures
        final(rows)@ == old(rows)@.remove(index as int),
{
    rows.remove(index);
}

/// Whether saving the form clears the marker of the active profile: the saved
/// configuration is then no longer known to be that profile's.
pub fn clears_active(active: &str, profiles_load_ok: bool) -> (r: bool)
    ensures
        r == (active@.len() > 0 && profiles_load_ok),
{
    !active.is_empty() && profiles_load_ok
}

/// The message after the form was saved. `marker_error` tells that the marker of
/// the active profile could not be cleared.
pub fn saved_message(path: &str, active: &str, marker_error: Option<&str>) -> (r: String)
    ensures
        r@ == (match marker_error {
            Some(e) => "Saved to "@ + path@ + ", but the active profile marker still points at '"@
                + active@ + "' (clearing it failed: "@ + e@
                + "). The dropdown will misclaim until you switch profiles or restart."@,
            None => "Saved to "@ + path@,
        }),
{
    match marker_error {
        Some(e) => "Saved to ".to_owned().concat(path).concat(
            ", but the active profile marker still points at '",
        ).concat(active).concat("' (clearing it failed: ").concat(e).concat(
            "). The dropdown will misclaim until you switch profiles or restart.",
        ),
        None => "Saved to ".to_owned().concat(path),
    }
}

/// The title of the traffic section.
pub fn traffic_title(running: bool, uptime_secs: u64) -> (r: String)
    ensures
        r@ == (if running {
            "Traffic  \u{b7}  uptime "@ + log_view::duration_text(uptime_secs as nat)
        } else {
            "Traffic  \u{b7}  (not running)"@
        }),
{
    if running {
        let up = log_view::fmt_duration(uptime_secs);
        "Traffic  \u{b7}  uptime ".to_owned().concat(up.as_str())
    } else {
        "Traffic  \u{b7}  (not running)".to_owned()
    }
}

/// The relay's counters.
pub struct StatsSnapshot {
    pub relay_calls: u64,
    pub relay_failures: u64,
    pub coalesced: u64,
    pub cache_hits: u64,
    pub cache_misses: u64,
    pub cache_bytes: u64,
    pub bytes_relayed: u64,
    pub total_scripts: u64,
    pub blacklisted_scripts: u64,
    pub forwarder_calls: u64,
    pub forwarder_errors: u64,
    pub forwarder_bytes: u64,
    pub today_calls: u64,
    pub today_bytes: u64,
    pub today_key: String,
    pub today_reset_secs: u64,
}

/// Rows of a label and a text.
pub open spec fn row_texts(rows: Seq<(String, String)>) -> Seq<(Seq<char>, Seq<char>)> {
    custom_params::rows(rows)
}

/// The rows that are always shown. `hit_rate` is the share of cache hits, in
/// percent.
pub open spec fn counter_rows(s: StatsSnapshot, hit_rate: Seq<char>) -> Seq<(Seq<char>, Seq<char>)> {
    seq![
        ("relay calls"@, numeral::decimal(s.relay_calls as nat)),
        ("failures"@, numeral::decimal(s.relay_failures as nat)),
        ("coalesced"@, numeral::decimal(s.coalesced as nat)),
        (
            "cache hits"@,
            numeral::decimal(s.cache_hits as nat) + " / "@ + numeral::decimal(
                (s.cache_hits + s.cache_misses) as nat,
            ) + "  ("@ + hit_rate + "%)"@,
        ),
        ("cache size"@, numeral::decimal((s.cache_bytes / 1024) as nat) + " KB"@),
        ("bytes relayed"@, log_view::bytes_text(s.bytes_relayed as nat)),
        (
            "active scripts"@,
            numeral::decimal((s.total_scripts - s.blacklisted_scripts) as nat) + " / "@
                + numeral::decimal(s.total_scripts as nat),
        ),
    ]
}

/// The forwarder's rows, shown once it was used.
pub open spec fn forwarder_rows(s: StatsSnapshot) -> Seq<(Seq<char>, Seq<char>)> {
    if s.forwarder_calls + s.forwarder_errors > 0 {
        seq![
            (
                "fwd calls"@,
                numeral::decimal(s.forwarder_calls as nat) + " (err "@ + numeral::decimal(
                    s.forwarder_errors as nat,
                ) + ")"@,
            ),
            ("fwd bytes"@, log_view::bytes_text(s.forwarder_bytes as nat)),
        ]
    } else {
        Seq::empty()
    }
}

fn push_row(rows: &mut Vec<(String, String)>, label: &str, value: String)
    ensures
        row_texts(final(rows)@) == row_texts(old(rows)@).push((label@, value@)),
{
    let ghost before = row_texts(rows@);
    rows.push((label.to_owned(), value));
    proof {
        assert(row_texts(rows@) =~= before.push((label@, value@)));
    }
}

/// The rows of the traffic section.
pub fn stats_rows(s: &StatsSnapshot, hit_rate: &str) -> (r: Vec<(String, String)>)
    requires
        s.cache_hits + s.cache_misses <= u64::MAX,
        s.blacklisted_scripts <= s.total_scripts,
        s.forwarder_calls + s.forwarder_errors <= u64::MAX,
    ensures
        row_texts(r@) == counter_rows(*s, hit_rate@) + forwarder_rows(*s),
{
    let mut rows: Vec<(String, String)> = Vec::new();
    push_row(&mut rows, "relay calls", numeral::to_decimal(s.relay_calls));
    push_row(&mut rows, "failures", numeral::to_decimal(s.relay_failures));
    push_row(&mut rows, "coalesced", numeral::to_decimal(s.coalesced));
    let lookups = numeral::to_decimal(s.cache_hits + s.cache_misses);
    push_row(
        &mut rows,
        "cache hits",
        numeral::to_decimal(s.cache_hits).concat(" / ").concat(lookups.as_str()).concat(
            "  (",
        ).concat(hit_rate).concat("%)"),
    );
    push_row(&mut rows, "cache size", numeral::to_decimal(s.cache_bytes / 1024).concat(" KB"));
    push_row(&mut rows, "bytes relayed", log_view::fmt_bytes(s.bytes_relayed));
    let total = numeral::to_decimal(s.total_scripts);
    push_row(
        &mut rows,
        "active scripts",
        numeral::to_decimal(s.total_scripts - s.blacklisted_scripts).concat(" / ").concat(
            total.as_str(),
        ),
    );
    proof {
        assert(row_texts(rows@) =~= counter_rows(*s, hit_rate@));
    }
    if s.forwarder_calls + s.forwarder_errors > 0 {
        let errors = numeral::to_decimal(s.forwarder_errors);
        push_row(
            &mut rows,
            "fwd calls",
            numeral::to_decimal(s.forwarder_calls).concat(" (err ").concat(errors.as_str()).concat(
                ")",
            ),
        );
        push_row(&mut rows, "fwd bytes", log_view::fmt_bytes(s.forwarder_bytes));
    }
    proof {
        assert(row_texts(rows@) =~= counter_rows(*s, hit_rate@) + forwarder_rows(*s));
    }
    rows
}

/// What a host was relayed. `hit_percent` is the share of cache hits and
/// `mean_latency_ms` the mean time of an answer, both rounded to whole numbers.
pub struct SiteStats {
    pub host: String,
    pub requests: u64,
    pub hit_percent: String,
    pub bytes: u64,
    pub mean_latency_ms: String,
}

/// A row of the per-site table.
pub struct SiteRow {
    pub host: String,
    pub requests: String,
    pub hits: String,
    pub bytes: String,
    pub latency: String,
}

/// A row of the per-site table over views.
pub struct SiteRowView {
    pub host: Seq<char>,
    pub requests: Seq<char>,
    pub hits: Seq<char>,
    pub bytes: Seq<char>,
    pub latency: Seq<char>,
}

impl View for SiteRow {
    type V = SiteRowView;

    open spec fn view(&self) -> SiteRowView {
        SiteRowView {
            host: self.host@,
            requests: self.requests@,
            hits: self.hits@,
            bytes: self.bytes@,
            latency: self.latency@,
        }
    }
}

/// How many hosts the per-site table shows.
pub const PER_SITE_ROWS: usize = 60;

/// How a host is shown in the per-site table.
pub open spec fn site_row(s: SiteStats) -> SiteRowView {
    SiteRowView {
        host: s.host@,
        requests: numeral::decimal(s.requests as nat),
        hits: s.hit_percent@ + "%"@,
        bytes: log_view::bytes_text(s.bytes as nat),
        latency: s.mean_latency_ms@,
    }
}

/// The rows of the per-site table: the first hosts, in order.
pub fn per_site_rows(sites: &Vec<SiteStats>) -> (r: Vec<SiteRow>)
    ensures
        r@.len() == (if sites@.len() <= PER_SITE_ROWS {
            sites@.len() as int
        } else {
            PER_SITE_ROWS as int
        }),
        forall|i: int| 0 <= i < r@.len() ==> (#[trigger] r@[i])@ == site_row(sites@[i]),
{
    let len: usize = if sites.len() <= PER_SITE_ROWS {
        sites.len()
    } else {
        PER_SITE_ROWS
    };
    let mut r: Vec<SiteRow> = Vec::new();
    let mut i: usize = 0;
    while i < len
        invariant
            i <= len <= sites@.len(),
            r@.len() == i,
            forall|k: int| 0 <= k < i ==> (#[trigger] r@[k])@ == site_row(sites@[k]),
        decreases len - i,
    {
        let s = &sites[i];
        r.push(
            SiteRow {
                host: s.host.clone(),
                requests: numeral::to_decimal(s.requests),
                hits: s.hit_percent.clone().concat("%"),
                bytes: log_view::fmt_bytes(s.bytes),
                latency: s.mean_latency_ms.clone(),
            },
        );
        i = i + 1;
    }
    r
}

/// The heading of the per-site table, with the number of all hosts; without
/// hosts there is no table.
pub fn per_site_title(sites: &Vec<SiteStats>) -> (r: Option<String>)
    ensures
        match r {
            Some(t) => sites@.len() > 0 && t@ == "Per-site ("@ + numeral::decimal(sites@.len())
                + " hosts)"@,
            None => sites@.len() == 0,
        },
{
    if sites.len() == 0 {
        None
    } else {
        let count = numeral::to_decimal(sites.len() as u64);
        Some("Per-site (".to_owned().concat(count.as_str()).concat(" hosts)"))
    }
}

/// The time until the day's quota is reset.
pub open spec fn reset_text(secs: nat) -> Seq<char> {
    numeral::decimal(secs / 3600) + "h "@ + numeral::decimal((secs / 60) % 60) + "m"@
}

/// The rows of the usage section. `percent` is the share of the day's quota that
/// is used.
pub fn usage_rows(s: &StatsSnapshot, percent: &str) -> (r: Vec<(String, String)>)
    ensures
        row_texts(r@) == seq![
            (
                "calls today"@,
                numeral::decimal(s.today_calls as nat) + " / "@ + numeral::decimal(
                    commands::FREE_QUOTA_PER_DAY as nat,
                ) + "  ("@ + percent@ + "%)"@,
            ),
            ("bytes today"@, log_view::bytes_text(s.today_bytes as nat)),
            ("PT day"@, s.today_key@),
            ("resets in"@, reset_text(s.today_reset_secs as nat)),
        ],
{
    let mut rows: Vec<(String, String)> = Vec::new();
    let quota = numeral::to_decimal(commands::FREE_QUOTA_PER_DAY);
    push_row(
        &mut rows,
        "calls today",
        numeral::to_decimal(s.today_calls).concat(" / ").concat(quota.as_str()).concat("  (").concat(
            percent,
        ).concat("%)"),
    );
    push_row(&mut rows, "bytes today", log_view::fmt_bytes(s.today_bytes));
    push_row(&mut rows, "PT day", s.today_key.clone());
    let minutes = numeral::to_decimal((s.today_reset_secs / 60) % 60);
    push_row(
        &mut rows,
        "resets in",
        numeral::to_decimal(s.today_reset_secs / 3600).concat("h ").concat(minutes.as_str()).concat(
            "m",
        ),
    );
    rows
}

/// The discovery of an edge address.
pub enum DiscoverState {
    InFlight { hostname: String },
    /// How many of the addresses found are reachable.
    Done { hostname: String, reachable: u64, total: u64 },
    Error { hostname: String, message: String },
}

/// Discovery was clicked: the host to look up. A blank host and a discovery
/// under way leave the button disabled.
pub fn discover_clicked(input: &str, in_flight: bool) -> (r: Option<String>)
    ensures
        match r {
            Some(h) => !in_flight && text::trimmed(input@).len() > 0 && h@ == text::trimmed(input@),
            None => in_flight || text::trimmed(input@).len() == 0,
        },
{
    let hostname = text::trim(input);
    if in_flight || hostname.as_str().is_empty() {
        None
    } else {
        Some(hostname)
    }
}

/// What the window says of a discovery.
pub fn discover_text(d: &DiscoverState) -> (r: String)
    ensures
        r@ == (match *d {
            DiscoverState::InFlight { hostname } => "Discovering "@ + hostname@
                + " \u{2014} resolving DNS and probing IPs\u{2026}"@,
            DiscoverState::Error { hostname, message } => "\u{2717} "@ + hostname@ + ": "@ + message@,
            DiscoverState::Done { hostname, reachable, total } => if reachable > 0 {
                hostname@ + " \u{2014} "@ + numeral::decimal(reachable as nat) + " of "@
                    + numeral::decimal(total as nat) + " IPs reachable"@
            } else {
                hostname@ + " \u{2014} no IPs reachable"@
            },
        }),
{
    match d {
        DiscoverState::InFlight { hostname } => "Discovering ".to_owned().concat(
            hostname.as_str(),
        ).concat(" \u{2014} resolving DNS and probing IPs\u{2026}"),
        DiscoverState::Error { hostname, message } => "\u{2717} ".to_owned().concat(
            hostname.as_str(),
        ).concat(": ").concat(message.as_str()),
        DiscoverState::Done { hostname, reachable, total } => if *reachable > 0 {
            let n = numeral::to_decimal(*reachable);
            let of = numeral::to_decimal(*total);
            hostname.clone().concat(" \u{2014} ").concat(n.as_str()).concat(" of ").concat(
                of.as_str(),
            ).concat(" IPs reachable")
        } else {
            hostname.clone().concat(" \u{2014} no IPs reachable")
        },
    }
}

/// The mark and the detail of a probed address: its latency, else its error,
/// else neither.
pub fn address_detail(latency_ms: Option<u32>, error: Option<&str>) -> (r: (String, String))
    ensures
        match latency_ms {
            Some(ms) => r.0@ == "\u{2713}"@ && r.1@ == numeral::decimal(ms as nat) + " ms"@,
            None => match error {
                Some(e) => r.0@ == "\u{2717}"@ && r.1@ == e@,
                None => r.0@ == "?"@ && r.1@ == "unknown"@,
            },
        },
{
    match latency_ms {
        Some(ms) => ("\u{2713}".to_owned(), numeral::to_decimal(ms as u64).concat(" ms")),
        None => match error {
            Some(e) => ("\u{2717}".to_owned(), e.to_owned()),
            None => ("?".to_owned(), "unknown".to_owned()),
        },
    }
}

/// The number of enabled rows.
pub open spec fn enabled_count(rows: Seq<SniRow>) -> nat
    decreases rows.len(),
{
    if rows.len() == 0 {
        0
    } else {
        enabled_count(rows.drop_last()) + (if rows.last().enabled {
            1nat
        } else {
            0nat
        })
    }
}

/// The label of the button that opens the SNI pool.
pub fn sni_button(rows: &Vec<SniRow>) -> (r: String)
    ensures
        r@ == "SNI pool\u{2026} ("@ + numeral::decimal(enabled_count(rows@)) + "/"@ + numeral::decimal(
            rows@.len(),
        ) + ")"@,
{
    let len: usize = rows.len();
    let mut active: usize = 0;
    let mut i: usize = 0;
    while i < len
        invariant
            i <= len,
            len == rows@.len(),
            active <= i,
            active == enabled_count(rows@.take(i as int)),
        decreases len - i,
    {
        proof {
            assert(rows@.take(i + 1).drop_last() =~= rows@.take(i as int));
        }
        if rows[i].enabled {
            active = active + 1;
        }
        i = i + 1;
    }
    proof {
        assert(rows@.take(len as int) =~= rows@);
    }
    let a = numeral::to_decimal(active as u64);
    let t = numeral::to_decimal(len as u64);
    "SNI pool\u{2026} (".to_owned().concat(a.as_str()).concat("/").concat(t.as_str()).concat(")")
}

/// The state of a name's probe.
pub enum SniProbeState {
    InFlight,
    Passed(u32),
    Failed(String),
}

/// The state that a probe's result leads to.
pub fn probe_result(latency_ms: Option<u32>, error: Option<String>) -> (r: SniProbeState)
    ensures
        match latency_ms {
            Some(ms) => r == SniProbeState::Passed(ms),
            None => r matches SniProbeState::Failed(why) && (match error {
                Some(e) => why == e,
                None => why@ == "failed"@,
            }),
        },
{
    match latency_ms {
        Some(ms) => SniProbeState::Passed(ms),
        None => SniProbeState::Failed(
            match error {
                Some(e) => e,
                None => "failed".to_owned(),
            },
        ),
    }
}

/// How many bytes of an error are shown beside a name.
pub const SHORT_ERROR_BYTES: usize = 22;

/// The beginning of an error that is shown: all of it, or its first bytes.
pub open spec fn is_short_error(e: Seq<char>, short: Seq<char>) -> bool {
    if text::width(e) <= SHORT_ERROR_BYTES {
        short == e
    } else {
        short.len() <= e.len() && short == e.take(short.len() as int) && text::width(short)
            == SHORT_ERROR_BYTES
    }
}

fn shorten(e: &str) -> (r: String)
    requires
        exists|short: Seq<char>| is_short_error(e@, short),
    ensures
        is_short_error(e@, r@),
{
    let v = text::to_chars(e);
    let ghost all = v@;
    let ghost wanted = choose|short: Seq<char>| is_short_error(e@, short);
    let len: usize = v.len();
    let mut i: usize = 0;
    let mut bytes: usize = 0;
    proof {
        assert(all.take(0) =~= Seq::empty());
    }
    while i < len
        invariant
            i <= len,
            len == v@.len(),
            all == v@,
            all == e@,
            bytes <= SHORT_ERROR_BYTES,
            bytes == text::width(all.take(i as int)),
            is_short_error(e@, wanted),
            text::width(all) > SHORT_ERROR_BYTES ==> i <= wanted.len(),
        decreases len - i,
    {
        let w: usize = text::utf8_width(v[i]);
        proof {
            assert(all.take(i + 1).drop_last() =~= all.take(i as int));
            lemma_width_grows(all, i + 1, all.len() as int);
            assert(all.take(all.len() as int) =~= all);
            if text::width(all) > SHORT_ERROR_BYTES {
                if i < wanted.len() {
                    lemma_width_grows(all, i + 1, wanted.len() as int);
                } else {
                    assert(wanted =~= all.take(i as int));
                }
            }
        }
        if bytes == SHORT_ERROR_BYTES {
            proof {
                assert(w >= 1);
                assert(text::width(all) > SHORT_ERROR_BYTES);
                assert(all.subrange(0, i as int) =~= all.take(i as int));
            }
            return text::from_chars(&v, 0, i);
        }
        bytes = bytes + w;
        i = i + 1;
    }
    proof {
        assert(all.take(len as int) =~= all);
    }
    e.to_owned()
}

proof fn lemma_width_grows(s: Seq<char>, a: int, b: int)
    requires
        0 <= a <= b <= s.len(),
    ensures
        text::width(s.take(a)) <= text::width(s.take(b)),
        b - a <= text::width(s.take(b)) - text::width(s.take(a)),
    decreases b - a,
{
    if a < b {
        lemma_width_grows(s, a, b - 1);
        assert(s.take(b).drop_last() =~= s.take(b - 1));
    }
}

/// What is shown beside a name in the SNI pool. A long error is cut after its
/// first bytes, which must not fall inside a character.
pub fn probe_text(state: Option<&SniProbeState>) -> (r: String)
    requires
        state matches Some(SniProbeState::Failed(e)) ==> exists|short: Seq<char>|
            is_short_error(e@, short),
    ensures
        match state {
            Some(SniProbeState::Passed(ms)) => r@ == "ok  "@ + numeral::decimal(*ms as nat) + " ms"@,
            Some(SniProbeState::Failed(e)) => exists|short: Seq<char>|
                #[trigger] is_short_error(e@, short) && r@ == "fail "@ + short,
            Some(SniProbeState::InFlight) => r@ == "testing\u{2026}"@,
            None => r@ == "untested"@,
        },
{
    match state {
        Some(SniProbeState::Passed(ms)) => {
            let n = numeral::to_decimal(*ms as u64);
            "ok  ".to_owned().concat(n.as_str()).concat(" ms")
        },
        Some(SniProbeState::Failed(e)) => {
            let short = shorten(e.as_str());
            let r = "fail ".to_owned().concat(short.as_str());
            proof {
                assert(is_short_error(e@, short@));
            }
            r
        },
        Some(SniProbeState::InFlight) => "testing\u{2026}".to_owned(),
        None => "untested".to_owned(),
    }
}

/// A probe of one name against an address.
pub struct SniProbe {
    pub google_ip: String,
    pub sni: String,
}

/// The probe of one row: nothing where the name or the address is blank.
pub fn test_row(name: &str, google_ip: &str) -> (r: Option<SniProbe>)
    ensures
        match r {
            Some(p) => text::trimmed(name@).len() > 0 && text::trimmed(google_ip@).len() > 0
                && p.sni@ == text::trimmed(name@) && p.google_ip@ == text::trimmed(google_ip@),
            None => text::trimmed(name@).len() == 0 || text::trimmed(google_ip@).len() == 0,
        },
{
    let sni = text::trim(name);
    let ip = text::trim(google_ip);
    if sni.as_str().is_empty() || ip.as_str().is_empty() {
        None
    } else {
        Some(SniProbe { google_ip: ip, sni })
    }
}

/// A custom name was added: the pool takes it up and the input is cleared; with
/// an address to probe it against, it is probed at once. A name that is blank or
/// in the pool already changes nothing.
pub fn add_custom_clicked(pool: &mut Vec<SniRow>, input: &mut String, google_ip: &str) -> (r: Option<
    SniProbe,
>)
    ensures
        ({
            let name = text::trimmed(old(input)@);
            let rows = sni::row_views(old(pool)@);
            let ip = text::trimmed(google_ip@);
            if name.len() > 0 && !sni::has_row(rows, name) {
                &&& sni::row_views(final(pool)@) == rows.push((sni::RowView { name, enabled: true }))
                &&& final(input)@.len() == 0
                &&& if ip.len() > 0 {
                    r matches Some(p) && p.sni@ == name && p.google_ip@ == ip
                } else {
                    r is None
                }
            } else {
                r is None && final(pool)@ == old(pool)@ && *final(input) == *old(input)
            }
        }),
{
    match sni::add_custom(pool, input.as_str()) {
        None => None,
        Some(name) => {
            *input = String::new();
            let ip = text::trim(google_ip);
            if ip.as_str().is_empty() {
                None
            } else {
                Some(SniProbe { google_ip: ip, sni: name })
            }
        },
    }
}

/// What is offered beside an available update.
pub enum AssetOffer {
    Downloading,
    Installing,
    /// The labels of the buttons that install it and that only download it.
    Buttons { install: String, download: String },
}

/// Decides what is offered beside an available update of `size` bytes: buttons,
/// unless it is being downloaded or installed.
pub fn asset_offer(downloading: bool, installing: bool, size: u64) -> (r: AssetOffer)
    ensures
        match r {
            AssetOffer::Downloading => downloading,
            AssetOffer::Installing => !downloading && installing,
            AssetOffer::Buttons { install, download } => {
                &&& !downloading
                &&& !installing
                &&& install@ == "\u{27f3} Install update ("@ + log_view::megabytes_text(size as nat)
                    + ")"@
                &&& download@ == "download only ("@ + log_view::megabytes_text(size as nat) + ")"@
            },
        },
{
    if downloading {
        AssetOffer::Downloading
    } else if installing {
        AssetOffer::Installing
    } else {
        let mb = log_view::fmt_megabytes(size);
        AssetOffer::Buttons {
            install: "\u{27f3} Install update (".to_owned().concat(mb.as_str()).concat(")"),
            download: "download only (".to_owned().concat(mb.as_str()).concat(")"),
        }
    }
}

/// Why the certificate authority can or cannot be installed now.
pub fn install_ca_hover(e: &Engine) -> (r: String)
    ensures
        r@ == (if e.cert_op {
            "A cert install/remove is already in progress."@
        } else {
            "Install the MITM CA into the OS trust store (and NSS if certutil is available)."@
        }),
{
    if e.cert_op {
        "A cert install/remove is already in progress.".to_owned()
    } else {
        "Install the MITM CA into the OS trust store (and NSS if certutil is available).".to_owned()
    }
}

/// Why the certificate authority can or cannot be removed now.
pub fn remove_ca_hover(e: &Engine) -> (r: String)
    ensures
        r@ == (if e.proxy_active || e.running {
            "Stop the proxy first \u{2014} the CA keypair is held in memory by the running MITM engine, and removing it now would break HTTPS for every site until restart."@
        } else if e.cert_op {
            "A cert install/remove is already in progress."@
        } else {
            "Remove the MITM CA from the OS trust store (verified by name) and delete the on-disk ca/ directory. NSS cleanup (Firefox/Chrome) is best-effort and logs a hint if certutil is missing or a browser has the DB locked. A fresh CA is generated the next time you start the proxy. Your config.json and the Apps Script deployment are NOT touched \u{2014} no need to redeploy Code.gs."@
        }),
{
    if e.proxy_active || e.running {
        "Stop the proxy first \u{2014} the CA keypair is held in memory by the running MITM engine, and removing it now would break HTTPS for every site until restart.".to_owned()
    } else if e.cert_op {
        "A cert install/remove is already in progress.".to_owned()
    } else {
        "Remove the MITM CA from the OS trust store (verified by name) and delete the on-disk ca/ directory. NSS cleanup (Firefox/Chrome) is best-effort and logs a hint if certutil is missing or a browser has the DB locked. A fresh CA is generated the next time you start the proxy. Your config.json and the Apps Script deployment are NOT touched \u{2014} no need to redeploy Code.gs.".to_owned()
    }
}

/// The message after the log was saved to a file.
pub fn log_saved_message(outcome: Result<String, String>) -> (r: String)
    ensures
        r@ == (match outcome {
            Ok(path) => "Log saved to "@ + path@,
            Err(e) => "Log save failed: "@ + e@,
        }),
{
    match outcome {
        Ok(path) => "Log saved to ".to_owned().concat(path.as_str()),
        Err(e) => "Log save failed: ".to_owned().concat(e.as_str()),
    }
}

/// The log as saved to a file: its lines, one below the other.
pub fn log_file_body(log: &VecDeque<String>) -> (r: String)
    ensures
        r@ == text::joined(text::texts(log@), "\n"@),
{
    let lines = commands::drain_logs(log);
    text::join(&lines, "\n")
}

/// A line of the log: when it was written, and what it says.
pub fn log_line(stamp: &str, message: &str) -> (r: String)
    ensures
        r@ == stamp@ + "  "@ + message@,
{
    stamp.to_owned().concat("  ").concat(message)
}

/// Whether the window is drawn with the alternative renderer.
pub fn uses_wgpu(setting: Option<&str>) -> (r: bool)
    ensures
        r == (setting matches Some(s) && text::lower(s@) == text::lower("wgpu"@)),
{
    match setting {
        Some(s) => text::same_ignoring_case(s, "wgpu"),
        None => false,
    }
}

/// The warning about a configuration that did not load stays for the longer
/// time.
pub proof fn law_load_warning_stays(path: Seq<char>, error: Seq<char>)
    ensures
        toast_ttl("Config at "@ + path + " failed to load: "@ + error) == LOAD_TOAST_TTL_MS,
{
    reveal_strlit("failed to load");
    reveal_strlit(" failed to load: ");
    let head = "Config at "@ + path;
    let t = head + " failed to load: "@ + error;
    let at: int = head.len() as int + 1;
    assert(t.subrange(at, at + "failed to load"@.len()) =~= "failed to load"@);
    assert(text::occurs_at(t, "failed to load"@, at));
}

/// A message stays for five seconds, and for thirty if it says that something
/// failed to load.
pub proof fn law_how_long_a_message_stays(text: Seq<char>)
    ensures
        text::occurs(text, "failed to load"@) ==> toast_ttl(text) == 30_000,
        !text::occurs(text, "failed to load"@) ==> toast_ttl(text) == 5_000,
{
}

/// The name of a mode: the direct modes have no relay, the full mode needs no
/// certificate, and any other is the relay's own.
pub proof fn law_mode_names(mode: Seq<char>)
    ensures
        mode == "direct"@ || mode == "google_only"@ ==> mode_name(mode) == "Direct (no relay)"@
            && mode_hint_texts(mode).len() == 2,
        mode == "full"@ ==> mode_name(mode) == "Full tunnel (no cert)"@ && mode_hint_texts(
            mode,
        ).len() == 1,
        mode != "direct"@ && mode != "google_only"@ && mode != "full"@ ==> mode_name(mode)
            == "Apps Script (MITM)"@ && mode_hint_texts(mode).len() == 0,
{
    reveal_strlit("direct");
    reveal_strlit("google_only");
    reveal_strlit("full");
    assert("full"@.len() != "direct"@.len() && "full"@.len() != "google_only"@.len());
}

/// An address is the user's own if it is there, is not shared with the network,
/// and is not this machine's under either of its names in any case.
pub proof fn law_own_bind_address(listen_host: Seq<char>, shared: bool)
    ensures
        is_custom_bind(listen_host, shared) <==> !shared && text::trimmed(listen_host).len() > 0
            && text::lower(text::trimmed(listen_host)) != "127.0.0.1"@ && text::lower(
            text::trimmed(listen_host),
        ) != "localhost"@,
{
}

/// A port is shown as it was typed, without the blanks around it, and the
/// default stands for one that is blank.
pub proof fn law_port_or_default(
    before: Seq<char>,
    port: Seq<char>,
    after: Seq<char>,
    default: Seq<char>,
)
    requires
        forall|i: int| 0 <= i < before.len() ==> text::is_space(#[trigger] before[i]),
        forall|i: int| 0 <= i < after.len() ==> text::is_space(#[trigger] after[i]),
        port.len() > 0 ==> !text::is_space(port[0]) && !text::is_space(port.last()),
    ensures
        port.len() > 0 ==> port_or(before + port + after, default) == port,
        port.len() == 0 ==> port_or(before + port + after, default) == default,
{
    text::law_trimmed_is_the_core(before, port, after);
}

/// Each counter is shown under its own label.
pub proof fn law_counters_under_their_labels(s: StatsSnapshot, hit_rate: Seq<char>)
    requires
        s.cache_hits + s.cache_misses <= u64::MAX,
        s.blacklisted_scripts <= s.total_scripts,
    ensures
        ({
            let rows = counter_rows(s, hit_rate);
            &&& rows.len() == 7
            &&& rows[0] == ("relay calls"@, numeral::decimal(s.relay_calls as nat))
            &&& rows[1] == ("failures"@, numeral::decimal(s.relay_failures as nat))
            &&& rows[2] == ("coalesced"@, numeral::decimal(s.coalesced as nat))
            &&& rows[3].0 == "cache hits"@ && rows[3].1 == numeral::decimal(s.cache_hits as nat)
                + " / "@ + numeral::decimal((s.cache_hits + s.cache_misses) as nat) + "  ("@
                + hit_rate + "%)"@
            &&& rows[4] == ("cache size"@, numeral::decimal(s.cache_bytes as nat / 1024) + " KB"@)
            &&& rows[5] == ("bytes relayed"@, log_view::bytes_text(s.bytes_relayed as nat))
            &&& rows[6].0 == "active scripts"@ && rows[6].1 == numeral::decimal(
                (s.total_scripts - s.blacklisted_scripts) as nat,
            ) + " / "@ + numeral::decimal(s.total_scripts as nat)
        }),
        s.forwarder_calls == 0 && s.forwarder_errors == 0 <==> forwarder_rows(s).len() == 0,
        forwarder_rows(s).len() > 0 ==> {
            let rows = forwarder_rows(s);
            &&& rows.len() == 2
            &&& rows[0].0 == "fwd calls"@ && rows[0].1 == numeral::decimal(s.forwarder_calls as nat)
                + " (err "@ + numeral::decimal(s.forwarder_errors as nat) + ")"@
            &&& rows[1] == ("fwd bytes"@, log_view::bytes_text(s.forwarder_bytes as nat))
        },
{
}

/// The time to the reset shows its hours and minutes.
pub proof fn law_reset_shows_its_parts(hours: nat, minutes: nat, seconds: nat)
    requires
        minutes < 60,
        seconds < 60,
    ensures
        reset_text(hours * 3600 + minutes * 60 + seconds) == numeral::decimal(hours) + "h "@
            + numeral::decimal(minutes) + "m"@,
{
    let t = hours * 3600 + minutes * 60 + seconds;
    assert(t / 3600 == hours);
    assert((t / 60) % 60 == minutes);
}

/// A site is shown with its own figures.
pub proof fn law_site_figures(s: SiteStats)
    ensures
        site_row(s).host == s.host@,
        site_row(s).requests == numeral::decimal(s.requests as nat),
        site_row(s).hits == s.hit_percent@ + "%"@,
        site_row(s).bytes == log_view::bytes_text(s.bytes as nat),
        site_row(s).latency == s.mean_latency_ms@,
{
}

/// The count of enabled rows grows by one with each enabled row.
pub proof fn law_enabled_rows_are_counted(rows: Seq<SniRow>, row: SniRow)
    ensures
        enabled_count(rows.push(row)) == enabled_count(rows) + (if row.enabled {
            1nat
        } else {
            0nat
        }),
        enabled_count(rows) <= rows.len(),
        enabled_count(Seq::empty()) == 0,
    decreases rows.len(),
{
    assert(rows.push(row).drop_last() =~= rows);
    if rows.len() > 0 {
        law_enabled_rows_are_counted(rows.drop_last(), row);
    }
}

/// An error of up to 22 bytes is shown whole, and of a longer one the first 22
/// bytes.
pub proof fn law_short_error(e: Seq<char>, short: Seq<char>)
    requires
        is_short_error(e, short),
    ensures
        text::width(e) <= 22 ==> short == e,
        text::width(e) > 22 ==> text::width(short) == 22 && e == short + e.skip(short.len() as int),
{
    if text::width(e) > 22 {
        assert(e =~= e.take(short.len() as int) + e.skip(short.len() as int));
    }
}

} // verus!
