use std::collections::VecDeque;

use rahgozar::engine::Engine;
use rahgozar::form::FormState;
use rahgozar::panel::{
    add_custom_clicked, add_row, address_detail, asset_offer, bind_choice, clears_active, curated_message,
    discover_clicked, discover_text, ids_hint, install_ca_hover, log_file_body, log_line, log_saved_message, mode_changed, mode_hints, mode_label,
    other_devices_line, per_site_rows, per_site_title, poll_due, probe_result, probe_text, remove_ca_hover, remove_row, row_collides,
    save_clicked, saved_message, scan_clicked, shared_host, sni_button, start_clicked, stats_rows, take_revert, test_clicked,
    test_row, traffic_title, update_check_route, upstream_hint, usage_rows, uses_wgpu, Bind,
    AssetOffer, DiscoverState, Route, SiteStats, SniProbeState, StatsSnapshot, Toast,
    PER_SITE_ROWS,
};
use rahgozar::sni::SniRow;

fn stats() -> StatsSnapshot {
    StatsSnapshot {
        relay_calls: 10,
        relay_failures: 1,
        coalesced: 2,
        cache_hits: 3,
        cache_misses: 1,
        cache_bytes: 2049,
        bytes_relayed: 1536,
        total_scripts: 4,
        blacklisted_scripts: 1,
        forwarder_calls: 0,
        forwarder_errors: 0,
        forwarder_bytes: 0,
        today_calls: 200,
        today_bytes: 512,
        today_key: "2025-01-01".into(),
        today_reset_secs: 3_720,
    }
}

fn pairs(rows: &[(String, String)]) -> Vec<(&str, &str)> {
    rows.iter().map(|r| (r.0.as_str(), r.1.as_str())).collect()
}

#[test]
fn load_warnings_stay_longer() {
    let t = Toast {
        text: "Saved to /x".into(),
        at: 0,
    };
    assert!(t.is_shown(4_999) && !t.is_shown(5_000));
    let t = Toast {
        text: "Config at /x failed to load: bad".into(),
        at: 0,
    };
    assert!(t.is_shown(29_999) && !t.is_shown(30_000));
    assert!(poll_due(0, 701) && !poll_due(0, 700));
}

#[test]
fn mode_changes_reach_an_active_proxy() {
    let mut f = FormState::fresh_install_defaults();
    f.mode = "direct".into();
    let c = mode_changed(&mut f, "apps_script".into(), false);
    assert!(c.switch_to.is_none() && c.message.is_none());
    let c = mode_changed(&mut f, "apps_script".into(), true);
    assert_eq!(c.switch_to.unwrap().mode, "direct");
    assert_eq!(c.message, Some("Switching mode \u{2192} direct".to_string()));
    f.mode = "full".into();
    let c = mode_changed(&mut f, "direct".into(), true);
    assert!(c.switch_to.is_none());
    assert_eq!(
        c.message,
        Some("Cannot switch mode: Apps Script ID is required".to_string())
    );
    assert_eq!(f.mode, "direct");
    assert_eq!(
        take_revert(&mut f, Some(("full".into(), "why".into()))),
        Some("why".to_string())
    );
    assert_eq!(f.mode, "full");
    assert_eq!(take_revert(&mut f, None), None);
    assert_eq!(mode_label("google_only"), "Direct (no relay)");
    assert_eq!(mode_label("full"), "Full tunnel (no cert)");
    assert_eq!(mode_label("?"), "Apps Script (MITM)");
}

#[test]
fn clicks_need_a_valid_form() {
    let mut f = FormState::fresh_install_defaults();
    assert_eq!(
        start_clicked(&f).unwrap_err(),
        "Cannot start: Apps Script ID is required"
    );
    assert_eq!(
        test_clicked(&f).unwrap_err(),
        "Cannot test: Apps Script ID is required"
    );
    f.mode = "direct".into();
    assert!(start_clicked(&f).is_ok() && test_clicked(&f).is_ok());
}

#[test]
fn a_bind_of_the_users_own_is_left_alone() {
    assert!(matches!(bind_choice(" LocalHost ", false), Bind::Shared(false)));
    assert!(matches!(bind_choice("", false), Bind::Shared(false)));
    assert!(matches!(bind_choice("0.0.0.0", true), Bind::Shared(true)));
    match bind_choice(" 192.168.1.5 ", false) {
        Bind::Custom(h) => assert_eq!(h, "192.168.1.5"),
        _ => panic!("expected a custom bind"),
    }
    assert_eq!(shared_host(true), "0.0.0.0");
    assert_eq!(shared_host(false), "127.0.0.1");
    assert_eq!(
        other_devices_line("10.0.0.2", " ", "99"),
        "Other devices: HTTP 10.0.0.2:8085  \u{b7}  SOCKS5 10.0.0.2:99"
    );
    assert_eq!(
        upstream_hint(true, "direct", "127.0.0.1", " 80 "),
        Some("127.0.0.1:80".to_string())
    );
    assert_eq!(upstream_hint(true, "full", "h", "80"), None);
    assert_eq!(upstream_hint(false, "direct", "h", "80"), None);
}

#[test]
fn update_checks_go_through_the_proxy() {
    let mut f = FormState::fresh_install_defaults();
    assert!(matches!(update_check_route(false, &f), Route::Direct));
    f.listen_host = " ".into();
    f.listen_port = " 8085 ".into();
    match update_check_route(true, &f) {
        Route::Proxy { host, port } => {
            assert_eq!(host, "127.0.0.1");
            assert_eq!(port, 8085);
        }
        _ => panic!("expected the proxy"),
    }
    f.listen_port = "x".into();
    assert!(matches!(update_check_route(true, &f), Route::Direct));
}

#[test]
fn counters_are_laid_out() {
    let mut s = stats();
    let rows = stats_rows(&s, "75");
    assert_eq!(
        pairs(&rows),
        vec![
            ("relay calls", "10"),
            ("failures", "1"),
            ("coalesced", "2"),
            ("cache hits", "3 / 4  (75%)"),
            ("cache size", "2 KB"),
            ("bytes relayed", "1.5 KB"),
            ("active scripts", "3 / 4"),
        ]
    );
    s.forwarder_errors = 2;
    s.forwarder_bytes = 7;
    let rows = stats_rows(&s, "75");
    assert_eq!(pairs(&rows)[7], ("fwd calls", "0 (err 2)"));
    assert_eq!(pairs(&rows)[8], ("fwd bytes", "7 B"));
    assert_eq!(
        pairs(&usage_rows(&s, "1.0")),
        vec![
            ("calls today", "200 / 20000  (1.0%)"),
            ("bytes today", "512 B"),
            ("PT day", "2025-01-01"),
            ("resets in", "1h 2m"),
        ]
    );
    assert_eq!(traffic_title(true, 61), "Traffic  \u{b7}  uptime 00:01:01");
    assert_eq!(traffic_title(false, 61), "Traffic  \u{b7}  (not running)");
}

#[test]
fn discoveries_are_told() {
    assert_eq!(discover_clicked(" python.org ", false), Some("python.org".to_string()));
    assert_eq!(discover_clicked("python.org", true), None);
    assert_eq!(discover_clicked("  ", false), None);
    assert_eq!(
        discover_text(&DiscoverState::Done {
            hostname: "h".into(),
            reachable: 2,
            total: 3
        }),
        "h \u{2014} 2 of 3 IPs reachable"
    );
    assert_eq!(
        discover_text(&DiscoverState::Done {
            hostname: "h".into(),
            reachable: 0,
            total: 3
        }),
        "h \u{2014} no IPs reachable"
    );
    assert_eq!(
        discover_text(&DiscoverState::Error {
            hostname: "h".into(),
            message: "m".into()
        }),
        "\u{2717} h: m"
    );
    assert_eq!(
        discover_text(&DiscoverState::InFlight { hostname: "h".into() }),
        "Discovering h \u{2014} resolving DNS and probing IPs\u{2026}"
    );
    assert_eq!(
        address_detail(Some(12), Some("e")),
        ("\u{2713}".to_string(), "12 ms".to_string())
    );
    assert_eq!(
        address_detail(None, Some("e")),
        ("\u{2717}".to_string(), "e".to_string())
    );
    assert_eq!(address_detail(None, None), ("?".to_string(), "unknown".to_string()));
}

#[test]
fn pool_rows_are_tested() {
    let row = |n: &str, enabled: bool| SniRow {
        name: n.into(),
        enabled,
    };
    let mut pool = vec![row("a", true), row("b", false)];
    assert_eq!(sni_button(&pool), "SNI pool\u{2026} (1/2)");
    let p = test_row(" a ", " 1.1.1.1 ").unwrap();
    assert_eq!(p.sni, "a");
    assert_eq!(p.google_ip, "1.1.1.1");
    assert!(test_row(" ", "1.1.1.1").is_none());
    assert!(test_row("a", " ").is_none());
    let mut input = " c ".to_string();
    let p = add_custom_clicked(&mut pool, &mut input, "1.1.1.1").unwrap();
    assert_eq!(p.sni, "c");
    assert_eq!(input, "");
    let mut input = "a".to_string();
    assert!(add_custom_clicked(&mut pool, &mut input, "1.1.1.1").is_none());
    assert_eq!(input, "a");
    let mut input = "d".to_string();
    assert!(add_custom_clicked(&mut pool, &mut input, "").is_none());
    assert_eq!(pool.len(), 4);
}

#[test]
fn probe_states_are_told() {
    assert_eq!(probe_text(None), "untested");
    assert_eq!(probe_text(Some(&SniProbeState::InFlight)), "testing\u{2026}");
    assert_eq!(probe_text(Some(&probe_result(Some(7), None))), "ok  7 ms");
    assert_eq!(probe_text(Some(&probe_result(None, None))), "fail failed");
    let long = "0123456789012345678901234".to_string();
    assert_eq!(
        probe_text(Some(&probe_result(None, Some(long)))),
        "fail 0123456789012345678901"
    );
    let exact = "\u{e9}".repeat(12);
    assert_eq!(
        probe_text(Some(&probe_result(None, Some(exact)))),
        format!("fail {}", "\u{e9}".repeat(11))
    );
}

#[test]
fn custom_rows_are_edited() {
    assert!(row_collides(" mode "));
    assert!(!row_collides("  "));
    assert!(!row_collides("future"));
    let mut rows: Vec<(String, String)> = vec![("a".into(), "1".into())];
    add_row(&mut rows);
    assert_eq!(rows.len(), 2);
    assert_eq!(rows[1], (String::new(), String::new()));
    remove_row(&mut rows, 0);
    assert_eq!(rows, vec![(String::new(), String::new())]);
}

#[test]
fn messages_are_worded() {
    assert_eq!(
        ids_hint("a"),
        "Tip: add more IDs for round-robin with auto-failover."
    );
    assert_eq!(
        ids_hint("a,b"),
        "2 IDs \u{2014} round-robin with auto-failover on quota."
    );
    assert_eq!(
        curated_message(Ok((3, 1))),
        "Loaded curated groups: 3 added, 1 already present. Press Save config to persist."
    );
    assert_eq!(
        curated_message(Err("x".into())),
        "Could not load curated groups: x"
    );
    assert!(clears_active("home", true));
    assert!(!clears_active("", true) && !clears_active("home", false));
    assert_eq!(saved_message("/c", "home", None), "Saved to /c");
    assert_eq!(
        saved_message("/c", "home", Some("io")),
        "Saved to /c, but the active profile marker still points at 'home' (clearing it failed: \
         io). The dropdown will misclaim until you switch profiles or restart."
    );
    assert_eq!(log_line("2025", "m"), "2025  m");
    let mut log: VecDeque<String> = VecDeque::new();
    log.push_back("a".into());
    log.push_back("b".into());
    assert_eq!(log_file_body(&log), "a\nb");
    assert!(uses_wgpu(Some("WGPU")) && !uses_wgpu(Some("glow")) && !uses_wgpu(None));
}

fn direct_form() -> FormState {
    let mut f = FormState::fresh_install_defaults();
    f.mode = "direct".into();
    f
}

#[test]
fn a_scan_starts_from_a_form_that_can_be_saved() {
    let (c, message) = scan_clicked(&direct_form()).unwrap();
    assert_eq!(c.mode, "direct");
    assert_eq!(message, "Scan started \u{2014} check the Recent log below.");
    let mut f = direct_form();
    f.listen_port = "no".into();
    assert!(scan_clicked(&f).is_none());
}

#[test]
fn a_click_on_save_gives_the_document() {
    let v = save_clicked(&direct_form()).unwrap();
    assert_eq!(v["mode"], "direct");
    let mut f = direct_form();
    f.listen_port = "no".into();
    let e = save_clicked(&f).unwrap_err();
    assert!(e.starts_with("Save failed: "));
}

#[test]
fn an_update_is_offered_with_its_size() {
    match asset_offer(false, false, 0x50_0000) {
        AssetOffer::Buttons { install, download } => {
            assert_eq!(install, "\u{27f3} Install update (5.0 MB)");
            assert_eq!(download, "download only (5.0 MB)");
        }
        _ => panic!("expected the buttons"),
    }
    assert!(matches!(asset_offer(true, true, 1), AssetOffer::Downloading));
    assert!(matches!(asset_offer(false, true, 1), AssetOffer::Installing));
}

#[test]
fn certificate_hints_follow_the_engine() {
    let mut e = Engine::new();
    assert!(install_ca_hover(&e).starts_with("Install the MITM CA"));
    assert!(remove_ca_hover(&e).starts_with("Remove the MITM CA"));
    e.cert_op = true;
    assert_eq!(install_ca_hover(&e), "A cert install/remove is already in progress.");
    assert_eq!(remove_ca_hover(&e), "A cert install/remove is already in progress.");
    e.proxy_active = true;
    assert!(remove_ca_hover(&e).starts_with("Stop the proxy first"));
}

#[test]
fn the_saved_log_is_announced() {
    assert_eq!(log_saved_message(Ok("/l".into())), "Log saved to /l");
    assert_eq!(log_saved_message(Err("full".into())), "Log save failed: full");
}

fn site(i: u64) -> SiteStats {
    SiteStats {
        host: format!("h{i}.example"),
        requests: i,
        hit_percent: "33".into(),
        bytes: 1536,
        mean_latency_ms: "120".into(),
    }
}

#[test]
fn the_first_hosts_make_up_the_per_site_table() {
    assert!(per_site_rows(&Vec::new()).is_empty());
    assert_eq!(per_site_title(&Vec::new()), None);
    let sites: Vec<SiteStats> = (0..61).map(site).collect();
    assert_eq!(per_site_title(&sites), Some("Per-site (61 hosts)".to_string()));
    let rows = per_site_rows(&sites);
    assert_eq!(rows.len(), PER_SITE_ROWS);
    assert_eq!(rows[0].host, "h0.example");
    let last = &rows[59];
    assert_eq!(last.host, "h59.example");
    assert_eq!(last.requests, "59");
    assert_eq!(last.hits, "33%");
    assert_eq!(last.bytes, "1.5 KB");
    assert_eq!(last.latency, "120");
}

#[test]
fn a_mode_is_explained() {
    assert!(mode_hints("apps_script").is_empty());
    assert!(mode_hints("full")[0].starts_with("Full tunnel \u{2014} all traffic"));
    assert_eq!(mode_hints("full").len(), 1);
    let direct = mode_hints("direct");
    assert_eq!(direct.len(), 2);
    assert!(direct[0].starts_with("Direct mode \u{2014} SNI-rewrite tunnel only."));
    assert!(direct[1].starts_with("Also works as upstream proxy"));
    assert_eq!(mode_hints("google_only"), direct);
}
