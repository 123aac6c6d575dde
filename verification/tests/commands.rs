use std::collections::VecDeque;

use rahgozar::commands::{
    clear_logs, default_config_base, discover_front_cmd, drain_logs, failure, file_failure,
    get_ca_status, get_config, get_fronting_groups, get_raw_config, get_stats, install_ca_cmd,
    mint_ca_if_missing, probe_settings, probe_sni, read_or_default_config_json, remove_ca_cmd,
    save_config, save_fronting_groups, save_raw_config, save_sni_pool, saved_fronting_groups,
    scan_ips, test_relay, CaFacts, ConfigUpdate, DiscoveredFront, UsageSnapshot,
};
use rahgozar::config::FrontingGroup;
use rahgozar::form::FormState;
use rahgozar::sni::SniHostDto;
use serde_json::Value;

fn parse(text: &str) -> Value {
    serde_json::from_str(text).unwrap()
}

fn update() -> ConfigUpdate {
    ConfigUpdate {
        mode: "apps_script".into(),
        listen_host: "127.0.0.1".into(),
        listen_port: 8085,
        socks5_port: Some(8086),
        script_ids: vec![" a ".into(), "".into()],
        auth_key: "K".into(),
        front_domain: "www.google.com".into(),
        google_ip: "1.2.3.4".into(),
        log_level: "info".into(),
    }
}

fn refusal(u: ConfigUpdate) -> String {
    save_config(u, Ok(true), None, "p").err().expect("the update is refused")
}

#[test]
fn the_base_document_is_complete() {
    assert_eq!(
        default_config_base(),
        parse(
            "{\"mode\":\"apps_script\",\"google_ip\":\"216.239.38.120\",\
             \"front_domain\":\"www.google.com\",\"auth_key\":\"\",\
             \"listen_host\":\"127.0.0.1\",\"listen_port\":8085,\"socks5_port\":8086,\
             \"log_level\":\"info,hyper=warn\"}"
        )
    );
    assert_eq!(read_or_default_config_json(None, "p").unwrap(), default_config_base());
    let bytes = b"[1]".to_vec();
    assert_eq!(read_or_default_config_json(Some(&bytes), "p").unwrap(), parse("[1]"));
    let bytes = b"{".to_vec();
    let e = read_or_default_config_json(Some(&bytes), "cfg").unwrap_err();
    assert!(e.starts_with("parse cfg: "), "{e}");
}

#[test]
fn updates_are_checked() {
    let e = save_config(update(), Err("unknown mode".into()), None, "p").err();
    assert_eq!(e, Some("unknown mode".to_string()));
    let mut u = update();
    u.script_ids = vec![" ".into()];
    assert_eq!(refusal(u), "At least one deployment ID is required");
    let mut u = update();
    u.auth_key = " ".into();
    assert_eq!(refusal(u), "Auth key is required");
    let mut u = update();
    u.socks5_port = Some(8085);
    assert_eq!(refusal(u), "HTTP and SOCKS5 ports must differ");
    let mut u = update();
    u.script_ids = vec![];
    u.auth_key = "".into();
    assert!(save_config(u, Ok(false), None, "p").is_ok());
    let bytes = b"[]".to_vec();
    let e = save_config(update(), Ok(true), Some(&bytes), "p").err();
    assert_eq!(e, Some("config.json is not a JSON object".to_string()));
}

#[test]
fn updates_keep_other_members() {
    let saved = b"{\"custom\":{\"x\":[1]},\"script_ids\":[\"old\"],\"socks5_port\":1}".to_vec();
    let mut u = update();
    u.socks5_port = None;
    let (shown, doc) = save_config(u, Ok(true), Some(&saved), "p").unwrap();
    assert_eq!(shown.script_ids, vec!["a"]);
    assert_eq!(shown.socks5_port, None);
    assert_eq!(doc.get("custom"), Some(&parse("{\"x\":[1]}")));
    assert_eq!(doc.get("script_id"), Some(&parse("\"a\"")));
    assert!(doc.get("script_ids").is_none());
    assert!(doc.get("socks5_port").is_none());
    assert_eq!(doc.get("listen_port"), Some(&parse("8085")));
    let bytes = serde_json::to_vec(&doc).unwrap();
    let mut u = update();
    u.socks5_port = None;
    let (_, again) = save_config(u, Ok(true), Some(&bytes), "p").unwrap();
    assert_eq!(again, doc, "saving again changes nothing");
    let mut u = update();
    u.script_ids = vec!["a".into(), "b".into()];
    let (_, doc) = save_config(u, Ok(true), Some(&bytes), "p").unwrap();
    assert_eq!(doc.get("script_id"), Some(&parse("[\"a\",\"b\"]")));
}

#[test]
fn the_configuration_is_shown() {
    let d = get_config(None);
    assert_eq!(d.mode, "apps_script");
    assert_eq!(d.listen_port, 8085);
    assert_eq!(d.socks5_port, Some(8086));
    assert_eq!(d.log_level, "info,hyper=warn");
    assert!(d.script_ids.is_empty());
    let mut form = FormState::fresh_install_defaults();
    form.script_id = "a\nb".into();
    form.auth_key = "K".into();
    let c = form.to_config().unwrap();
    let d = get_config(Some(&c));
    assert_eq!(d.script_ids, vec!["a", "b"]);
    assert_eq!(d.auth_key, "K");
}

#[test]
fn groups_are_saved_into_the_document() {
    let g = FrontingGroup {
        name: " n ".into(),
        ip: "1.1.1.1".into(),
        sni: "s".into(),
        domains: vec![" d ".into()],
    };
    let saved = b"{\"keep\":true}".to_vec();
    let (groups, doc) = save_fronting_groups(&vec![g], Some(&saved), "p").unwrap();
    assert_eq!(groups[0].name, "n");
    assert_eq!(
        doc,
        parse(
            "{\"keep\":true,\"fronting_groups\":\
             [{\"name\":\"n\",\"ip\":\"1.1.1.1\",\"sni\":\"s\",\"domains\":[\"d\"]}]}"
        )
    );
    let bytes = serde_json::to_vec(&doc).unwrap();
    let v = saved_fronting_groups(Some(&bytes), "p").unwrap().expect("groups are there");
    assert_eq!(v.as_array().unwrap().len(), 1);
    assert!(saved_fronting_groups(Some(&saved), "p").unwrap().is_none());
    assert!(saved_fronting_groups(None, "p").unwrap().is_none());
    assert!(get_fronting_groups(None).unwrap().is_empty());
    let e = get_fronting_groups(Some(Err("bad".into()))).unwrap_err();
    assert_eq!(e, "malformed fronting_groups: bad");
}

#[test]
fn pool_is_saved_into_the_document() {
    let rows = vec![
        SniHostDto {
            host: " a ".into(),
            enabled: true,
        },
        SniHostDto {
            host: "b".into(),
            enabled: false,
        },
    ];
    let doc = save_sni_pool(&rows, None, "p").unwrap();
    assert_eq!(doc.get("sni_hosts"), Some(&parse("[\"a\"]")));
    assert_eq!(doc.get("mode"), Some(&parse("\"apps_script\"")));
    let e = save_sni_pool(&vec![], None, "p").unwrap_err();
    assert_eq!(e, "At least one SNI host must remain enabled");
}

#[test]
fn probe_settings_have_defaults() {
    assert_eq!(probe_settings(None, "p").unwrap(), ("216.239.38.120".to_string(), true));
    let b = b"{\"google_ip\":\"1.1.1.1\",\"google_ip_validation\":false}".to_vec();
    assert_eq!(probe_settings(Some(&b), "p").unwrap(), ("1.1.1.1".to_string(), false));
    let b = b"{\"google_ip\":7,\"google_ip_validation\":\"no\"}".to_vec();
    assert_eq!(
        probe_settings(Some(&b), "p").unwrap(),
        ("216.239.38.120".to_string(), true)
    );
    let b = b"nonsense".to_vec();
    assert!(probe_settings(Some(&b), "p").is_err());
}

#[test]
fn task_outcomes_are_answered() {
    assert!(test_relay(Ok(true)).unwrap().pass);
    assert_eq!(test_relay(Err("x".into())).err().unwrap(), "test task panicked: x");
    assert!(!scan_ips(Ok(false)).unwrap().pass);
    assert_eq!(scan_ips(Err("x".into())).err().unwrap(), "scan task panicked: x");
    let p = probe_sni("h".into(), Ok(true)).unwrap();
    assert!(p.reachable && p.host == "h");
    assert_eq!(
        probe_sni("h".into(), Err("x".into())).err().unwrap(),
        "probe task panicked: x"
    );
    let d = discover_front_cmd(Ok(Ok(DiscoveredFront {
        hostname: "h".into(),
        ok_ips: vec!["1.1.1.1".into(), "2.2.2.2".into()],
    })))
    .unwrap();
    assert_eq!(d.best_ip, Some("1.1.1.1".to_string()));
    assert_eq!(d.reachable_count, 2);
    assert_eq!(
        discover_front_cmd(Ok(Err("x".into()))).err().unwrap(),
        "discover failed: x"
    );
    assert_eq!(
        discover_front_cmd(Err("x".into())).err().unwrap(),
        "discover task panicked: x"
    );
}

#[test]
fn certificate_status_is_told() {
    let d = get_ca_status("p".into(), None);
    assert!(!d.exists && !d.trusted && d.fingerprint.is_none());
    let d = get_ca_status(
        "p".into(),
        Some(CaFacts {
            fingerprint: Some("f".into()),
            subject_cn: None,
            trusted: true,
        }),
    );
    assert!(d.exists && !d.trusted, "without a subject nothing is trusted");
    let d = get_ca_status(
        "p".into(),
        Some(CaFacts {
            fingerprint: Some("f".into()),
            subject_cn: Some("cn".into()),
            trusted: true,
        }),
    );
    assert!(d.trusted);
    let e = install_ca_cmd(Err("a".into()), Err("b".into()), get_ca_status("p".into(), None));
    assert_eq!(e.err().unwrap(), "mitm init: a");
    let e = install_ca_cmd(Ok(()), Err("b".into()), get_ca_status("p".into(), None));
    assert_eq!(e.err().unwrap(), "install failed: b");
    assert!(install_ca_cmd(Ok(()), Ok(()), d).unwrap().trusted);
    let e = mint_ca_if_missing(Err("a".into()), get_ca_status("p".into(), None));
    assert_eq!(e.err().unwrap(), "mitm init: a");
    assert_eq!(remove_ca_cmd(Ok("done".into())).unwrap(), "done");
    assert_eq!(remove_ca_cmd(Err("x".into())).unwrap_err(), "remove failed: x");
}

#[test]
fn usage_is_told_while_running() {
    assert!(get_stats(None).is_none());
    let u = get_stats(Some(UsageSnapshot {
        today_calls: 5,
        today_bytes: 6,
        today_key: "2025-01-01".into(),
        today_reset_secs: 7,
    }))
    .unwrap();
    assert_eq!(u.today_calls, 5);
    assert_eq!(u.free_quota_per_day, 20_000);
}

#[test]
fn raw_documents_are_shown_indented() {
    assert_eq!(get_raw_config(None, "p").unwrap(), "{}\n");
    let b = b"{\"b\":1,\"a\":[true]}".to_vec();
    assert_eq!(
        get_raw_config(Some(&b), "p").unwrap(),
        "{\n  \"a\": [\n    true\n  ],\n  \"b\": 1\n}\n"
    );
}

#[test]
fn raw_text_is_saved_as_typed() {
    let typed = "{ \"b\": 1,\n      \"a\":2 }";
    assert_eq!(save_raw_config(typed, Ok(()), Ok(())).unwrap(), typed);
    let e = save_raw_config("{}", Err("t".into()), Ok(())).unwrap_err();
    assert_eq!(e, "invalid config: t");
    let e = save_raw_config("{}", Ok(()), Err("v".into())).unwrap_err();
    assert_eq!(e, "invalid config: v");
}

#[test]
fn logs_are_drained_and_cleared() {
    let mut log: VecDeque<String> = VecDeque::new();
    log.push_back("a".into());
    log.push_back("b".into());
    assert_eq!(drain_logs(&log), vec!["a", "b"]);
    assert_eq!(drain_logs(&log).len(), 2);
    clear_logs(&mut log);
    assert!(drain_logs(&log).is_empty());
}

#[test]
fn failures_are_told_alike() {
    assert_eq!(failure("a", "b"), "a: b");
    assert_eq!(file_failure("read", "p", "e"), "read p: e");
}
