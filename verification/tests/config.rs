use rahgozar::config::{
    is_default_apps_script_lang, is_default_cooldown_secs, is_default_direct_mode,
    is_default_exit_node, is_default_log_color_error, is_default_log_color_info,
    is_default_log_color_warn, is_default_strikes, is_default_timeout_secs,
    is_default_window_secs, is_false, is_modeled_config_key, is_true, is_zero_u16, is_zero_u8,
    modeled_config_keys, Config, DirectModeConfig, ExitNodeConfig, FrontingGroup, ScriptId,
    DEFAULT_LOG_COLOR_ERROR, DEFAULT_LOG_COLOR_INFO, DEFAULT_LOG_COLOR_WARN,
};
use rahgozar::custom_params::{build_extras_from_buffer, extras_to_buffer};
use rahgozar::wire::ConfigWire;
use serde_json::{Number, Value};

fn texts(items: &[&str]) -> Vec<String> {
    items.iter().map(|s| s.to_string()).collect()
}

fn parse(text: &str) -> Value {
    serde_json::from_str(text).unwrap()
}

fn config(mode: &str) -> Config {
    Config {
        mode: mode.into(),
        google_ip: "216.239.38.120".into(),
        front_domain: "www.google.com".into(),
        script_id: None,
        script_ids: None,
        auth_key: String::new(),
        listen_host: "127.0.0.1".into(),
        listen_port: 8085,
        socks5_port: None,
        log_level: "info".into(),
        log_color_info: DEFAULT_LOG_COLOR_INFO.into(),
        log_color_warn: DEFAULT_LOG_COLOR_WARN.into(),
        log_color_error: DEFAULT_LOG_COLOR_ERROR.into(),
        verify_ssl: true,
        hosts: Vec::new(),
        enable_batching: false,
        upstream_socks5: None,
        parallel_relay: 0,
        coalesce_step_ms: 0,
        coalesce_max_ms: 0,
        sni_hosts: None,
        fetch_ips_from_api: false,
        max_ips_to_scan: 100,
        scan_batch_size: 500,
        google_ip_validation: true,
        normalize_x_graphql: false,
        youtube_via_relay: false,
        relay_url_patterns: Vec::new(),
        sabr_strip: false,
        passthrough_hosts: Vec::new(),
        block_quic: true,
        block_stun: false,
        disable_padding: false,
        force_http1: false,
        tunnel_doh: true,
        bypass_doh_hosts: Vec::new(),
        block_doh: true,
        fronting_groups: Vec::new(),
        auto_blacklist_strikes: 3,
        auto_blacklist_window_secs: 30,
        auto_blacklist_cooldown_secs: 120,
        request_timeout_secs: 30,
        apps_script_lang: "en".into(),
        exit_node: ExitNodeConfig::disabled(),
        direct_mode: DirectModeConfig::built_in(),
        extras: serde_json::Map::new(),
    }
}

fn wire(c: &Config) -> Value {
    ConfigWire::from(c).into_value()
}

#[test]
fn config_wire_serializes_extras() {
    let mut cfg = config("apps_script");
    cfg.auth_key = "MY_REAL_SECRET".into();
    cfg.script_id = Some(ScriptId::One("X".into()));
    cfg.extras.insert("future_field_xyz".into(), parse("[1, 2, 3]"));
    cfg.extras.insert(
        "another_future_field".into(),
        parse("{\"nested\": true, \"n\": 42}"),
    );
    assert!(cfg.extras.contains_key("future_field_xyz"));
    let out = wire(&cfg);
    assert_eq!(out.get("future_field_xyz"), Some(&parse("[1, 2, 3]")));
    assert_eq!(
        out.get("another_future_field"),
        Some(&parse("{\"nested\": true, \"n\": 42}"))
    );
    assert_eq!(out.get("mode"), Some(&parse("\"apps_script\"")));
    assert_eq!(out.get("auth_key"), Some(&parse("\"MY_REAL_SECRET\"")));
}

#[test]
fn config_wire_serializes_previously_dropped_modeled_fields() {
    let mut cfg = config("direct");
    cfg.block_quic = false;
    cfg.block_stun = true;
    cfg.disable_padding = true;
    cfg.enable_batching = true;
    cfg.coalesce_step_ms = 25;
    cfg.coalesce_max_ms = 750;
    let out = wire(&cfg);
    assert_eq!(out.get("block_quic"), Some(&Value::Bool(false)));
    assert_eq!(out.get("block_stun"), Some(&Value::Bool(true)));
    assert_eq!(out.get("disable_padding"), Some(&Value::Bool(true)));
    assert_eq!(out.get("enable_batching"), Some(&Value::Bool(true)));
    assert_eq!(out.get("coalesce_step_ms"), Some(&parse("25")));
    assert_eq!(out.get("coalesce_max_ms"), Some(&parse("750")));
}

#[test]
fn config_wire_omits_default_values() {
    let out = wire(&config("direct"));
    assert!(
        out.get("block_quic").is_none(),
        "default block_quic must be omitted"
    );
    assert!(
        out.get("block_stun").is_none(),
        "default block_stun must be omitted"
    );
    assert!(out.get("disable_padding").is_none());
    assert!(out.get("enable_batching").is_none());
    assert!(out.get("coalesce_step_ms").is_none());
    assert!(out.get("coalesce_max_ms").is_none());
    assert!(out.get("log_color_info").is_none());
    assert!(out.get("log_color_warn").is_none());
    assert!(out.get("log_color_error").is_none());
}

#[test]
fn custom_params_buffer_round_trips_all_value_kinds() {
    let mut extras = serde_json::Map::new();
    extras.insert("force_http1".into(), Value::Bool(true));
    extras.insert("max_retries".into(), Value::Number(Number::from(7)));
    extras.insert("label".into(), Value::String("home network".into()));
    extras.insert("ambig_number".into(), Value::String("42".into()));
    extras.insert("ambig_bool".into(), Value::String("true".into()));
    extras.insert("list".into(), parse("[1, 2, 3]"));
    extras.insert("obj".into(), parse("{\"a\": 1, \"b\": \"x\"}"));
    let buf = extras_to_buffer(&extras);
    let round = build_extras_from_buffer(&buf);
    assert_eq!(
        round, extras,
        "round-trip must preserve every value verbatim"
    );
}

#[test]
fn fractions_survive_the_editor() {
    let mut extras = serde_json::Map::new();
    for (k, t) in [("half", "0.5"), ("negative", "-12.25"), ("zero", "-0.0"), ("small", "1.5e-7")] {
        extras.insert(k.into(), parse(t));
    }
    extras.insert("nested".into(), parse("{\"a\": [0.1, 1e21, {\"b\": 2.75}]}"));
    assert_eq!(build_extras_from_buffer(&extras_to_buffer(&extras)), extras);
}

#[test]
fn a_changed_key_leaves_the_other_extras_alone() {
    let mut extras = serde_json::Map::new();
    extras.insert(" padded ".into(), parse("1"));
    extras.insert("plain".into(), parse("[0.5, \"42\"]"));
    let out = build_extras_from_buffer(&extras_to_buffer(&extras));
    assert_eq!(out.get("plain"), extras.get("plain"));
    assert_eq!(out.get("padded"), Some(&parse("1")));
    assert_eq!(out.len(), 2);
}

#[test]
fn padded_strings_keep_their_type_in_the_editor() {
    let mut extras = serde_json::Map::new();
    extras.insert("padded".into(), Value::String("\u{a0}42".into()));
    extras.insert("spaced".into(), Value::String(" true ".into()));
    extras.insert("plain".into(), Value::String("\u{a0}home".into()));
    extras.insert("blank".into(), Value::String(" ".into()));
    let buf = extras_to_buffer(&extras);
    let shown: Vec<&str> = buf.iter().map(|r| r.1.as_str()).collect();
    assert_eq!(shown, [" ", "\"\u{a0}42\"", "\u{a0}home", "\" true \""]);
    assert_eq!(build_extras_from_buffer(&buf), extras);
}

#[test]
fn custom_params_blank_key_rows_dropped() {
    let buf = vec![
        ("".into(), "true".into()),
        ("   ".into(), "ignored".into()),
        ("real_key".into(), "5".into()),
    ];
    let out = build_extras_from_buffer(&buf);
    assert_eq!(out.len(), 1);
    assert_eq!(out.get("real_key"), Some(&parse("5")));
}

#[test]
fn the_last_custom_row_of_a_key_wins() {
    let buf = vec![
        (" k ".into(), "1".into()),
        ("k".into(), "not json".into()),
    ];
    let out = build_extras_from_buffer(&buf);
    assert_eq!(out.len(), 1);
    assert_eq!(out.get("k"), Some(&Value::String("not json".into())));
}

#[test]
fn log_color_fields_emit_only_when_non_default() {
    let mut cfg = config("direct");
    cfg.log_color_info = "#00ff00".into();
    cfg.log_color_warn = "#e0a83a".into();
    cfg.log_color_error = "#ff0000".into();
    let out = wire(&cfg);
    assert_eq!(out.get("log_color_info"), Some(&parse("\"#00ff00\"")));
    assert_eq!(out.get("log_color_error"), Some(&parse("\"#ff0000\"")));
    assert!(out.get("log_color_warn").is_none());
}

#[test]
fn modeled_keys_list_matches_wire() {
    let mut cfg = config("apps_script");
    cfg.google_ip = "1.2.3.4".into();
    cfg.front_domain = "x.example".into();
    cfg.script_id = Some(ScriptId::One("ID".into()));
    cfg.script_ids = Some(ScriptId::Many(texts(&["A", "B"])));
    cfg.auth_key = "K".into();
    cfg.listen_host = "127.0.0.1".into();
    cfg.listen_port = 8085;
    cfg.socks5_port = Some(8086);
    cfg.log_level = "debug".into();
    cfg.log_color_info = "#010203".into();
    cfg.log_color_warn = "#040506".into();
    cfg.log_color_error = "#070809".into();
    cfg.verify_ssl = false;
    cfg.hosts = vec![("h".into(), "1.1.1.1".into())];
    cfg.enable_batching = true;
    cfg.upstream_socks5 = Some("127.0.0.1:1".into());
    cfg.parallel_relay = 2;
    cfg.coalesce_step_ms = 25;
    cfg.coalesce_max_ms = 750;
    cfg.sni_hosts = Some(texts(&["a.example"]));
    cfg.fetch_ips_from_api = true;
    cfg.max_ips_to_scan = 1;
    cfg.scan_batch_size = 1;
    cfg.google_ip_validation = false;
    cfg.normalize_x_graphql = true;
    cfg.youtube_via_relay = true;
    cfg.relay_url_patterns = texts(&["a.example/p"]);
    cfg.sabr_strip = true;
    cfg.passthrough_hosts = texts(&["a.example"]);
    cfg.block_quic = false;
    cfg.block_stun = true;
    cfg.disable_padding = true;
    cfg.force_http1 = true;
    cfg.tunnel_doh = true;
    cfg.bypass_doh_hosts = texts(&["a.example"]);
    cfg.block_doh = false;
    cfg.fronting_groups = vec![FrontingGroup {
        name: "g".into(),
        ip: "1.2.3.4".into(),
        sni: "x.example".into(),
        domains: texts(&["y.example"]),
    }];
    cfg.auto_blacklist_strikes = 10;
    cfg.auto_blacklist_window_secs = 99;
    cfg.auto_blacklist_cooldown_secs = 999;
    cfg.request_timeout_secs = 31;
    cfg.apps_script_lang = "fa".into();
    cfg.exit_node = ExitNodeConfig {
        enabled: true,
        relay_url: "https://a.example".into(),
        psk: "K".into(),
        hosts: texts(&["b.example"]),
        mode: "selective".into(),
    };
    cfg.direct_mode.enabled = true;
    cfg.direct_mode.fronts = texts(&["www.example.com"]);
    let out = wire(&cfg);
    let wire_keys: std::collections::BTreeSet<&str> = out
        .as_object()
        .expect("wire serializes to object")
        .keys()
        .map(|s| s.as_str())
        .collect();
    let modeled: std::collections::BTreeSet<&str> = modeled_config_keys().iter().copied().collect();
    for k in &wire_keys {
        assert!(modeled.contains(k), "wire emits '{}' which is not listed", k);
    }
    for k in &modeled {
        if *k == "script_ids" {
            continue;
        }
        assert!(wire_keys.contains(k), "'{}' is listed but never emitted", k);
    }
}

#[test]
fn modeled_keys_are_recognised_with_whitespace() {
    assert!(is_modeled_config_key("mode"));
    assert!(is_modeled_config_key("  script_ids "));
    assert!(!is_modeled_config_key("my_future_field"));
    assert!(!is_modeled_config_key(""));
}

#[test]
fn defaults_are_recognised() {
    assert!(is_default_strikes(&3) && !is_default_strikes(&10));
    assert!(is_default_window_secs(&30) && !is_default_window_secs(&99));
    assert!(is_default_cooldown_secs(&120) && !is_default_cooldown_secs(&999));
    assert!(is_default_timeout_secs(&30) && !is_default_timeout_secs(&31));
    assert!(is_default_apps_script_lang("en") && !is_default_apps_script_lang("fa"));
    assert!(is_default_exit_node(&ExitNodeConfig::disabled()));
    assert!(is_default_direct_mode(&DirectModeConfig::built_in()));
    assert!(is_default_log_color_info(DEFAULT_LOG_COLOR_INFO));
    assert!(is_default_log_color_warn(DEFAULT_LOG_COLOR_WARN));
    assert!(is_default_log_color_error(DEFAULT_LOG_COLOR_ERROR));
    assert!(!is_default_log_color_info("#000000"));
    assert!(is_false(&false) && !is_false(&true));
    assert!(is_true(&true) && !is_true(&false));
    assert!(is_zero_u8(&0) && !is_zero_u8(&1));
    assert!(is_zero_u16(&0) && !is_zero_u16(&1));
}
