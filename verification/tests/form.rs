use rahgozar::config::{modeled_config_keys, FrontingGroup, ScriptId};
use rahgozar::form::{count_ids, is_direct_mode, load_form, FormState, LoadAttempt};
use rahgozar::wire::ConfigWire;

fn relay_form() -> FormState {
    let mut form = FormState::fresh_install_defaults();
    form.script_id = "ID".into();
    form.auth_key = "K".into();
    form
}

fn complaint(form: &FormState) -> String {
    form.to_config().err().expect("the form is refused")
}

#[test]
fn custom_params_rejects_modeled_key_collisions() {
    let mut form = FormState::fresh_install_defaults();
    form.mode = "direct".into();
    form.custom_params_buffer = vec![("my_future_field".into(), "true".into())];
    form.to_config().expect("non-colliding key must save");
    for key in modeled_config_keys() {
        form.custom_params_buffer = vec![(key.into(), "anything".into())];
        let err = form
            .to_config()
            .err()
            .unwrap_or_else(|| panic!("expected save to fail for modeled key '{}'", key));
        assert!(
            err.contains(key),
            "error must name the colliding key '{}', got: {}",
            key,
            err,
        );
    }
    form.custom_params_buffer = vec![("  mode  ".into(), "x".into())];
    assert!(form.to_config().is_err());
}

#[test]
fn the_first_complaint_is_told() {
    let mut form = FormState::fresh_install_defaults();
    assert_eq!(complaint(&form), "Apps Script ID is required");
    form.script_id = "ID".into();
    form.auth_key = "  ".into();
    assert_eq!(complaint(&form), "Auth key is required");
    form.auth_key = "K".into();
    form.listen_port = " 8085".into();
    assert_eq!(complaint(&form), "HTTP port must be a number");
    form.listen_port = "8085".into();
    form.socks5_port = "70000".into();
    assert_eq!(complaint(&form), "SOCKS5 port must be a number");
    form.socks5_port = "+8085".into();
    assert_eq!(complaint(&form), "HTTP and SOCKS5 ports must be different");
    form.socks5_port = "  ".into();
    assert_eq!(form.to_config().unwrap().socks5_port, None);
}

#[test]
fn the_collision_message_names_the_trimmed_key() {
    let mut form = relay_form();
    form.custom_params_buffer = vec![
        ("fine".into(), "1".into()),
        (" auth_key ".into(), "x".into()),
    ];
    assert_eq!(
        complaint(&form),
        "Custom parameter 'auth_key' collides with a built-in field. Remove the custom row or \
         rename it \u{2014} the form above already controls this value."
    );
}

#[test]
fn ids_are_collapsed() {
    let mut form = relay_form();
    form.script_id = " a \n\n b, c ,".into();
    match form.to_config().unwrap().script_id {
        Some(ScriptId::Many(v)) => assert_eq!(v, vec!["a", "b", "c"]),
        other => panic!("{other:?}"),
    }
    form.script_id = "one\n".into();
    match form.to_config().unwrap().script_id {
        Some(ScriptId::One(v)) => assert_eq!(v, "one"),
        other => panic!("{other:?}"),
    }
    form.mode = "direct".into();
    form.script_id = " , ".into();
    assert!(form.to_config().unwrap().script_id.is_none());
    assert_eq!(count_ids("a,b\nc"), 3);
    assert_eq!(count_ids(" "), 0);
}

#[test]
fn texts_are_trimmed_and_blanks_dropped() {
    let mut form = relay_form();
    form.google_ip = " 1.2.3.4 ".into();
    form.upstream_socks5 = "   ".into();
    form.log_color_info = "RED".into();
    let c = form.to_config().unwrap();
    assert_eq!(c.google_ip, "1.2.3.4");
    assert_eq!(c.upstream_socks5, None);
    assert_eq!(c.log_color_info, "#5ab464");
    form.upstream_socks5 = " h:1 ".into();
    assert_eq!(form.to_config().unwrap().upstream_socks5, Some("h:1".to_string()));
    form.heal_log_colors();
    assert_eq!(form.log_color_info, "#5ab464");
}

#[test]
fn an_untouched_form_saves_back() {
    let mut form = relay_form();
    form.script_id = "a\nb".into();
    form.parallel_relay = 4;
    form.hosts_passthrough = vec![("h".into(), "1.1.1.1".into())];
    form.fronting_groups = vec![FrontingGroup {
        name: "g".into(),
        ip: "1.1.1.1".into(),
        sni: "s".into(),
        domains: vec!["x.test".into(), "y.test".into()],
    }];
    form.custom_params_buffer = vec![("future".into(), "[1,2]".into())];
    let c = form.to_config().unwrap();
    let again = FormState::from_config(&c);
    assert_eq!(again.script_id, "a\nb");
    assert_eq!(again.listen_port, "8085");
    assert_eq!(again.domain_buffers, vec!["x.test\ny.test"]);
    assert!(!again.show_auth_key && again.show_log);
    let d = again.to_config().unwrap();
    assert_eq!(ConfigWire::from(&c).into_value(), ConfigWire::from(&d).into_value());
}

#[test]
fn an_old_mode_name_is_brought_up_to_date() {
    let mut form = FormState::fresh_install_defaults();
    form.mode = "google_only".into();
    assert!(is_direct_mode("google_only") && is_direct_mode("direct") && !is_direct_mode("full"));
    let c = form.to_config().unwrap();
    assert_eq!(c.mode, "google_only");
    assert_eq!(FormState::from_config(&c).mode, "direct");
}

#[test]
fn loading_falls_back_to_a_fresh_install() {
    let (form, warning) = load_form(&None);
    assert_eq!(form.listen_port, "8085");
    assert_eq!(form.socks5_port, "8086");
    assert_eq!(form.google_ip, "216.239.38.120");
    assert_eq!(warning, None);
    let (form, warning) = load_form(&Some(LoadAttempt {
        path: "/x".into(),
        outcome: Err("bad".into()),
    }));
    assert_eq!(form.mode, "apps_script");
    assert_eq!(warning, Some("Config at /x failed to load: bad".to_string()));
    let (form, warning) = load_form(&Some(LoadAttempt {
        path: "/x".into(),
        outcome: relay_form().to_config(),
    }));
    assert_eq!(form.auth_key, "K");
    assert_eq!(warning, None);
}
