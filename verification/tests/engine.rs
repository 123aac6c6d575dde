use rahgozar::engine::{
    action_line, listening_line, poll_stats, report_switch, shutdown_line, Engine, EngineAction,
    EngineEvent, StatsPoll, SwitchOutcome,
};
use rahgozar::lifecycle::ProxyState;

#[test]
fn a_start_is_carried_out_once() {
    let mut e = Engine::new();
    assert_eq!(e.step(EngineEvent::StartClicked), EngineAction::Nothing);
    assert!(e.proxy_active && !e.running);
    assert!(!e.listeners_editable());
    assert_eq!(e.step(EngineEvent::StartRequested), EngineAction::BuildProxy);
    e.step(EngineEvent::Built);
    e.step(EngineEvent::TaskEntered);
    assert!(e.running && e.live);
    assert_eq!(e.step(EngineEvent::StartRequested), EngineAction::RefuseStart);
    assert_eq!(e.step(EngineEvent::SwitchRequested), EngineAction::SwitchMode);
    assert_eq!(e.step(EngineEvent::StopRequested), EngineAction::ShutDown);
    e.step(EngineEvent::StopCompleted);
    assert_eq!(e, Engine::new());
    assert_eq!(e.step(EngineEvent::StopRequested), EngineAction::Nothing);
    assert_eq!(e.step(EngineEvent::SwitchRequested), EngineAction::IgnoreSwitch);
}

#[test]
fn a_failed_build_clears_the_flags() {
    let mut e = Engine::new();
    e.step(EngineEvent::StartClicked);
    e.step(EngineEvent::StartRequested);
    e.step(EngineEvent::BuildFailed);
    assert_eq!(e, Engine::new());
}

#[test]
fn a_proxy_that_ended_can_be_started_again() {
    let mut e = Engine::new();
    e.step(EngineEvent::StartRequested);
    e.step(EngineEvent::Built);
    e.step(EngineEvent::TaskEntered);
    e.step(EngineEvent::TaskEnded);
    assert!(!e.running && !e.proxy_active && e.live);
    assert_eq!(e.step(EngineEvent::StartRequested), EngineAction::RefuseStart);
    e.step(EngineEvent::TaskReaped);
    assert_eq!(e.step(EngineEvent::StartRequested), EngineAction::BuildProxy);
}

#[test]
fn certificate_operations_do_not_overlap() {
    let mut e = Engine::new();
    assert!(e.install_ca_enabled() && e.remove_ca_enabled());
    assert_eq!(e.step(EngineEvent::InstallCaRequested), EngineAction::InstallCa);
    assert_eq!(e.step(EngineEvent::InstallCaRequested), EngineAction::RefuseInstallCa);
    assert_eq!(e.step(EngineEvent::RemoveCaRequested), EngineAction::RefuseRemoveCa);
    assert!(!e.install_ca_enabled() && !e.remove_ca_enabled());
    e.step(EngineEvent::CertOpEnded);
    assert_eq!(e.step(EngineEvent::RemoveCaRequested), EngineAction::RemoveCa);
    e.step(EngineEvent::CertOpEnded);
    e.step(EngineEvent::StartRequested);
    e.step(EngineEvent::Built);
    assert_eq!(
        e.step(EngineEvent::RemoveCaRequested),
        EngineAction::RefuseRemoveWhileLive
    );
}

#[test]
fn actions_are_logged() {
    assert_eq!(action_line(EngineAction::Nothing), None);
    assert_eq!(
        action_line(EngineAction::RefuseStart),
        Some("[ui] already running".to_string())
    );
    assert_eq!(
        listening_line("h", 8085, None),
        "[ui] listening HTTP h:8085 SOCKS5 h:8086"
    );
    assert_eq!(
        listening_line("h", 1, Some(9)),
        "[ui] listening HTTP h:1 SOCKS5 h:9"
    );
    assert_eq!(shutdown_line(true), "[ui] proxy stopped gracefully");
    assert_eq!(shutdown_line(false), "[ui] shutdown timeout, forced abort");
}

#[test]
fn mode_switches_are_reported() {
    let pending = || Some(("full".to_string(), "m".to_string()));
    let r = report_switch("direct", SwitchOutcome::Switched, pending());
    assert_eq!(r.line, "[ui] mode switched live to 'direct'");
    assert_eq!(r.revert, None, "a success discards what an earlier failure left");
    let r = report_switch("direct", SwitchOutcome::ShuttingDown, pending());
    assert_eq!(r.revert, pending());
    let r = report_switch(
        "full",
        SwitchOutcome::Failed {
            error: "no id".into(),
            live_mode: "direct".into(),
        },
        None,
    );
    assert_eq!(r.line, "[ui] Live mode switch failed: no id");
    assert_eq!(
        r.revert,
        Some(("direct".to_string(), "Live mode switch failed: no id".to_string()))
    );
}

#[test]
fn counters_of_another_mode_are_cleared() {
    assert!(matches!(poll_stats(false, true), StatsPoll::Keep));
    assert!(matches!(poll_stats(true, true), StatsPoll::Read));
    assert!(matches!(poll_stats(true, false), StatsPoll::Clear));
}

#[test]
fn the_desktop_proxy_lives() {
    let mut p = ProxyState::new();
    assert!(p.check_start().is_ok());
    assert!(p.stop_proxy().is_none());
    let e = p.started(1_000);
    assert!(e.running);
    assert_eq!(p.check_start().unwrap_err(), "Proxy is already running");
    let d = p.get_status(63_500);
    assert!(d.running);
    assert_eq!(d.uptime_secs, Some(62));
    assert_eq!(p.get_status(500).uptime_secs, Some(0));
    let effect = p.stop_proxy().expect("a running proxy is stopped");
    assert!(effect.signal && !effect.event.running);
    assert!(p.stop_proxy().is_none());
    assert_eq!(p.get_status(70_000).uptime_secs, None);
    p.started(0);
    let e = p.exited(Err("boom".into()));
    assert_eq!(e.last_error, Some("boom".to_string()));
    assert!(!p.running && !p.has_stats);
    assert_eq!(p.get_status(0).last_error, Some("boom".to_string()));
    p.exited(Ok(()));
    assert!(p.stop_proxy().is_none());
    assert_eq!(p.get_status(0).last_error, Some("boom".to_string()));
    p.started(1);
    assert_eq!(p.last_error, None);
}
