use rahgozar::notices::{Notices, StatusLine, TestedMode, TRANSIENT_TTL_MS};

#[test]
fn nothing_happened_yet() {
    assert_eq!(Notices::new().status_line(5), StatusLine::Blank);
}

#[test]
fn a_test_is_shown_for_a_while() {
    let mut n = Notices::new();
    assert_eq!(n.test_finished(true, 100), "[ui] test result: pass");
    assert_eq!(n.last_test_msg, "Test passed \u{2014} relay is working.");
    assert_eq!(n.status_line(100), StatusLine::Test { passed: true });
    assert_eq!(n.status_line(99 + TRANSIENT_TTL_MS), StatusLine::Test { passed: true });
    assert_eq!(n.status_line(100 + TRANSIENT_TTL_MS), StatusLine::Blank);
    assert_eq!(n.test_finished(false, 200), "[ui] test result: fail");
    assert_eq!(n.status_line(200), StatusLine::Test { passed: false });
}

#[test]
fn modes_without_a_relay_are_explained() {
    let mut n = Notices::new();
    assert_eq!(n.test_requested(TestedMode::Relay, 1), None);
    let line = n.test_requested(TestedMode::Full, 1).unwrap();
    assert!(line.starts_with("[ui] test skipped: Test Relay is wired only for apps_script mode."));
    assert!(n.last_test_msg.contains("In full mode the data plane is the tunnel-node"));
    assert_eq!(n.last_test_ok, None);
    let line = n.test_requested(TestedMode::Direct, 1).unwrap();
    assert!(line.contains("In direct mode there is no Apps Script relay"));
}

#[test]
fn the_line_shows_the_most_pressing_result() {
    let mut n = Notices::new();
    n.ca_checked(true, true, 0);
    assert_eq!(n.status_line(0), StatusLine::CaTrusted);
    n.download_finished("f", "/d/f".into(), Ok(3), 0);
    assert_eq!(n.status_line(0), StatusLine::Downloaded);
    n.install_finished(Ok("/s".into()), 0);
    assert_eq!(n.status_line(0), StatusLine::Staged);
    n.test_finished(true, 0);
    assert_eq!(n.status_line(0), StatusLine::Test { passed: true });
    n.update_checked("up to date".into(), 0);
    assert_eq!(n.status_line(0), StatusLine::UpdateChecked);
    n.update_check_started(0);
    assert_eq!(n.status_line(0), StatusLine::Checking);
    assert_eq!(n.status_line(1_000_000), StatusLine::Checking);
}

#[test]
fn a_staged_update_stays() {
    let mut n = Notices::new();
    let (go, line) = n.install_requested("rahgozar.zip", 0);
    assert!(go);
    assert_eq!(line, "[ui] installing rahgozar.zip");
    assert_eq!(n.status_line(1_000_000), StatusLine::Installing);
    let (go, line) = n.install_requested("again", 0);
    assert!(!go);
    assert_eq!(line, "[ui] install already in progress; ignoring duplicate request");
    assert_eq!(
        n.install_finished(Ok("/s".into()), 0),
        "[ui] update staged \u{2192} /s (restart to apply)"
    );
    assert_eq!(n.status_line(1_000_000), StatusLine::Staged);
    assert_eq!(
        n.restart_requested(),
        (Some("/s".to_string()), "[ui] restarting to apply update".to_string())
    );
    assert_eq!(n.restart_failed("x", 0), "[ui] restart failed: x");
    assert_eq!(n.status_line(0), StatusLine::InstallFailed);
    assert_eq!(n.status_line(TRANSIENT_TTL_MS), StatusLine::Blank);
    assert_eq!(n.restart_requested().0, None);
}

#[test]
fn downloads_are_followed() {
    let mut n = Notices::new();
    assert_eq!(n.download_started("f"), "[ui] downloading f");
    assert!(n.download_in_progress);
    assert_eq!(
        n.download_finished("f", "/d/f".into(), Ok(12), 5),
        "[ui] download ok: f (12 bytes) -> /d/f"
    );
    assert!(!n.download_in_progress);
    n.download_started("g");
    assert_eq!(n.status_line(5), StatusLine::Downloading);
    assert_eq!(
        n.download_finished("g", "/d/g".into(), Err("net".into()), 5),
        "[ui] download failed: net"
    );
    assert_eq!(n.status_line(5), StatusLine::DownloadFailed);
}

#[test]
fn certificate_operations_are_followed() {
    let mut n = Notices::new();
    let (line, hint) = n.ca_installed(Ok(()), 0);
    assert_eq!(line, "[ui] CA install ok");
    assert_eq!(hint, None);
    assert_eq!(n.ca_trusted, Some(true));
    let (line, hint) = n.ca_installed(Err("CA init failed: x".into()), 0);
    assert_eq!(line, "[ui] CA init failed: x");
    assert!(hint.unwrap().ends_with("rahgozar --install-cert"));
    assert_eq!(n.ca_trusted, Some(true));
    let (line, _) = n.ca_removed(Ok("OS CA removed".into()), 0);
    assert_eq!(line, "[ui] OS CA removed");
    assert_eq!(n.status_line(0), StatusLine::CaNotTrusted);
    let (line, hint) = n.ca_removed(Err("x".into()), 0);
    assert_eq!(line, "[ui] CA remove failed: x");
    assert!(hint.ends_with("rahgozar --remove-cert"));
    assert_eq!(
        n.ca_checked(false, true, 0),
        "[ui] check CA: file=missing trust_store=trusted"
    );
}

#[test]
fn the_line_says_what_happened() {
    let mut n = Notices::new();
    assert_eq!(n.line_text(n.status_line(0)), " ");
    n.ca_checked(true, false, 0);
    assert_eq!(
        n.line_text(n.status_line(0)),
        "CA is NOT trusted in the system store. Click Install CA."
    );
    n.download_finished("f", "/d/f".into(), Ok(3), 0);
    assert_eq!(n.line_text(n.status_line(0)), "Downloaded \u{2192} /d/f");
    n.install_finished(Err("bad hash".into()), 0);
    assert_eq!(n.line_text(n.status_line(0)), "Install failed: bad hash");
    n.test_finished(true, 0);
    assert_eq!(n.line_text(n.status_line(0)), "Test passed \u{2014} relay is working.");
    n.update_check_started(0);
    assert_eq!(n.line_text(n.status_line(0)), "Checking for updates\u{2026}");
    n.update_checked("Up to date".into(), 0);
    assert_eq!(n.line_text(n.status_line(0)), "Up to date");
}
