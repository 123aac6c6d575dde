//! The results of the window's one-off actions, and the one status line that
//! shows the most pressing of them for a while.
//!
//! Times are in milliseconds of a clock that does not run backwards.
use vstd::prelude::*;

use crate::numeral;
use crate::text;

verus! {

/// How long a result stays on the status line.
pub const TRANSIENT_TTL_MS: u64 = 10_000;

/// An update check: under way, or done with a summary.
pub enum UpdateProbeState {
    InFlight,
    Done { summary: String },
}

/// The results so far, each with the time at which it came.
pub struct Notices {
    pub ca_trusted: Option<bool>,
    pub ca_trusted_at: Option<u64>,
    pub last_test_ok: Option<bool>,
    pub last_test_msg: String,
    pub last_test_msg_at: Option<u64>,
    pub last_update_check: Option<UpdateProbeState>,
    pub last_update_check_at: Option<u64>,
    pub download_in_progress: bool,
    /// Where the download went, or why it failed.
    pub last_download: Option<Result<String, String>>,
    pub last_download_at: Option<u64>,
    pub install_in_progress: bool,
    /// Where the update was staged, or why it was not.
    pub last_install: Option<Result<String, String>>,
    pub last_install_at: Option<u64>,
}

/// The status line.
#[derive(Debug, Clone, Copy, PartialEq, Eq, Structural)]
pub enum StatusLine {
    /// An update check is under way.
    Checking,
    /// The outcome of the update check.
    UpdateChecked,
    /// The message of the relay test, good or bad.
    Test { passed: bool },
    Installing,
    /// An update is staged; a restart applies it.
    Staged,
    InstallFailed,
    Downloaded,
    DownloadFailed,
    Downloading,
    CaTrusted,
    CaNotTrusted,
    /// A result is due whose content is not known: the line is left out.
    Omitted,
    /// Nothing to show: a blank line holds the place.
    Blank,
}

/// A result that came at `at` is still shown at `now`.
pub open spec fn fresh(at: Option<u64>, now: u64) -> bool {
    match at {
        Some(t) => now < t + TRANSIENT_TTL_MS,
        None => false,
    }
}

fn is_fresh(at: Option<u64>, now: u64) -> (r: bool)
    ensures
        r == fresh(at, now),
{
    match at {
        Some(t) => now < t || now - t < TRANSIENT_TTL_MS,
        None => false,
    }
}

/// An installation is shown: while it is under way, for as long as an update is
/// staged, and for a while after a failure.
pub open spec fn install_shown(n: Notices, now: u64) -> bool {
    n.install_in_progress || (n.last_install matches Some(r) && r is Ok) || fresh(
        n.last_install_at,
        now,
    )
}

/// What the status line shows. An update check under way comes first, then its
/// outcome, then a test, an installation, a download, and the state of the
/// certificate authority.
pub open spec fn line(n: Notices, now: u64) -> StatusLine {
    if n.last_update_check matches Some(u) && u is InFlight {
        StatusLine::Checking
    } else if fresh(n.last_update_check_at, now) {
        if n.last_update_check is Some {
            StatusLine::UpdateChecked
        } else {
            StatusLine::Blank
        }
    } else if fresh(n.last_test_msg_at, now) && n.last_test_msg@.len() > 0 {
        StatusLine::Test { passed: text::begins_with(n.last_test_msg@, "Test passed"@) }
    } else if install_shown(n, now) {
        if n.install_in_progress {
            StatusLine::Installing
        } else {
            match n.last_install {
                Some(Ok(_)) => StatusLine::Staged,
                Some(Err(_)) => StatusLine::InstallFailed,
                None => StatusLine::Omitted,
            }
        }
    } else if fresh(n.last_download_at, now) {
        match n.last_download {
            Some(Ok(_)) => StatusLine::Downloaded,
            Some(Err(_)) => StatusLine::DownloadFailed,
            None => StatusLine::Downloading,
        }
    } else if fresh(n.ca_trusted_at, now) {
        match n.ca_trusted {
            Some(true) => StatusLine::CaTrusted,
            Some(false) => StatusLine::CaNotTrusted,
            None => StatusLine::Omitted,
        }
    } else {
        StatusLine::Blank
    }
}

/// The text of the line, given the results; a space where the results do not
/// have what the line shows.
pub open spec fn says(n: Notices, line: StatusLine, text: Seq<char>) -> bool {
    match line {
        StatusLine::Checking => text == "Checking for updates\u{2026}"@,
        StatusLine::UpdateChecked => match n.last_update_check {
            Some(UpdateProbeState::Done { summary }) => text == summary@,
            _ => text == " "@,
        },
        StatusLine::Test { .. } => text == n.last_test_msg@,
        StatusLine::Installing => text == "Installing update\u{2026} (downloading + verifying)"@,
        StatusLine::Staged => match n.last_install {
            Some(Ok(path)) => text == "Update staged \u{2192} "@ + path@,
            _ => text == " "@,
        },
        StatusLine::InstallFailed => match n.last_install {
            Some(Err(e)) => text == "Install failed: "@ + e@,
            _ => text == " "@,
        },
        StatusLine::Downloaded => match n.last_download {
            Some(Ok(path)) => text == "Downloaded \u{2192} "@ + path@,
            _ => text == " "@,
        },
        StatusLine::DownloadFailed => match n.last_download {
            Some(Err(e)) => text == "Download failed: "@ + e@,
            _ => text == " "@,
        },
        StatusLine::Downloading => text == "Downloading\u{2026}"@,
        StatusLine::CaTrusted => text == "CA appears trusted on this machine."@,
        StatusLine::CaNotTrusted => text
            == "CA is NOT trusted in the system store. Click Install CA."@,
        StatusLine::Omitted => text.len() == 0,
        StatusLine::Blank => text == " "@,
    }
}

/// What the relay test makes of a mode.
#[derive(Debug, Clone, Copy, PartialEq, Eq, Structural)]
pub enum TestedMode {
    Full,
    Direct,
    /// The relay's own mode, or one that is not known.
    Relay,
}

/// Why a mode is not tested.
pub open spec fn test_explainer(m: TestedMode) -> Option<Seq<char>> {
    match m {
        TestedMode::Full => Some(
            "Test Relay is wired only for apps_script mode. In full mode the data plane is the tunnel-node \u{2014} to verify it end-to-end, start the proxy and load https://whatismyipaddress.com in your browser via 127.0.0.1:8085. The IP shown should be your tunnel-node's VPS IP. Tracking a real Full-mode test in #160."@,
        ),
        TestedMode::Direct => Some(
            "Test Relay is wired only for apps_script mode. In direct mode there is no Apps Script relay \u{2014} every request goes through the SNI-rewrite tunnel straight to Google's edge. Verify by loading https://www.google.com via the proxy."@,
        ),
        TestedMode::Relay => None,
    }
}

/// The message of a finished test.
pub open spec fn test_text(ok: bool) -> Seq<char> {
    if ok {
        "Test passed \u{2014} relay is working."@
    } else {
        "Test failed \u{2014} see Recent log below for details."@
    }
}

impl Notices {
    /// No results yet.
    pub fn new() -> (n: Notices)
        ensures
            n.ca_trusted is None,
            n.ca_trusted_at is None,
            n.last_test_ok is None,
            n.last_test_msg@.len() == 0,
            n.last_test_msg_at is None,
            n.last_update_check is None,
            n.last_update_check_at is None,
            !n.download_in_progress,
            n.last_download is None,
            n.last_download_at is None,
            !n.install_in_progress,
            n.last_install is None,
            n.last_install_at is None,
    {
        Notices {
            ca_trusted: None,
            ca_trusted_at: None,
            last_test_ok: None,
            last_test_msg: String::new(),
            last_test_msg_at: None,
            last_update_check: None,
            last_update_check_at: None,
            download_in_progress: false,
            last_download: None,
            last_download_at: None,
            install_in_progress: false,
            last_install: None,
            last_install_at: None,
        }
    }

    /// The status line at `now`.
    pub fn status_line(&self, now: u64) -> (r: StatusLine)
        ensures
            r == line(*self, now),
    {
        if let Some(UpdateProbeState::InFlight) = &self.last_update_check {
            return StatusLine::Checking;
        }
        if is_fresh(self.last_update_check_at, now) {
            return if self.last_update_check.is_some() {
                StatusLine::UpdateChecked
            } else {
                StatusLine::Blank
            };
        }
        if is_fresh(self.last_test_msg_at, now) && !self.last_test_msg.as_str().is_empty() {
            return StatusLine::Test {
                passed: text::starts_with(self.last_test_msg.as_str(), "Test passed"),
            };
        }
        let staged = match &self.last_install {
            Some(Ok(_)) => true,
            _ => false,
        };
        if self.install_in_progress || staged || is_fresh(self.last_install_at, now) {
            return if self.install_in_progress {
                StatusLine::Installing
            } else {
                match &self.last_install {
                    Some(Ok(_)) => StatusLine::Staged,
                    Some(Err(_)) => StatusLine::InstallFailed,
                    None => StatusLine::Omitted,
                }
            };
        }
        if is_fresh(self.last_download_at, now) {
            return match &self.last_download {
                Some(Ok(_)) => StatusLine::Downloaded,
                Some(Err(_)) => StatusLine::DownloadFailed,
                None => StatusLine::Downloading,
            };
        }
        if is_fresh(self.ca_trusted_at, now) {
            return match self.ca_trusted {
                Some(true) => StatusLine::CaTrusted,
                Some(false) => StatusLine::CaNotTrusted,
                None => StatusLine::Omitted,
            };
        }
        StatusLine::Blank
    }

    /// What the status line says.
    pub fn line_text(&self, line: StatusLine) -> (r: String)
        ensures
            says(*self, line, r@),
    {
        match line {
            StatusLine::Checking => "Checking for updates\u{2026}".to_owned(),
            StatusLine::UpdateChecked => match &self.last_update_check {
                Some(UpdateProbeState::Done { summary }) => summary.clone(),
                _ => " ".to_owned(),
            },
            StatusLine::Test { .. } => self.last_test_msg.clone(),
            StatusLine::Installing => "Installing update\u{2026} (downloading + verifying)".to_owned(),
            StatusLine::Staged => match &self.last_install {
                Some(Ok(path)) => "Update staged \u{2192} ".to_owned().concat(path.as_str()),
                _ => " ".to_owned(),
            },
            StatusLine::InstallFailed => match &self.last_install {
                Some(Err(e)) => "Install failed: ".to_owned().concat(e.as_str()),
                _ => " ".to_owned(),
            },
            StatusLine::Downloaded => match &self.last_download {
                Some(Ok(path)) => "Downloaded \u{2192} ".to_owned().concat(path.as_str()),
                _ => " ".to_owned(),
            },
            StatusLine::DownloadFailed => match &self.last_download {
                Some(Err(e)) => "Download failed: ".to_owned().concat(e.as_str()),
                _ => " ".to_owned(),
            },
            StatusLine::Downloading => "Downloading\u{2026}".to_owned(),
            StatusLine::CaTrusted => "CA appears trusted on this machine.".to_owned(),
            StatusLine::CaNotTrusted => "CA is NOT trusted in the system store. Click Install CA.".to_owned(),
            StatusLine::Omitted => String::new(),
            StatusLine::Blank => " ".to_owned(),
        }
    }

    /// A test was asked for. In a mode that has no relay test the explanation is
    /// recorded instead; the result is the log line of the skipped test.
    pub fn test_requested(&mut self, mode: TestedMode, now: u64) -> (r: Option<String>)
        ensures
            match test_explainer(mode) {
                None => *final(self) == *old(self) && r is None,
                Some(why) => {
                    &&& *final(self) == (Notices {
                        last_test_ok: None,
                        last_test_msg: final(self).last_test_msg,
                        last_test_msg_at: Some(now),
                        ..*old(self)
                    })
                    &&& final(self).last_test_msg@ == why
                    &&& r matches Some(line) && line@ == "[ui] test skipped: "@ + why
                },
            },
    {
        let why = match mode {
            TestedMode::Relay => return None,
            TestedMode::Full => "Test Relay is wired only for apps_script mode. In full mode the data plane is the tunnel-node \u{2014} to verify it end-to-end, start the proxy and load https://whatismyipaddress.com in your browser via 127.0.0.1:8085. The IP shown should be your tunnel-node's VPS IP. Tracking a real Full-mode test in #160.",
            TestedMode::Direct => "Test Relay is wired only for apps_script mode. In direct mode there is no Apps Script relay \u{2014} every request goes through the SNI-rewrite tunnel straight to Google's edge. Verify by loading https://www.google.com via the proxy.",
        };
        self.last_test_ok = None;
        self.last_test_msg = why.to_owned();
        self.last_test_msg_at = Some(now);
        Some("[ui] test skipped: ".to_owned().concat(why))
    }

    /// A test finished. The result is its log line.
    pub fn test_finished(&mut self, ok: bool, now: u64) -> (r: String)
        ensures
            *final(self) == (Notices {
                last_test_ok: Some(ok),
                last_test_msg: final(self).last_test_msg,
                last_test_msg_at: Some(now),
                ..*old(self)
            }),
            final(self).last_test_msg@ == test_text(ok),
            r@ == "[ui] test result: "@ + (if ok {
                "pass"@
            } else {
                "fail"@
            }),
    {
        self.last_test_ok = Some(ok);
        self.last_test_msg = if ok {
            "Test passed \u{2014} relay is working.".to_owned()
        } else {
            "Test failed \u{2014} see Recent log below for details.".to_owned()
        };
        self.last_test_msg_at = Some(now);
        "[ui] test result: ".to_owned().concat(
            if ok {
                "pass"
            } else {
                "fail"
            },
        )
    }

    /// The certificate authority was installed, or was not. The result is the
    /// log lines; a failure comes with a hint.
    pub fn ca_installed(&mut self, outcome: Result<(), String>, now: u64) -> (r: (String, Option<String>))
        ensures
            match outcome {
                Ok(_) => {
                    &&& *final(self) == (Notices {
                        ca_trusted: Some(true),
                        ca_trusted_at: Some(now),
                        ..*old(self)
                    })
                    &&& r.0@ == "[ui] CA install ok"@
                    &&& r.1 is None
                },
                Err(e) => {
                    &&& *final(self) == *old(self)
                    &&& r.0@ == "[ui] "@ + e@
                    &&& r.1 matches Some(hint) && hint@
                        == "[ui] hint: run the terminal binary with sudo/admin: rahgozar --install-cert"@
                },
            },
    {
        match outcome {
            Ok(_) => {
                self.ca_trusted = Some(true);
                self.ca_trusted_at = Some(now);
                ("[ui] CA install ok".to_owned(), None)
            },
            Err(e) => (
                "[ui] ".to_owned().concat(e.as_str()),
                Some(
                    "[ui] hint: run the terminal binary with sudo/admin: rahgozar --install-cert".to_owned(),
                ),
            ),
        }
    }

    /// The certificate authority was removed, with a summary, or was not. The
    /// result is the two log lines.
    pub fn ca_removed(&mut self, outcome: Result<String, String>, now: u64) -> (r: (String, String))
        ensures
            match outcome {
                Ok(summary) => {
                    &&& *final(self) == (Notices {
                        ca_trusted: Some(false),
                        ca_trusted_at: Some(now),
                        ..*old(self)
                    })
                    &&& r.0@ == "[ui] "@ + summary@
                    &&& r.1@ == "[ui] config.json and Apps Script deployment untouched"@
                },
                Err(e) => {
                    &&& *final(self) == *old(self)
                    &&& r.0@ == "[ui] CA remove failed: "@ + e@
                    &&& r.1@
                        == "[ui] hint: run the terminal binary with sudo/admin: rahgozar --remove-cert"@
                },
            },
    {
        match outcome {
            Ok(summary) => {
                self.ca_trusted = Some(false);
                self.ca_trusted_at = Some(now);
                (
                    "[ui] ".to_owned().concat(summary.as_str()),
                    "[ui] config.json and Apps Script deployment untouched".to_owned(),
                )
            },
            Err(e) => (
                "[ui] CA remove failed: ".to_owned().concat(e.as_str()),
                "[ui] hint: run the terminal binary with sudo/admin: rahgozar --remove-cert".to_owned(),
            ),
        }
    }

    /// The trust store was looked up. The file and the store are reported
    /// separately: they may differ.
    pub fn ca_checked(&mut self, file_exists: bool, trusted: bool, now: u64) -> (r: String)
        ensures
            *final(self) == (Notices {
                ca_trusted: Some(trusted),
                ca_trusted_at: Some(now),
                ..*old(self)
            }),
            r@ == "[ui] check CA: file="@ + (if file_exists {
                "present"@
            } else {
                "missing"@
            }) + " trust_store="@ + (if trusted {
                "trusted"@
            } else {
                "not trusted"@
            }),
    {
        self.ca_trusted = Some(trusted);
        self.ca_trusted_at = Some(now);
        let file: &str = if file_exists {
            "present"
        } else {
            "missing"
        };
        let store: &str = if trusted {
            "trusted"
        } else {
            "not trusted"
        };
        "[ui] check CA: file=".to_owned().concat(file).concat(" trust_store=").concat(store)
    }

    /// An update check began.
    pub fn update_check_started(&mut self, now: u64)
        ensures
            *final(self) == (Notices {
                last_update_check: Some(UpdateProbeState::InFlight),
                last_update_check_at: Some(now),
                ..*old(self)
            }),
    {
        self.last_update_check = Some(UpdateProbeState::InFlight);
        self.last_update_check_at = Some(now);
    }

    /// An update check ended. The result is its log line.
    pub fn update_checked(&mut self, summary: String, now: u64) -> (r: String)
        ensures
            *final(self) == (Notices {
                last_update_check: Some((UpdateProbeState::Done { summary })),
                last_update_check_at: Some(now),
                ..*old(self)
            }),
            r@ == "[ui] update check: "@ + summary@,
    {
        let line = "[ui] update check: ".to_owned().concat(summary.as_str());
        self.last_update_check = Some(UpdateProbeState::Done { summary });
        self.last_update_check_at = Some(now);
        line
    }

    /// A download began. The result is its log line.
    pub fn download_started(&mut self, name: &str) -> (r: String)
        ensures
            *final(self) == (Notices {
                download_in_progress: true,
                last_download: None,
                ..*old(self)
            }),
            r@ == "[ui] downloading "@ + name@,
    {
        self.download_in_progress = true;
        self.last_download = None;
        "[ui] downloading ".to_owned().concat(name)
    }

    /// A download to `path` ended, with the number of bytes or an error. The
    /// result is its log line.
    pub fn download_finished(
        &mut self,
        name: &str,
        path: String,
        outcome: Result<u64, String>,
        now: u64,
    ) -> (r: String)
        ensures
            *final(self) == (Notices {
                download_in_progress: false,
                last_download: Some(
                    match outcome {
                        Ok(_) => Ok::<String, String>(path),
                        Err(e) => Err::<String, String>(e),
                    },
                ),
                last_download_at: Some(now),
                ..*old(self)
            }),
            r@ == (match outcome {
                Ok(bytes) => "[ui] download ok: "@ + name@ + " ("@ + numeral::decimal(bytes as nat)
                    + " bytes) -> "@ + path@,
                Err(e) => "[ui] download failed: "@ + e@,
            }),
    {
        self.download_in_progress = false;
        self.last_download_at = Some(now);
        match outcome {
            Ok(bytes) => {
                let count = numeral::to_decimal(bytes);
                let line = "[ui] download ok: ".to_owned().concat(name).concat(" (").concat(
                    count.as_str(),
                ).concat(" bytes) -> ").concat(path.as_str());
                self.last_download = Some(Ok(path));
                line
            },
            Err(e) => {
                let line = "[ui] download failed: ".to_owned().concat(e.as_str());
                self.last_download = Some(Err(e));
                line
            },
        }
    }

    /// Staging of an update is asked for. While one is under way a second is
    /// refused. The result is the log line, and whether to go on.
    pub fn install_requested(&mut self, name: &str, now: u64) -> (r: (bool, String))
        ensures
            r.0 == !old(self).install_in_progress,
            if old(self).install_in_progress {
                *final(self) == *old(self) && r.1@
                    == "[ui] install already in progress; ignoring duplicate request"@
            } else {
                *final(self) == (Notices {
                    install_in_progress: true,
                    last_install: None,
                    last_install_at: Some(now),
                    ..*old(self)
                }) && r.1@ == "[ui] installing "@ + name@
            },
    {
        if self.install_in_progress {
            return (
                false,
                "[ui] install already in progress; ignoring duplicate request".to_owned(),
            );
        }
        self.install_in_progress = true;
        self.last_install = None;
        self.last_install_at = Some(now);
        (true, "[ui] installing ".to_owned().concat(name))
    }

    /// Staging ended, with the staged file's path or an error. The result is its
    /// log line.
    pub fn install_finished(&mut self, outcome: Result<String, String>, now: u64) -> (r: String)
        ensures
            *final(self) == (Notices {
                install_in_progress: false,
                last_install: Some(outcome),
                last_install_at: Some(now),
                ..*old(self)
            }),
            r@ == (match outcome {
                Ok(path) => "[ui] update staged \u{2192} "@ + path@ + " (restart to apply)"@,
                Err(e) => "[ui] install failed: "@ + e@,
            }),
    {
        self.install_in_progress = false;
        self.last_install_at = Some(now);
        let line = match &outcome {
            Ok(path) => "[ui] update staged \u{2192} ".to_owned().concat(path.as_str()).concat(
                " (restart to apply)",
            ),
            Err(e) => "[ui] install failed: ".to_owned().concat(e.as_str()),
        };
        self.last_install = Some(outcome);
        line
    }

    /// A restart is asked for. Gives the staged file to apply, if there is one,
    /// and the log line.
    pub fn restart_requested(&self) -> (r: (Option<String>, String))
        ensures
            match self.last_install {
                Some(Ok(path)) => r.0 matches Some(p) && p@ == path@ && r.1@
                    == "[ui] restarting to apply update"@,
                _ => r.0 is None && r.1@
                    == "[ui] restart requested but no staged update is available"@,
            },
    {
        match &self.last_install {
            Some(Ok(path)) => (
                Some(path.clone()),
                "[ui] restarting to apply update".to_owned(),
            ),
            _ => (None, "[ui] restart requested but no staged update is available".to_owned()),
        }
    }

    /// The restart failed. The result is its log line.
    pub fn restart_failed(&mut self, error: &str, now: u64) -> (r: String)
        ensures
            *final(self) == (Notices {
                last_install: final(self).last_install,
                last_install_at: Some(now),
                ..*old(self)
            }),
            final(self).last_install matches Some(Err(m)) && m@ == "restart failed: "@ + error@,
            r@ == "[ui] restart failed: "@ + error@,
    {
        self.last_install = Some(Err("restart failed: ".to_owned().concat(error)));
        self.last_install_at = Some(now);
        "[ui] restart failed: ".to_owned().concat(error)
    }
}

/// A passed test shows as passed, a failed one as failed.
pub proof fn law_test_line_tells_result(n: Notices, ok: bool, now: u64)
    requires
        n.last_test_msg@ == test_text(ok),
        n.last_test_msg_at == Some(now),
        n.last_update_check is None,
        n.last_update_check_at is None,
    ensures
        line(n, now) == (StatusLine::Test { passed: ok }),
{
    reveal_strlit("Test passed");
    reveal_strlit("Test passed \u{2014} relay is working.");
    reveal_strlit("Test failed \u{2014} see Recent log below for details.");
    let p = "Test passed"@;
    if ok {
        assert(n.last_test_msg@.subrange(0, p.len() as int) =~= p);
    } else {
        assert(n.last_test_msg@.subrange(0, p.len() as int)[5] != p[5]);
    }
}

/// An update that is staged stays on the line until the user acts on it,
/// whatever the time, unless a later check or test takes its place.
pub proof fn law_staged_update_stays(n: Notices, now: u64)
    requires
        n.last_install matches Some(r) && r is Ok,
        !n.install_in_progress,
        !(n.last_update_check matches Some(u) && u is InFlight),
        !fresh(n.last_update_check_at, now),
        !fresh(n.last_test_msg_at, now),
    ensures
        line(n, now) == StatusLine::Staged,
{
}

/// With nothing under way and nothing staged, the line is blank once every
/// result is old.
pub proof fn law_results_fade(n: Notices, now: u64)
    requires
        !(n.last_update_check matches Some(u) && u is InFlight),
        !n.install_in_progress,
        !(n.last_install matches Some(r) && r is Ok),
        !fresh(n.last_update_check_at, now),
        !fresh(n.last_test_msg_at, now),
        !fresh(n.last_install_at, now),
        !fresh(n.last_download_at, now),
        !fresh(n.ca_trusted_at, now),
    ensures
        line(n, now) == StatusLine::Blank,
{
}

/// A result is fresh for ten seconds.
pub proof fn law_fresh_for_ten_seconds(at: u64, now: u64)
    ensures
        fresh(Some(at), now) <==> now < at + 10_000,
        !fresh(None, now),
{
}

/// What the status line tells, by rank: a check for updates, its outcome while
/// that is fresh, a fresh test message, the installation of an update, a fresh
/// download, a fresh look at the certificate, and nothing.
pub proof fn law_rank_of_notices(n: Notices, now: u64)
    ensures
        ({
            let checking = n.last_update_check is Some && n.last_update_check->0 is InFlight;
            let checked = !checking && fresh(n.last_update_check_at, now);
            let tested = !checking && !checked && fresh(n.last_test_msg_at, now)
                && n.last_test_msg@.len() > 0;
            let installing = !checking && !checked && !tested && (n.install_in_progress
                || (n.last_install is Some && n.last_install->0 is Ok) || fresh(
                n.last_install_at,
                now,
            ));
            let downloaded = !checking && !checked && !tested && !installing && fresh(
                n.last_download_at,
                now,
            );
            let looked = !checking && !checked && !tested && !installing && !downloaded && fresh(
                n.ca_trusted_at,
                now,
            );
            &&& line(n, now) is Checking <==> checking
            &&& line(n, now) is UpdateChecked <==> checked && n.last_update_check is Some
            &&& line(n, now) is Test <==> tested
            &&& line(n, now) matches StatusLine::Test { passed } ==> (passed <==> text::begins_with(
                n.last_test_msg@,
                "Test passed"@,
            ))
            &&& line(n, now) is Installing <==> installing && n.install_in_progress
            &&& line(n, now) is Staged <==> installing && !n.install_in_progress
                && (n.last_install is Some && n.last_install->0 is Ok)
            &&& line(n, now) is InstallFailed <==> installing && !n.install_in_progress
                && (n.last_install is Some && n.last_install->0 is Err)
            &&& line(n, now) is Downloaded <==> downloaded && n.last_download is Some
                && n.last_download->0 is Ok
            &&& line(n, now) is DownloadFailed <==> downloaded && n.last_download is Some
                && n.last_download->0 is Err
            &&& line(n, now) is Downloading <==> downloaded && n.last_download is None
            &&& line(n, now) is CaTrusted <==> looked && n.ca_trusted == Some(true)
            &&& line(n, now) is CaNotTrusted <==> looked && n.ca_trusted == Some(false)
        }),
{
}

/// The line repeats what it tells of: the summary of a check, the message of a
/// test, the path of an update or a download, or why one failed.
pub proof fn law_line_tells_its_content(n: Notices, line: StatusLine, t: Seq<char>)
    requires
        says(n, line, t),
    ensures
        line is UpdateChecked && n.last_update_check is Some && n.last_update_check->0 is Done ==> t
            == n.last_update_check->0->summary@,
        line is Test ==> t == n.last_test_msg@,
        line is Staged && n.last_install is Some && n.last_install->0 is Ok ==> t
            == "Update staged \u{2192} "@
            + n.last_install->0->Ok_0@,
        line is InstallFailed && n.last_install is Some && n.last_install->0 is Err ==> t
            == "Install failed: "@
            + n.last_install->0->Err_0@,
        line is Downloaded && n.last_download is Some && n.last_download->0 is Ok ==> t
            == "Downloaded \u{2192} "@
            + n.last_download->0->Ok_0@,
        line is DownloadFailed && n.last_download is Some && n.last_download->0 is Err ==> t
            == "Download failed: "@
            + n.last_download->0->Err_0@,
        line is CaTrusted ==> t == "CA appears trusted on this machine."@,
        line is CaNotTrusted ==> t == "CA is NOT trusted in the system store. Click Install CA."@,
        line is Omitted ==> t.len() == 0,
        line is Blank ==> t == " "@,
{
}

/// Work that is under way is told as such.
pub proof fn law_line_tells_work_under_way(n: Notices, t: Seq<char>)
    ensures
        says(n, StatusLine::Checking, t) ==> t == "Checking for updates\u{2026}"@,
        says(n, StatusLine::Installing, t) ==> t
            == "Installing update\u{2026} (downloading + verifying)"@,
        says(n, StatusLine::Downloading, t) ==> t == "Downloading\u{2026}"@,
{
}

/// A relay test is run in the relay's own mode only, and its result begins with
/// what it is.
pub proof fn law_tested_modes(m: TestedMode, ok: bool)
    ensures
        test_explainer(m) is None <==> m is Relay,
        text::begins_with(test_text(ok), "Test passed"@) <==> ok,
        text::begins_with(test_text(ok), "Test failed"@) <==> !ok,
{
    reveal_strlit("Test passed");
    reveal_strlit("Test failed");
    reveal_strlit("Test passed \u{2014} relay is working.");
    reveal_strlit("Test failed \u{2014} see Recent log below for details.");
    let t = test_text(ok);
    assert("Test passed"@[5] != "Test failed"@[5]);
    if ok {
        assert(t.subrange(0, 11) =~= "Test passed"@);
        assert(t.subrange(0, 11)[5] != "Test failed"@[5]);
    } else {
        assert(t.subrange(0, 11) =~= "Test failed"@);
        assert(t.subrange(0, 11)[5] != "Test passed"@[5]);
    }
}

} // verus!
