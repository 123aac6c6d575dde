//! The background engine of the settings window: which commands it carries out,
//! which it refuses, and what its flags say meanwhile.
//!
//! The engine owns the proxy's task. The window shares its flags, and so sees a
//! start that has been asked for before the proxy runs.
use vstd::prelude::*;

use crate::numeral;

verus! {

/// The engine's flags.
///
/// `live` tells that a proxy task is held, starting, running or ended;
/// `proxy_active` is set from the click on Start until the proxy is down;
/// `running` is set while the proxy's task runs. `cert_op` tells that the
/// certificate authority is being installed or removed.
#[derive(Debug, Clone, Copy, PartialEq, Eq, Structural)]
pub struct Engine {
    pub live: bool,
    pub proxy_active: bool,
    pub running: bool,
    pub cert_op: bool,
}

/// What happens to the engine.
#[derive(Debug, Clone, Copy, PartialEq, Eq, Structural)]
pub enum EngineEvent {
    /// Start was clicked and the form had no complaint.
    StartClicked,
    /// The command to start was taken up.
    StartRequested,
    /// The certificate authority or the proxy could not be built.
    BuildFailed,
    /// The proxy was built and its task spawned.
    Built,
    /// The proxy's task began to run.
    TaskEntered,
    /// The proxy's task ran to its end.
    TaskEnded,
    /// The engine found the task finished.
    TaskReaped,
    SwitchRequested,
    StopRequested,
    /// The proxy shut down, or was aborted.
    StopCompleted,
    InstallCaRequested,
    RemoveCaRequested,
    CertOpEnded,
}

/// What the engine does.
#[derive(Debug, Clone, Copy, PartialEq, Eq, Structural)]
pub enum EngineAction {
    Nothing,
    BuildProxy,
    RefuseStart,
    SwitchMode,
    IgnoreSwitch,
    ShutDown,
    InstallCa,
    RefuseInstallCa,
    RemoveCa,
    RefuseRemoveWhileLive,
    RefuseRemoveCa,
}

/// The engine at the start of the program.
pub open spec fn idle() -> Engine {
    Engine {
        live: false,
        proxy_active: false,
        running: false,
        cert_op: false,
    }
}

/// The engine with the proxy's flags cleared.
pub open spec fn proxy_down(s: Engine) -> Engine {
    Engine { proxy_active: false, running: false, ..s }
}

/// The event can happen in this state: a proxy is built only where none is
/// held, and only a held task runs, ends or is reaped.
pub open spec fn can_happen(s: Engine, e: EngineEvent) -> bool {
    match e {
        EngineEvent::StartClicked => !s.proxy_active,
        EngineEvent::BuildFailed => !s.live && s.proxy_active,
        EngineEvent::Built => !s.live && s.proxy_active,
        EngineEvent::TaskEntered => s.live && s.proxy_active && !s.running,
        EngineEvent::TaskEnded => s.live,
        EngineEvent::TaskReaped => s.live,
        EngineEvent::StopCompleted => s.live,
        EngineEvent::CertOpEnded => s.cert_op,
        _ => true,
    }
}

/// What the engine does on an event.
pub open spec fn action(s: Engine, e: EngineEvent) -> EngineAction {
    match e {
        EngineEvent::StartRequested => if s.live {
            EngineAction::RefuseStart
        } else {
            EngineAction::BuildProxy
        },
        EngineEvent::SwitchRequested => if s.live {
            EngineAction::SwitchMode
        } else {
            EngineAction::IgnoreSwitch
        },
        EngineEvent::StopRequested => if s.live {
            EngineAction::ShutDown
        } else {
            EngineAction::Nothing
        },
        EngineEvent::InstallCaRequested => if s.cert_op {
            EngineAction::RefuseInstallCa
        } else {
            EngineAction::InstallCa
        },
        EngineEvent::RemoveCaRequested => if s.live {
            EngineAction::RefuseRemoveWhileLive
        } else if s.cert_op {
            EngineAction::RefuseRemoveCa
        } else {
            EngineAction::RemoveCa
        },
        _ => EngineAction::Nothing,
    }
}

/// The engine after an event.
pub open spec fn next(s: Engine, e: EngineEvent) -> Engine {
    match e {
        EngineEvent::StartClicked => Engine { proxy_active: true, ..s },
        EngineEvent::StartRequested => if s.live {
            s
        } else {
            Engine { proxy_active: true, ..s }
        },
        EngineEvent::BuildFailed => proxy_down(s),
        EngineEvent::Built => Engine { live: true, ..s },
        EngineEvent::TaskEntered => Engine { running: true, ..s },
        EngineEvent::TaskEnded => proxy_down(s),
        EngineEvent::TaskReaped => Engine { live: false, ..proxy_down(s) },
        EngineEvent::StopCompleted => Engine { live: false, ..proxy_down(s) },
        EngineEvent::InstallCaRequested => Engine { cert_op: true, ..s },
        EngineEvent::RemoveCaRequested => if s.live {
            s
        } else {
            Engine { cert_op: true, ..s }
        },
        EngineEvent::CertOpEnded => Engine { cert_op: false, ..s },
        EngineEvent::SwitchRequested => s,
        EngineEvent::StopRequested => s,
    }
}

/// A proxy that runs is held, and the window knows that it is active.
pub open spec fn consistent(s: Engine) -> bool {
    s.running ==> s.live && s.proxy_active
}

impl Engine {
    /// The engine at the start of the program.
    pub fn new() -> (s: Engine)
        ensures
            s == idle(),
    {
        Engine {
            live: false,
            proxy_active: false,
            running: false,
            cert_op: false,
        }
    }

    /// Takes up an event and says what is to be done.
    pub fn step(&mut self, e: EngineEvent) -> (a: EngineAction)
        ensures
            *final(self) == next(*old(self), e),
            a == action(*old(self), e),
    {
        match e {
            EngineEvent::StartClicked => {
                self.proxy_active = true;
                EngineAction::Nothing
            },
            EngineEvent::StartRequested => {
                if self.live {
                    return EngineAction::RefuseStart;
                }
                self.proxy_active = true;
                EngineAction::BuildProxy
            },
            EngineEvent::BuildFailed | EngineEvent::TaskEnded => {
                self.running = false;
                self.proxy_active = false;
                EngineAction::Nothing
            },
            EngineEvent::Built => {
                self.live = true;
                EngineAction::Nothing
            },
            EngineEvent::TaskEntered => {
                self.running = true;
                EngineAction::Nothing
            },
            EngineEvent::TaskReaped | EngineEvent::StopCompleted => {
                self.live = false;
                self.running = false;
                self.proxy_active = false;
                EngineAction::Nothing
            },
            EngineEvent::SwitchRequested => if self.live {
                EngineAction::SwitchMode
            } else {
                EngineAction::IgnoreSwitch
            },
            EngineEvent::StopRequested => if self.live {
                EngineAction::ShutDown
            } else {
                EngineAction::Nothing
            },
            EngineEvent::InstallCaRequested => {
                if self.cert_op {
                    return EngineAction::RefuseInstallCa;
                }
                self.cert_op = true;
                EngineAction::InstallCa
            },
            EngineEvent::RemoveCaRequested => {
                if self.live {
                    return EngineAction::RefuseRemoveWhileLive;
                }
                if self.cert_op {
                    return EngineAction::RefuseRemoveCa;
                }
                self.cert_op = true;
                EngineAction::RemoveCa
            },
            EngineEvent::CertOpEnded => {
                self.cert_op = false;
                EngineAction::Nothing
            },
        }
    }

    /// Whether the button that installs the certificate authority is enabled.
    pub fn install_ca_enabled(&self) -> (r: bool)
        ensures
            r == !self.cert_op,
    {
        !self.cert_op
    }

    /// Whether the button that removes the certificate authority is enabled.
    pub fn remove_ca_enabled(&self) -> (r: bool)
        ensures
            r == (!self.proxy_active && !self.running && !self.cert_op),
    {
        !self.proxy_active && !self.running && !self.cert_op
    }

    /// Whether listen host and ports may be edited: they are bound at start.
    pub fn listeners_editable(&self) -> (r: bool)
        ensures
            r == !self.proxy_active,
    {
        !self.proxy_active
    }
}

/// The log line that goes with an action, if it has one of its own.
pub open spec fn action_text(a: EngineAction) -> Option<Seq<char>> {
    match a {
        EngineAction::Nothing => None,
        EngineAction::BuildProxy => Some("[ui] starting proxy..."@),
        EngineAction::RefuseStart => Some("[ui] already running"@),
        EngineAction::SwitchMode => Some("[ui] switching mode live..."@),
        EngineAction::IgnoreSwitch => Some("[ui] not running; ignoring SwitchMode"@),
        EngineAction::ShutDown => Some("[ui] stop requested"@),
        EngineAction::InstallCa => Some("[ui] installing CA..."@),
        EngineAction::RefuseInstallCa => Some(
            "[ui] cert op already in progress \u{2014} ignoring duplicate install"@,
        ),
        EngineAction::RemoveCa => Some("[ui] removing CA (trust store + files)..."@),
        EngineAction::RefuseRemoveWhileLive => Some(
            "[ui] cannot remove CA: proxy is running or starting \u{2014} stop it first"@,
        ),
        EngineAction::RefuseRemoveCa => Some(
            "[ui] cert op already in progress \u{2014} ignoring duplicate remove"@,
        ),
    }
}

/// Gives the log line that goes with an action.
pub fn action_line(a: EngineAction) -> (r: Option<String>)
    ensures
        match r {
            Some(s) => action_text(a) == Some(s@),
            None => action_text(a) is None,
        },
{
    let line: &str = match a {
        EngineAction::Nothing => return None,
        EngineAction::BuildProxy => "[ui] starting proxy...",
        EngineAction::RefuseStart => "[ui] already running",
        EngineAction::SwitchMode => "[ui] switching mode live...",
        EngineAction::IgnoreSwitch => "[ui] not running; ignoring SwitchMode",
        EngineAction::ShutDown => "[ui] stop requested",
        EngineAction::InstallCa => "[ui] installing CA...",
        EngineAction::RefuseInstallCa => "[ui] cert op already in progress \u{2014} ignoring duplicate install",
        EngineAction::RemoveCa => "[ui] removing CA (trust store + files)...",
        EngineAction::RefuseRemoveWhileLive => "[ui] cannot remove CA: proxy is running or starting \u{2014} stop it first",
        EngineAction::RefuseRemoveCa => "[ui] cert op already in progress \u{2014} ignoring duplicate remove",
    };
    Some(line.to_owned())
}

/// The log line of a proxy that begins to listen. Without a SOCKS5 port of its
/// own, SOCKS5 is one above HTTP.
pub fn listening_line(host: &str, port: u16, socks5_port: Option<u16>) -> (r: String)
    requires
        socks5_port is None ==> port < u16::MAX,
    ensures
        r@ == "[ui] listening HTTP "@ + host@ + ":"@ + numeral::decimal(port as nat) + " SOCKS5 "@
            + host@ + ":"@ + numeral::decimal(
            match socks5_port {
                Some(p) => p as nat,
                None => (port + 1) as nat,
            },
        ),
{
    let socks: u16 = match socks5_port {
        Some(p) => p,
        None => port + 1,
    };
    let http_text = numeral::to_decimal(port as u64);
    let socks_text = numeral::to_decimal(socks as u64);
    "[ui] listening HTTP ".to_owned().concat(host).concat(":").concat(http_text.as_str()).concat(
        " SOCKS5 ",
    ).concat(host).concat(":").concat(socks_text.as_str())
}

/// How a live mode switch ended.
pub enum SwitchOutcome {
    Switched,
    /// The proxy was shutting down: not a failure.
    ShuttingDown,
    /// The proxy refused, and still runs in `live_mode`.
    Failed { error: String, live_mode: String },
}

/// What a mode switch leaves behind: the log line, and the mode that the form is
/// to go back to with the message that says why.
pub struct SwitchReport {
    pub line: String,
    pub revert: Option<(String, String)>,
}

/// Reports a mode switch to `mode`. `pending` is a mode to go back to that an
/// earlier switch left behind; a success discards it, so that the form never
/// goes back on the mode that was switched to last.
pub fn report_switch(mode: &str, outcome: SwitchOutcome, pending: Option<(String, String)>) -> (r:
    SwitchReport)
    ensures
        match outcome {
            SwitchOutcome::Switched => r.line@ == "[ui] mode switched live to '"@ + mode@ + "'"@
                && r.revert is None,
            SwitchOutcome::ShuttingDown => r.line@ == "[ui] mode switch skipped (proxy stopping)"@
                && r.revert == pending,
            SwitchOutcome::Failed { error, live_mode } => r.line@
                == "[ui] Live mode switch failed: "@ + error@ && (r.revert matches Some(back)
                && back.0 == live_mode && back.1@ == "Live mode switch failed: "@ + error@),
        },
{
    match outcome {
        SwitchOutcome::Switched => SwitchReport {
            line: "[ui] mode switched live to '".to_owned().concat(mode).concat("'"),
            revert: None,
        },
        SwitchOutcome::ShuttingDown => SwitchReport {
            line: "[ui] mode switch skipped (proxy stopping)".to_owned(),
            revert: pending,
        },
        SwitchOutcome::Failed { error, live_mode } => {
            let line = "[ui] Live mode switch failed: ".to_owned().concat(error.as_str());
            let message = "Live mode switch failed: ".to_owned().concat(error.as_str());
            SwitchReport { line, revert: Some((live_mode, message)) }
        },
    }
}

/// The log line of a shutdown: within the grace period, or by an abort.
pub fn shutdown_line(in_time: bool) -> (r: String)
    ensures
        r@ == (if in_time {
            "[ui] proxy stopped gracefully"@
        } else {
            "[ui] shutdown timeout, forced abort"@
        }),
{
    if in_time {
        "[ui] proxy stopped gracefully".to_owned()
    } else {
        "[ui] shutdown timeout, forced abort".to_owned()
    }
}

/// What the counters on show become when they are polled.
pub enum StatsPoll {
    /// No proxy is held: what is on show stays.
    Keep,
    /// The relay's counters are to be read.
    Read,
    /// There is no relay in this mode: counters of an earlier mode go.
    Clear,
}

/// Decides a poll of the counters.
pub fn poll_stats(live: bool, has_relay: bool) -> (r: StatsPoll)
    ensures
        (r is Keep) == !live,
        (r is Read) == (live && has_relay),
        (r is Clear) == (live && !has_relay),
{
    if !live {
        StatsPoll::Keep
    } else if has_relay {
        StatsPoll::Read
    } else {
        StatsPoll::Clear
    }
}

/// The engine after a run of events.
pub open spec fn after(s: Engine, events: Seq<EngineEvent>) -> Engine
    decreases events.len(),
{
    if events.len() == 0 {
        s
    } else {
        next(after(s, events.drop_last()), events.last())
    }
}

/// The run of events can happen.
pub open spec fn possible(s: Engine, events: Seq<EngineEvent>) -> bool
    decreases events.len(),
{
    events.len() == 0 || (possible(s, events.drop_last()) && can_happen(
        after(s, events.drop_last()),
        events.last(),
    ))
}

/// How many certificate operations a run of events began, less those that it
/// ended.
pub open spec fn cert_ops_open(s: Engine, events: Seq<EngineEvent>) -> int
    decreases events.len(),
{
    if events.len() == 0 {
        0
    } else {
        let before = cert_ops_open(s, events.drop_last());
        let a = action(after(s, events.drop_last()), events.last());
        if a == EngineAction::InstallCa || a == EngineAction::RemoveCa {
            before + 1
        } else if events.last() == EngineEvent::CertOpEnded {
            before - 1
        } else {
            before
        }
    }
}

/// At all times a running proxy is held and known to be active.
pub proof fn law_always_consistent(events: Seq<EngineEvent>)
    requires
        possible(idle(), events),
    ensures
        consistent(after(idle(), events)),
    decreases events.len(),
{
    if events.len() > 0 {
        law_always_consistent(events.drop_last());
    }
}

/// Installing and removing the certificate authority never overlap: at most one
/// operation is under way, and the flag tells when.
pub proof fn law_one_cert_op_at_a_time(events: Seq<EngineEvent>)
    requires
        possible(idle(), events),
    ensures
        cert_ops_open(idle(), events) == (if after(idle(), events).cert_op {
            1int
        } else {
            0int
        }),
    decreases events.len(),
{
    if events.len() > 0 {
        law_one_cert_op_at_a_time(events.drop_last());
    }
}

/// The certificate authority is never removed while a proxy is held, however the
/// commands were queued.
pub proof fn law_no_removal_under_a_proxy(s: Engine, e: EngineEvent)
    requires
        action(s, e) == EngineAction::RemoveCa,
    ensures
        !s.live,
        consistent(s) ==> !s.running,
{
}

/// A second proxy is never built beside one that is held.
pub proof fn law_one_proxy(s: Engine, e: EngineEvent)
    requires
        action(s, e) == EngineAction::BuildProxy,
    ensures
        !s.live,
        next(s, e).proxy_active,
{
}

/// However the proxy went down, it can be started again: after a stop, and after
/// a task that ended by itself has been reaped.
pub proof fn law_start_after_down(s: Engine, e: EngineEvent)
    requires
        e == EngineEvent::StopCompleted || e == EngineEvent::TaskReaped,
    ensures
        action(next(s, e), EngineEvent::StartRequested) == EngineAction::BuildProxy,
        !next(s, e).proxy_active,
        !next(s, e).running,
{
}

/// From the click on Start until the proxy is down, a mode change reaches the
/// engine: the click sets the flag that the window goes by, and the start, the
/// build and the beginning of the task keep it set.
pub proof fn law_active_from_click(s: Engine)
    ensures
        next(s, EngineEvent::StartClicked).proxy_active,
        s.proxy_active ==> next(s, EngineEvent::StartRequested).proxy_active,
        s.proxy_active ==> next(s, EngineEvent::Built).proxy_active,
        s.proxy_active ==> next(s, EngineEvent::TaskEntered).proxy_active,
{
}

/// A proxy is held from when it was built until it was stopped or found
/// finished, and by nothing else.
pub proof fn law_when_a_proxy_is_held(s: Engine, e: EngineEvent)
    ensures
        next(s, e).live <==> (s.live && e != EngineEvent::StopCompleted && e
            != EngineEvent::TaskReaped) || e == EngineEvent::Built,
{
}

/// The proxy counts as running from when its task began until the task ended,
/// the proxy was stopped or reaped, or a build failed.
pub proof fn law_when_the_proxy_runs(s: Engine, e: EngineEvent)
    ensures
        next(s, e).running <==> (s.running && e != EngineEvent::TaskEnded && e
            != EngineEvent::StopCompleted && e != EngineEvent::TaskReaped && e
            != EngineEvent::BuildFailed) || e == EngineEvent::TaskEntered,
{
}

/// The proxy counts as active from the click or the request to start, until the
/// build failed, its task ended, or it was stopped or reaped.
pub proof fn law_when_the_proxy_is_active(s: Engine, e: EngineEvent)
    ensures
        next(s, e).proxy_active <==> (s.proxy_active && e != EngineEvent::TaskEnded && e
            != EngineEvent::StopCompleted && e != EngineEvent::TaskReaped && e
            != EngineEvent::BuildFailed) || e == EngineEvent::StartClicked || (e
            == EngineEvent::StartRequested && !s.live),
{
}

/// A certificate operation is under way from the request that starts it until
/// it ended; a removal is not started while a proxy is held.
pub proof fn law_when_a_cert_op_is_under_way(s: Engine, e: EngineEvent)
    ensures
        next(s, e).cert_op <==> (s.cert_op && e != EngineEvent::CertOpEnded) || e
            == EngineEvent::InstallCaRequested || (e == EngineEvent::RemoveCaRequested && !s.live),
{
}

/// What is done about each request: a start builds a proxy unless one is held, a
/// switch and a stop reach the proxy that is held and none otherwise, and a
/// certificate operation runs alone, a removal moreover only without a proxy.
pub proof fn law_requests_are_answered(s: Engine, e: EngineEvent)
    ensures
        action(s, e) is BuildProxy <==> e is StartRequested && !s.live,
        action(s, e) is RefuseStart <==> e is StartRequested && s.live,
        action(s, e) is SwitchMode <==> e is SwitchRequested && s.live,
        action(s, e) is IgnoreSwitch <==> e is SwitchRequested && !s.live,
        action(s, e) is ShutDown <==> e is StopRequested && s.live,
        action(s, e) is InstallCa <==> e is InstallCaRequested && !s.cert_op,
        action(s, e) is RefuseInstallCa <==> e is InstallCaRequested && s.cert_op,
        action(s, e) is RemoveCa <==> e is RemoveCaRequested && !s.live && !s.cert_op,
        action(s, e) is RefuseRemoveWhileLive <==> e is RemoveCaRequested && s.live,
        action(s, e) is RefuseRemoveCa <==> e is RemoveCaRequested && !s.live && s.cert_op,
{
}

/// A refused request changes nothing.
pub proof fn law_refusal_changes_nothing(s: Engine, e: EngineEvent)
    requires
        action(s, e) is RefuseStart || action(s, e) is IgnoreSwitch || action(s, e)
            is RefuseInstallCa || action(s, e) is RefuseRemoveWhileLive || action(s, e)
            is RefuseRemoveCa,
    ensures
        next(s, e) == s,
{
}

/// Each answer that is worth a line of the log has its own.
pub proof fn law_answers_in_the_log(a: EngineAction)
    ensures
        action_text(a) is None <==> a is Nothing,
        a is BuildProxy ==> action_text(a) == Some("[ui] starting proxy..."@),
        a is RefuseStart ==> action_text(a) == Some("[ui] already running"@),
        a is SwitchMode ==> action_text(a) == Some("[ui] switching mode live..."@),
        a is IgnoreSwitch ==> action_text(a) == Some("[ui] not running; ignoring SwitchMode"@),
        a is ShutDown ==> action_text(a) == Some("[ui] stop requested"@),
        a is InstallCa ==> action_text(a) == Some("[ui] installing CA..."@),
        a is RemoveCa ==> action_text(a) == Some("[ui] removing CA (trust store + files)..."@),
{
}

} // verus!
