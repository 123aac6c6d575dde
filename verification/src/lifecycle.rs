//! The life of the proxy that the desktop front end controls.
use vstd::prelude::*;

use crate::commands::StatusDto;

verus! {

/// What is known of the proxy. `started_at` is in milliseconds of a clock that
/// does not run backwards; `can_stop` tells that there is a handle to shut the
/// proxy down with, `has_stats` that its counters can be read.
pub struct ProxyState {
    pub running: bool,
    pub started_at: Option<u64>,
    pub can_stop: bool,
    pub has_stats: bool,
    pub last_error: Option<String>,
}

/// What listeners are told when the proxy comes up or goes down.
pub struct StatusEvent {
    pub running: bool,
    pub last_error: Option<String>,
}

/// What stopping a running proxy takes: whether to send the shutdown signal,
/// and what to tell listeners.
pub struct StopEffect {
    pub signal: bool,
    pub event: StatusEvent,
}

/// The start time and the handles are there exactly while the proxy runs.
pub open spec fn consistent(s: ProxyState) -> bool {
    &&& s.running == s.started_at is Some
    &&& s.running == s.can_stop
    &&& s.running == s.has_stats
}

/// A stopped proxy.
pub open spec fn stopped(s: ProxyState) -> ProxyState {
    ProxyState { running: false, started_at: None, can_stop: false, has_stats: false, ..s }
}

/// The proxy after a stop: one that is not running is left alone.
pub open spec fn after_stop(s: ProxyState) -> ProxyState {
    if s.running {
        stopped(s)
    } else {
        s
    }
}

/// A proxy that went down by itself: why it failed, if it did, is kept.
pub open spec fn ended(s: ProxyState, outcome: Result<(), String>) -> ProxyState {
    ProxyState {
        last_error: match outcome {
            Ok(_) => s.last_error,
            Err(m) => Some(m),
        },
        ..stopped(s)
    }
}

/// The seconds since the start, if there was one.
pub open spec fn uptime(started_at: Option<u64>, now: u64) -> Option<u64> {
    match started_at {
        Some(t) => if now >= t {
            Some(((now - t) / 1000) as u64)
        } else {
            Some(0u64)
        },
        None => None,
    }
}

/// A proxy that came up at `now`.
pub open spec fn up(now: u64) -> ProxyState {
    ProxyState {
        running: true,
        started_at: Some(now),
        can_stop: true,
        has_stats: true,
        last_error: None,
    }
}

impl ProxyState {
    /// A proxy that was never started.
    pub fn new() -> (s: ProxyState)
        ensures
            consistent(s),
            !s.running,
            s.last_error is None,
    {
        ProxyState {
            running: false,
            started_at: None,
            can_stop: false,
            has_stats: false,
            last_error: None,
        }
    }

    /// Whether the proxy may be started.
    pub fn check_start(&self) -> (r: Result<(), String>)
        ensures
            match r {
                Ok(_) => !self.running,
                Err(e) => self.running && e@ == "Proxy is already running"@,
            },
    {
        if self.running {
            Err("Proxy is already running".to_owned())
        } else {
            Ok(())
        }
    }

    /// The proxy came up at `now`. A lingering error is cleared.
    pub fn started(&mut self, now: u64) -> (e: StatusEvent)
        ensures
            *final(self) == up(now),
            consistent(*final(self)),
            e.running,
            e.last_error is None,
    {
        self.running = true;
        self.started_at = Some(now);
        self.can_stop = true;
        self.has_stats = true;
        self.last_error = None;
        StatusEvent { running: true, last_error: None }
    }

    /// The proxy went down by itself. Its handles are dropped, so that nothing
    /// reads the counters of a proxy that is gone; an error is kept to be read.
    pub fn exited(&mut self, outcome: Result<(), String>) -> (e: StatusEvent)
        ensures
            *final(self) == ended(*old(self), outcome),
            consistent(*final(self)),
            !e.running,
            e.last_error == (match outcome {
                Ok(_) => None,
                Err(m) => Some(m),
            }),
    {
        self.running = false;
        self.started_at = None;
        self.can_stop = false;
        self.has_stats = false;
        match outcome {
            Ok(_) => StatusEvent { running: false, last_error: None },
            Err(m) => {
                self.last_error = Some(m.clone());
                StatusEvent { running: false, last_error: Some(m) }
            },
        }
    }

    /// Stops the proxy, with a signal where there is a handle for it. A proxy that
    /// is not running is left alone.
    pub fn stop_proxy(&mut self) -> (r: Option<StopEffect>)
        ensures
            *final(self) == after_stop(*old(self)),
            match r {
                Some(effect) => old(self).running && effect.signal == old(self).can_stop
                    && !effect.event.running && effect.event.last_error is None,
                None => !old(self).running,
            },
    {
        if !self.running {
            return None;
        }
        let signal = self.can_stop;
        self.can_stop = false;
        self.running = false;
        self.started_at = None;
        self.has_stats = false;
        Some(StopEffect { signal, event: StatusEvent { running: false, last_error: None } })
    }

    /// What the status tab shows at `now`.
    pub fn get_status(&self, now: u64) -> (d: StatusDto)
        ensures
            d.running == self.running,
            d.uptime_secs == uptime(self.started_at, now),
            match d.last_error {
                Some(e) => self.last_error matches Some(m) && e@ == m@,
                None => self.last_error is None,
            },
    {
        let uptime_secs = match self.started_at {
            Some(t) => if now >= t {
                Some((now - t) / 1000)
            } else {
                Some(0)
            },
            None => None,
        };
        let last_error = match &self.last_error {
            Some(m) => Some(m.clone()),
            None => None,
        };
        StatusDto { running: self.running, uptime_secs, last_error }
    }
}

/// Stopping is idempotent: a second stop finds the proxy stopped.
pub proof fn law_stop_twice_is_stop(s: ProxyState)
    ensures
        after_stop(after_stop(s)) == after_stop(s),
        !after_stop(s).running,
{
}

/// Coming up, going down and being stopped keep start time and handles there
/// exactly while the proxy runs.
pub proof fn law_always_consistent(s: ProxyState, now: u64, outcome: Result<(), String>)
    requires
        consistent(s),
    ensures
        consistent(up(now)),
        consistent(ended(s, outcome)),
        consistent(after_stop(s)),
{
}

/// The error of a run that failed is kept. A stop and a run that ends without an
/// error leave it in place, as does a failed start, which changes nothing; a
/// successful start clears it.
pub proof fn law_last_error_lingers(s: ProxyState, error: String, now: u64)
    ensures
        ended(s, Err(error)).last_error == Some(error),
        ended(s, Ok(())).last_error == s.last_error,
        after_stop(s).last_error == s.last_error,
        up(now).last_error is None,
{
}

/// A started proxy runs since the moment it was started, can be stopped, has
/// counters, and has no error left of an earlier one.
pub proof fn law_started_is_up(now: u64)
    ensures
        up(now).running,
        up(now).started_at == Some(now),
        up(now).can_stop,
        up(now).has_stats,
        up(now).last_error is None,
{
}

/// However a proxy ends, on request or by itself, nothing of it is left but the
/// last error: a failure replaces it, an end without one keeps it.
pub proof fn law_ended_is_down(s: ProxyState, outcome: Result<(), String>)
    ensures
        ({
            let t = ended(s, outcome);
            &&& !t.running && t.started_at is None && !t.can_stop && !t.has_stats
            &&& outcome matches Err(m) ==> t.last_error == Some(m)
            &&& outcome is Ok ==> t.last_error == s.last_error
        }),
        s.running ==> ({
            let t = after_stop(s);
            &&& !t.running && t.started_at is None && !t.can_stop && !t.has_stats
            &&& t.last_error == s.last_error
        }),
        !s.running ==> after_stop(s) == s,
{
}

/// The time that a proxy has been up is told in whole seconds since its start,
/// and there is none for a proxy that is down.
pub proof fn law_uptime_in_whole_seconds(started_at: u64, seconds: u64, rest: u64, now: u64)
    requires
        rest < 1000,
        now == started_at + 1000 * seconds + rest,
    ensures
        uptime(up(started_at).started_at, now) == Some(seconds),
        uptime(Some(started_at), started_at) == Some(0u64),
        uptime(None, now) is None,
{
}

} // verus!
