//! MediaMTX (the WebRTC relay) lifecycle decisions: it is started lazily on
//! the first WebRTC stream, polled until its RTMP port accepts connections,
//! and stopped when no WebRTC stream remains.

use vstd::prelude::*;

verus! {

/// How many times the RTMP port is probed before giving up.
pub const READY_ATTEMPTS: u32 = 20;

/// Pause between two probes, in milliseconds.
pub const READY_POLL_MS: u64 = 250;

/// Error reported when MediaMTX does not come up in time.
pub const NOT_READY_MESSAGE: &'static str = "MediaMTX non si è avviato in tempo (porta RTMP non raggiungibile)";

/// Configuration file paths tried, relative to the executable's directory,
/// in order (development layout first, then next to the executable).
pub const CONFIG_CANDIDATES: [&'static str; 2] = ["../../mediamtx.yml", "mediamtx.yml"];

/// What to do after a readiness probe.
#[derive(Clone, Copy, Debug, PartialEq, Eq, Structural)]
pub enum ReadyStep {
    /// The port accepted a connection: MediaMTX is up.
    Ready,
    /// Wait `READY_POLL_MS` and probe again.
    Retry,
    /// Wait `READY_POLL_MS`, then stop MediaMTX and report the failure.
    GiveUp,
}

/// The step after probe number `attempt` (counting from 0).
pub open spec fn ready_step_spec(attempt: u32, port_open: bool) -> ReadyStep {
    if port_open {
        ReadyStep::Ready
    } else if attempt + 1 < READY_ATTEMPTS {
        ReadyStep::Retry
    } else {
        ReadyStep::GiveUp
    }
}

/// Decides what follows probe number `attempt` (from 0), given whether the
/// RTMP port accepted the connection.
pub fn ready_step(attempt: u32, port_open: bool) -> (s: ReadyStep)
    requires
        attempt < READY_ATTEMPTS,
    ensures
        s == ready_step_spec(attempt, port_open),
{
    if port_open {
        ReadyStep::Ready
    } else if attempt + 1 < READY_ATTEMPTS {
        ReadyStep::Retry
    } else {
        ReadyStep::GiveUp
    }
}

/// Probing stops within `READY_ATTEMPTS` probes: the last one never asks
/// for another.
pub proof fn lemma_probing_ends(port_open: bool)
    ensures
        ready_step_spec((READY_ATTEMPTS - 1) as u32, port_open) != ReadyStep::Retry,
{
}

/// The running MediaMTX, if any: its process `C` and its event task `T`.
pub struct MediamtxState<C, T> {
    pub child: Option<C>,
    pub event_task: Option<T>,
}

impl<C, T> MediamtxState<C, T> {
    /// Nothing running.
    pub fn new() -> (s: MediamtxState<C, T>)
        ensures
            s.child is None,
            s.event_task is None,
    {
        MediamtxState { child: None, event_task: None }
    }

    /// Whether MediaMTX runs (then `ensure` has nothing to do).
    pub fn is_running(&self) -> (r: bool)
        ensures
            r == self.child is Some,
    {
        self.child.is_some()
    }

    /// Takes the process and the event task out (to be killed and aborted);
    /// afterwards nothing runs. Calling it again hands out nothing.
    pub fn shutdown(&mut self) -> (r: (Option<C>, Option<T>))
        ensures
            r.0 == old(self).child,
            r.1 == old(self).event_task,
            final(self).child is None,
            final(self).event_task is None,
    {
        let child = self.child.take();
        let task = self.event_task.take();
        (child, task)
    }
}

impl<C, T> Default for MediamtxState<C, T> {
    fn default() -> (s: MediamtxState<C, T>)
        ensures
            s.child is None,
            s.event_task is None,
    {
        MediamtxState::new()
    }
}

} // verus!
