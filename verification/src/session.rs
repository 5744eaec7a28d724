//! The per-connection session state machine.
//!
//! A session moves through `Connecting -> Active -> Draining -> Closed` and
//! never backwards. Only transport-level failures drain a session; a
//! malformed inbound frame is skipped and the session stays active. The
//! first task to observe a failure drives the transition and is told to
//! begin draining; a later observer finds the session already draining or
//! closed and is a no-op, so teardown runs exactly once.

use vstd::prelude::*;

verus! {

/// Where a session stands in its lifecycle.
#[derive(Debug, Clone, Copy, PartialEq, Eq, Structural)]
pub enum SessionState {
    /// Transport handshake accepted; no registry entry yet.
    Connecting,
    /// Registered, subscribed, and serving both directions.
    Active,
    /// A failure was observed; the sibling task is being cancelled and a
    /// best-effort close handshake is under way.
    Draining,
    /// Terminal: deregistered, unsubscribed, all resources released.
    Closed,
}

/// What one of a session's tasks observed.
#[derive(Debug, Clone, Copy, PartialEq, Eq, Structural)]
pub enum SessionEvent {
    /// Registration and subscription succeeded; the loops may start.
    Activated,
    /// The inbound reader failed or saw the peer's end of stream.
    ReadError,
    /// The outbound writer failed to send a broadcast frame.
    WriteError,
    /// A liveness probe could not be sent.
    HeartbeatFailed,
    /// The peer asked to close the connection.
    PeerClosed,
    /// An inbound text frame did not decode; it is logged and skipped.
    MalformedFrame,
    /// Sibling cancellation and the close handshake have finished.
    DrainComplete,
}

/// What the surrounding tasks must do after a step.
#[derive(Debug, Clone, Copy, PartialEq, Eq, Structural)]
pub enum SessionDirective {
    /// Nothing: the event changed no state worth acting on.
    Ignore,
    /// Cancel the sibling task and attempt a bounded graceful close.
    BeginDrain,
    /// Remove the presence record, unsubscribe, release resources.
    Teardown,
}

/// Events that are fatal to the transport and so to the session.
pub open spec fn is_fatal(e: SessionEvent) -> bool {
    e == SessionEvent::ReadError || e == SessionEvent::WriteError || e
        == SessionEvent::HeartbeatFailed || e == SessionEvent::PeerClosed
}

/// The whole transition table of a session.
pub open spec fn spec_step(s: SessionState, e: SessionEvent) -> (SessionState, SessionDirective) {
    match s {
        SessionState::Connecting => if e == SessionEvent::Activated {
            (SessionState::Active, SessionDirective::Ignore)
        } else if is_fatal(e) {
            // Nothing was registered yet, so there is nothing to tear down.
            (SessionState::Closed, SessionDirective::Ignore)
        } else {
            (SessionState::Connecting, SessionDirective::Ignore)
        },
        SessionState::Active => if is_fatal(e) {
            (SessionState::Draining, SessionDirective::BeginDrain)
        } else {
            (SessionState::Active, SessionDirective::Ignore)
        },
        SessionState::Draining => if e == SessionEvent::DrainComplete {
            (SessionState::Closed, SessionDirective::Teardown)
        } else {
            (SessionState::Draining, SessionDirective::Ignore)
        },
        SessionState::Closed => (SessionState::Closed, SessionDirective::Ignore),
    }
}

/// How far along its lifecycle a state is.
pub open spec fn rank(s: SessionState) -> int {
    match s {
        SessionState::Connecting => 0,
        SessionState::Active => 1,
        SessionState::Draining => 2,
        SessionState::Closed => 3,
    }
}

/// Performs one step of the session state machine.
pub fn session_step(s: SessionState, e: SessionEvent) -> (r: (SessionState, SessionDirective))
    ensures
        r == spec_step(s, e),
{
    match s {
        SessionState::Connecting => {
            if e == SessionEvent::Activated {
                (SessionState::Active, SessionDirective::Ignore)
            } else if e == SessionEvent::ReadError || e == SessionEvent::WriteError || e
                == SessionEvent::HeartbeatFailed || e == SessionEvent::PeerClosed {
                (SessionState::Closed, SessionDirective::Ignore)
            } else {
                (SessionState::Connecting, SessionDirective::Ignore)
            }
        },
        SessionState::Active => {
            if e == SessionEvent::ReadError || e == SessionEvent::WriteError || e
                == SessionEvent::HeartbeatFailed || e == SessionEvent::PeerClosed {
                (SessionState::Draining, SessionDirective::BeginDrain)
            } else {
                (SessionState::Active, SessionDirective::Ignore)
            }
        },
        SessionState::Draining => {
            if e == SessionEvent::DrainComplete {
                (SessionState::Closed, SessionDirective::Teardown)
            } else {
                (SessionState::Draining, SessionDirective::Ignore)
            }
        },
        SessionState::Closed => (SessionState::Closed, SessionDirective::Ignore),
    }
}

/// A session only ever moves forward through its lifecycle.
pub proof fn lemma_step_monotone(s: SessionState, e: SessionEvent)
    ensures
        rank(spec_step(s, e).0) >= rank(s),
{
}

/// `Closed` is terminal: no event changes a closed session or asks for any
/// further action.
pub proof fn lemma_closed_terminal(e: SessionEvent)
    ensures
        spec_step(SessionState::Closed, e) == (SessionState::Closed, SessionDirective::Ignore),
{
}

/// Draining starts exactly once: the step orders a drain if and only if a
/// fatal event hits an active session, so the first task to observe a
/// failure drives the transition and every later observer is a no-op.
pub proof fn lemma_first_failure_drives_drain(s: SessionState, e: SessionEvent)
    ensures
        spec_step(s, e).1 == SessionDirective::BeginDrain <==> (s == SessionState::Active
            && is_fatal(e)),
{
}

/// Teardown runs exactly once: the step orders it if and only if the drain
/// of a draining session completes, and the session is then closed.
pub proof fn lemma_teardown_once(s: SessionState, e: SessionEvent)
    ensures
        spec_step(s, e).1 == SessionDirective::Teardown <==> (s == SessionState::Draining && e
            == SessionEvent::DrainComplete),
        spec_step(s, e).1 == SessionDirective::Teardown ==> spec_step(s, e).0
            == SessionState::Closed,
{
}

/// A malformed frame never changes a session's state: only transport-level
/// failures drain it.
pub proof fn lemma_malformed_is_skipped(s: SessionState)
    ensures
        spec_step(s, SessionEvent::MalformedFrame).0 == s,
        spec_step(s, SessionEvent::MalformedFrame).1 == SessionDirective::Ignore,
{
}

} // verus!
