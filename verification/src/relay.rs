//! Relay sequencing. The byte copying itself is socket work done by the
//! surrounding process; this module fixes the order of its steps: which
//! candidate address to try next, when the client may be told the tunnel
//! stands, and when a session is over.
//!
//! The driving loop feeds each observed event back in and performs the
//! action returned, so the proved sequencing governs the real session:
//! the confirmation can only follow a successful connect, and a timeout
//! always ends the session.

use vstd::prelude::*;

use crate::response::{bad_request_response, ResponseModel};

verus! {

/// Where a tunnel session stands: still connecting (with the index of the
/// candidate address being tried), relaying bytes, or over.
#[derive(PartialEq, Eq, Structural, Clone, Copy, Debug)]
pub enum TunnelState {
    Trying { next: usize },
    Relaying,
    Done,
}

/// What the surrounding process observed: the pending connect succeeded
/// or failed, a timeout fired (connect or whole-session), or the byte
/// copy ended with EOF or an error on either leg.
#[derive(PartialEq, Eq, Structural, Clone, Copy, Debug)]
pub enum TunnelEvent {
    Connected,
    ConnectFailed,
    TimedOut,
    CopyEnded,
}

/// What the surrounding process must do next: attempt a connect to the
/// given candidate, confirm the tunnel to the client and start the
/// bidirectional copy, or close the session.
#[derive(PartialEq, Eq, Structural, Clone, Copy, Debug)]
pub enum TunnelAction {
    Connect { candidate: usize },
    ConfirmAndRelay,
    Close,
}

/// A `Trying` state always points at a real candidate.
pub open spec fn tunnel_state_wf(s: TunnelState, n_candidates: int) -> bool {
    match s {
        TunnelState::Trying { next } => next < n_candidates,
        _ => true,
    }
}

/// Opening a session: try the first resolved address, or close at once
/// when resolution produced none.
pub open spec fn tunnel_begin_spec(n_candidates: int) -> (TunnelState, TunnelAction) {
    if n_candidates == 0 {
        (TunnelState::Done, TunnelAction::Close)
    } else {
        (TunnelState::Trying { next: 0 }, TunnelAction::Connect { candidate: 0 })
    }
}

/// One step of a session. While connecting: success confirms the tunnel
/// and starts the relay; a refused candidate moves to the next one, in
/// resolution order, until none are left; a timeout closes the session.
/// While relaying, any event — EOF, error, or the session-wide timeout —
/// closes it. A closed session stays closed.
pub open spec fn tunnel_step_spec(s: TunnelState, n_candidates: int, e: TunnelEvent) -> (
    TunnelState,
    TunnelAction,
) {
    match s {
        TunnelState::Trying { next } => match e {
            TunnelEvent::Connected => (TunnelState::Relaying, TunnelAction::ConfirmAndRelay),
            TunnelEvent::ConnectFailed => if next + 1 < n_candidates {
                (
                    TunnelState::Trying { next: (next + 1) as usize },
                    TunnelAction::Connect { candidate: (next + 1) as usize },
                )
            } else {
                (TunnelState::Done, TunnelAction::Close)
            },
            _ => (TunnelState::Done, TunnelAction::Close),
        },
        TunnelState::Relaying => (TunnelState::Done, TunnelAction::Close),
        TunnelState::Done => (TunnelState::Done, TunnelAction::Close),
    }
}

/// Opens a tunnel session over `n_candidates` resolved addresses.
pub fn tunnel_begin(n_candidates: usize) -> (r: (TunnelState, TunnelAction))
    ensures
        r == tunnel_begin_spec(n_candidates as int),
        tunnel_state_wf(r.0, n_candidates as int),
{
    if n_candidates == 0 {
        (TunnelState::Done, TunnelAction::Close)
    } else {
        (TunnelState::Trying { next: 0 }, TunnelAction::Connect { candidate: 0 })
    }
}

/// Advances a tunnel session by one observed event.
pub fn tunnel_step(s: TunnelState, n_candidates: usize, e: TunnelEvent) -> (r: (
    TunnelState,
    TunnelAction,
))
    requires
        tunnel_state_wf(s, n_candidates as int),
    ensures
        r == tunnel_step_spec(s, n_candidates as int, e),
        tunnel_state_wf(r.0, n_candidates as int),
        (r.1 == TunnelAction::ConfirmAndRelay) <==> (s matches TunnelState::Trying { .. } && e
            == TunnelEvent::Connected),
        e == TunnelEvent::TimedOut ==> r.0 == TunnelState::Done && r.1 == TunnelAction::Close,
{
    match s {
        TunnelState::Trying { next } => match e {
            TunnelEvent::Connected => (TunnelState::Relaying, TunnelAction::ConfirmAndRelay),
            TunnelEvent::ConnectFailed => {
                if next + 1 < n_candidates {
                    (
                        TunnelState::Trying { next: next + 1 },
                        TunnelAction::Connect { candidate: next + 1 },
                    )
                } else {
                    (TunnelState::Done, TunnelAction::Close)
                }
            },
            _ => (TunnelState::Done, TunnelAction::Close),
        },
        TunnelState::Relaying => (TunnelState::Done, TunnelAction::Close),
        TunnelState::Done => (TunnelState::Done, TunnelAction::Close),
    }
}

/// The client is told the tunnel stands only on the very step in which an
/// outbound connect succeeded — never before, and never on a failure or a
/// timeout.
pub proof fn lemma_confirm_only_after_connect(s: TunnelState, n_candidates: int, e: TunnelEvent)
    ensures
        tunnel_step_spec(s, n_candidates, e).1 == TunnelAction::ConfirmAndRelay <==> (s matches
            TunnelState::Trying { .. } && e == TunnelEvent::Connected),
{
}

/// A timeout — of the connect attempt or of the whole session — always
/// closes the session: the handling task is never held beyond its bound.
pub proof fn lemma_timeout_closes(s: TunnelState, n_candidates: int, e: TunnelEvent)
    ensures
        e == TunnelEvent::TimedOut ==> tunnel_step_spec(s, n_candidates, e) == (
            TunnelState::Done,
            TunnelAction::Close,
        ),
{
}

/// The outcome of one forward exchange: a completed exchange hands the
/// origin's response back unmodified; a failed connect or exchange is
/// answered as a plain bad request with an empty body.
pub fn forward_outcome(result: Option<ResponseModel>) -> (r: ResponseModel)
    ensures
        result matches Some(resp) ==> r == resp,
        result is None ==> r.status == 400 && r.headers@.len() == 0 && r.body@.len() == 0,
{
    match result {
        Some(resp) => resp,
        None => bad_request_response(),
    }
}

} // verus!
