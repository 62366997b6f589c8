//! The decisions of the server thread between two reads of its socket.
use vstd::prelude::*;

verus! {

/// What a read of the socket, and the handling of what it read, came to.
#[derive(Clone, Copy, Debug, PartialEq, Eq, Structural)]
pub enum ReceiveOutcome {
    /// A packet was read and handled.
    Handled,
    /// A packet was read and handling it failed.
    Failed,
    /// Nothing was read before the read timed out, or the read failed.
    NothingRead,
}

/// What the server thread does next.
#[derive(Clone, Copy, Debug, PartialEq, Eq, Structural)]
pub enum LoopAction {
    /// Read the socket again.
    Continue,
    /// Leave the loop: a stop was requested.
    Stop,
    /// Pass the error to the error handler, then read the socket again.
    ReportError,
}

/// The decision after a read: the loop stops when the server state could be
/// locked and a stop was requested, whatever the read came to, so that a
/// stop lets at most the packet in progress finish; otherwise a failed packet
/// is reported when an error handler is registered, and the loop goes on.
/// `stop_requested` is `None` when the server state could not be locked.
pub open spec fn loop_decision(
    outcome: ReceiveOutcome,
    stop_requested: Option<bool>,
    has_error_handler: bool,
) -> LoopAction {
    if stop_requested == Some(true) {
        LoopAction::Stop
    } else if outcome == ReceiveOutcome::Failed && stop_requested == Some(false) && has_error_handler {
        LoopAction::ReportError
    } else {
        LoopAction::Continue
    }
}

/// The server thread's decision after a read (see [`loop_decision`]).
pub fn next_action(
    outcome: ReceiveOutcome,
    stop_requested: Option<bool>,
    has_error_handler: bool,
) -> (r: LoopAction)
    ensures
        r == loop_decision(outcome, stop_requested, has_error_handler),
{
    match stop_requested {
        Some(true) => LoopAction::Stop,
        Some(false) => match outcome {
            ReceiveOutcome::Failed => if has_error_handler {
                LoopAction::ReportError
            } else {
                LoopAction::Continue
            },
            _ => LoopAction::Continue,
        },
        None => LoopAction::Continue,
    }
}

/// A requested stop that is seen ends the loop whatever the read came to;
/// the loop ends for no other reason; an error is reported only for a failed
/// packet with an error handler registered and no stop requested.
pub proof fn lemma_stop_when_requested(
    outcome: ReceiveOutcome,
    stop_requested: Option<bool>,
    has_error_handler: bool,
)
    ensures
        stop_requested == Some(true) ==> loop_decision(outcome, stop_requested, has_error_handler)
            == LoopAction::Stop,
        loop_decision(outcome, stop_requested, has_error_handler) == LoopAction::Stop ==> stop_requested
            == Some(true),
        loop_decision(outcome, stop_requested, has_error_handler) == LoopAction::ReportError
            ==> has_error_handler && outcome == ReceiveOutcome::Failed,
{
}

} // verus!
