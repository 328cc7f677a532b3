//! The control channel's per-invocation life cycle, as a state machine:
//! one connection is opened, the encoded command is written, one reply is
//! read, and any failure is terminal for the invocation — there is no
//! retrying. The caller performs the network actions and feeds the
//! outcome of each back as an event.
use vstd::prelude::*;

verus! {

/// Why a control invocation failed. The three conditions are distinct so
/// the caller can judge whether the device is likely to have received the
/// command: a connect failure means it cannot have, a receive failure
/// means it may have.
#[derive(Debug, Clone, Copy, PartialEq, Eq, Structural)]
pub enum ControlError {
    /// The connection could not be opened.
    ConnectFailure,
    /// The connection opened but the command could not be written.
    SendFailure,
    /// The command was written but the reply could not be read.
    ReceiveFailure,
}

/// Where one control invocation stands.
#[derive(Debug, Clone, PartialEq, Eq)]
pub enum ControlState {
    Idle,
    Connecting,
    Sending,
    AwaitingReply,
    /// The reply bytes are available.
    Done(Vec<u8>),
    /// Terminal failure, with its reason.
    Failed(ControlError),
}

/// What the caller observed while driving one invocation.
#[derive(Debug, Clone, PartialEq, Eq)]
pub enum ControlEvent {
    Start,
    Connected,
    ConnectFailed,
    Sent,
    SendFailed,
    Received(Vec<u8>),
    ReceiveFailed,
}

/// The transition relation of one control invocation: `Idle` connects,
/// `Connecting` either reaches `Sending` or fails with `ConnectFailure`,
/// `Sending` either awaits the reply or fails with `SendFailure`,
/// `AwaitingReply` either completes with the reply bytes or fails with
/// `ReceiveFailure`. `Done` and `Failed` are terminal and absorb every
/// event; an event that does not belong to the current state leaves the
/// state unchanged.
pub open spec fn spec_control_step(s: ControlState, e: ControlEvent) -> ControlState {
    match (s, e) {
        (ControlState::Idle, ControlEvent::Start) => ControlState::Connecting,
        (ControlState::Connecting, ControlEvent::Connected) => ControlState::Sending,
        (ControlState::Connecting, ControlEvent::ConnectFailed) => ControlState::Failed(
            ControlError::ConnectFailure,
        ),
        (ControlState::Sending, ControlEvent::Sent) => ControlState::AwaitingReply,
        (ControlState::Sending, ControlEvent::SendFailed) => ControlState::Failed(
            ControlError::SendFailure,
        ),
        (ControlState::AwaitingReply, ControlEvent::Received(reply)) => ControlState::Done(
            reply,
        ),
        (ControlState::AwaitingReply, ControlEvent::ReceiveFailed) => ControlState::Failed(
            ControlError::ReceiveFailure,
        ),
        (s, _) => s,
    }
}

/// Advances one control invocation by one observed event.
pub fn control_step(s: ControlState, e: ControlEvent) -> (r: ControlState)
    ensures
        r == spec_control_step(s, e),
{
    match (s, e) {
        (ControlState::Idle, ControlEvent::Start) => ControlState::Connecting,
        (ControlState::Connecting, ControlEvent::Connected) => ControlState::Sending,
        (ControlState::Connecting, ControlEvent::ConnectFailed) => ControlState::Failed(
            ControlError::ConnectFailure,
        ),
        (ControlState::Sending, ControlEvent::Sent) => ControlState::AwaitingReply,
        (ControlState::Sending, ControlEvent::SendFailed) => ControlState::Failed(
            ControlError::SendFailure,
        ),
        (ControlState::AwaitingReply, ControlEvent::Received(reply)) => ControlState::Done(
            reply,
        ),
        (ControlState::AwaitingReply, ControlEvent::ReceiveFailed) => ControlState::Failed(
            ControlError::ReceiveFailure,
        ),
        (s, _) => s,
    }
}

/// Failure is terminal for an invocation, and so is completion: once
/// `Done` or `Failed` is reached, no further event changes the state.
pub proof fn lemma_terminal_absorbs(s: ControlState, e: ControlEvent)
    requires
        s is Done || s is Failed,
    ensures
        spec_control_step(s, e) == s,
{
}

/// Each failing step is tagged with the reason of the stage it failed at:
/// the three failure outcomes are pairwise distinct conditions.
pub proof fn lemma_failure_reasons_distinct()
    ensures
        spec_control_step(ControlState::Connecting, ControlEvent::ConnectFailed)
            != spec_control_step(ControlState::Sending, ControlEvent::SendFailed),
        spec_control_step(ControlState::Sending, ControlEvent::SendFailed)
            != spec_control_step(ControlState::AwaitingReply, ControlEvent::ReceiveFailed),
        spec_control_step(ControlState::Connecting, ControlEvent::ConnectFailed)
            != spec_control_step(ControlState::AwaitingReply, ControlEvent::ReceiveFailed),
{
}

} // verus!
