use vstd::prelude::*;

verus! {

/// Backend tag of a ReadyForQuery message.
pub const TAG_READY_FOR_QUERY: u8 = 0x5A;

/// Backend tag of an ErrorResponse message.
pub const TAG_ERROR_RESPONSE: u8 = 0x45;

/// Phase of the replication-start sequence.
#[derive(PartialEq, Eq, Structural, Clone, Copy, Debug)]
pub enum HandshakeState {
    /// Startup parameters sent; reading until ReadyForQuery arrives.
    AwaitingReady,
    /// ReadyForQuery arrived; the replication-start command may be issued.
    Ready,
    /// The command was sent; every further message is replication data.
    Streaming,
    /// An ErrorResponse arrived; the connection must not be used again.
    Failed,
}

/// What the caller must do after one inbound message is classified.
#[derive(PartialEq, Eq, Structural, Clone, Copy, Debug)]
pub enum HandshakeAction {
    /// Keep reading; the message (such as ParameterStatus) is informational.
    KeepReading,
    /// Readiness was reached: issue the replication-start command.
    StartReplication,
    /// A replication data message; hand it to the consumer.
    AcceptData,
    /// Abort the operation; the server reported an error.
    Abort,
}

/// Next state and required action when a message with tag `tag` arrives in
/// state `state`. An ErrorResponse is terminal wherever it arrives; in
/// AwaitingReady only ReadyForQuery advances the sequence, every other
/// message is informational.
pub open spec fn spec_on_message(state: HandshakeState, tag: u8) -> (HandshakeState,
    HandshakeAction) {
    if tag == TAG_ERROR_RESPONSE {
        (HandshakeState::Failed, HandshakeAction::Abort)
    } else {
        match state {
            HandshakeState::AwaitingReady => if tag == TAG_READY_FOR_QUERY {
                (HandshakeState::Ready, HandshakeAction::StartReplication)
            } else {
                (HandshakeState::AwaitingReady, HandshakeAction::KeepReading)
            },
            HandshakeState::Ready => (HandshakeState::Ready, HandshakeAction::KeepReading),
            HandshakeState::Streaming => (HandshakeState::Streaming, HandshakeAction::AcceptData),
            HandshakeState::Failed => (HandshakeState::Failed, HandshakeAction::Abort),
        }
    }
}

/// Classifies one inbound message during the replication-start sequence.
pub fn on_message(state: HandshakeState, tag: u8) -> (r: (HandshakeState, HandshakeAction))
    ensures
        r == spec_on_message(state, tag),
{
    if tag == TAG_ERROR_RESPONSE {
        (HandshakeState::Failed, HandshakeAction::Abort)
    } else {
        match state {
            HandshakeState::AwaitingReady => if tag == TAG_READY_FOR_QUERY {
                (HandshakeState::Ready, HandshakeAction::StartReplication)
            } else {
                (HandshakeState::AwaitingReady, HandshakeAction::KeepReading)
            },
            HandshakeState::Ready => (HandshakeState::Ready, HandshakeAction::KeepReading),
            HandshakeState::Streaming => (HandshakeState::Streaming, HandshakeAction::AcceptData),
            HandshakeState::Failed => (HandshakeState::Failed, HandshakeAction::Abort),
        }
    }
}

/// State reached once the replication-start command has gone out: Ready
/// moves to Streaming, any other state is unchanged.
pub fn on_command_sent(state: HandshakeState) -> (r: HandshakeState)
    ensures
        state == HandshakeState::Ready ==> r == HandshakeState::Streaming,
        state != HandshakeState::Ready ==> r == state,
{
    match state {
        HandshakeState::Ready => HandshakeState::Streaming,
        _ => state,
    }
}

} // verus!
