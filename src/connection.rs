use vstd::prelude::*;

verus! {

/// Where one client connection stands: it has subscribed, it is relaying
/// samples to its peer, or it has closed for good.
#[derive(PartialEq, Eq, Structural, Clone, Copy, Debug)]
pub enum ConnState {
    Subscribed,
    Relaying,
    Closed,
}

/// What the outside world reports back to a connection.
#[derive(PartialEq, Eq, Structural, Clone, Copy, Debug)]
pub enum ConnEvent {
    /// The subscription's mailbox handed over a sample.
    SampleArrived,
    /// The producer side of the hub is gone.
    SourceClosed,
    /// The last sample reached the peer.
    SendSucceeded,
    /// The peer disconnected or the write failed.
    SendFailed,
}

/// What the connection asks the outside world to do next.
#[derive(PartialEq, Eq, Structural, Clone, Copy, Debug)]
pub enum ConnAction {
    /// Wait for the next sample on the subscription.
    AwaitSample,
    /// Encode the sample just received and send it to the peer.
    Forward,
    /// Release the subscription and stop.
    Release,
    /// Nothing is left to do.
    Idle,
}

/// The connection's decision on one event: samples are forwarded one by
/// one, either endpoint failing closes the connection and releases its
/// subscription, and a closed connection stays closed.
pub fn step(state: ConnState, event: ConnEvent) -> (r: (ConnState, ConnAction))
    ensures
        state == ConnState::Closed ==> r == (ConnState::Closed, ConnAction::Idle),
        state != ConnState::Closed && (event == ConnEvent::SourceClosed || event
            == ConnEvent::SendFailed) ==> r == (ConnState::Closed, ConnAction::Release),
        state != ConnState::Closed && event == ConnEvent::SampleArrived ==> r == (
            ConnState::Relaying,
            ConnAction::Forward,
        ),
        state != ConnState::Closed && event == ConnEvent::SendSucceeded ==> r == (
            state,
            ConnAction::AwaitSample,
        ),
{
    match state {
        ConnState::Closed => (ConnState::Closed, ConnAction::Idle),
        _ => match event {
            ConnEvent::SourceClosed | ConnEvent::SendFailed => (
                ConnState::Closed,
                ConnAction::Release,
            ),
            ConnEvent::SampleArrived => (ConnState::Relaying, ConnAction::Forward),
            ConnEvent::SendSucceeded => (state, ConnAction::AwaitSample),
        },
    }
}

/// The liveness probe's fixed reply, independent of any other state.
pub fn ping_reply() -> (r: &'static str)
    ensures
        r@ == "pong\n"@,
{
    "pong\n"
}

} // verus!
