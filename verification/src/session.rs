//! The decisions of a peer session: what a session does on each event of
//! its connection, its write queue and the node's shutdown. The caller
//! waits for the events and carries the actions out.

use vstd::prelude::*;

verus! {

/// Something that happened to a session.
#[derive(Debug, Clone, Copy, PartialEq, Eq, Structural)]
pub enum SessionEvent {
    /// Bytes to send came in on the write queue.
    Outgoing,
    /// The write queue was closed.
    QueueClosed,
    /// Bytes were sent to the peer.
    Sent,
    /// Sending to the peer failed.
    SendFailed,
    /// Bytes came in from the peer.
    Received,
    /// The peer closed the connection.
    PeerClosed,
    /// Receiving from the peer failed.
    ReceiveFailed,
    /// Received bytes were handled, with a reply to send.
    HandledWithReply,
    /// Received bytes were handled, with nothing to send back.
    Handled,
    /// Handling received bytes failed.
    HandlingFailed,
    /// The node is shutting down.
    Shutdown,
}

/// What a session does next.
#[derive(Debug, Clone, Copy, PartialEq, Eq, Structural)]
pub enum SessionAction {
    /// Send the pending bytes (from the queue, or the reply) to the peer.
    Send,
    /// Handle the bytes received.
    Handle,
    /// Wait for the next event.
    Continue,
    /// Close the connection and end the session.
    Close,
}

/// The session's decision on an event: bytes to send (from the queue or a
/// reply) are sent, received bytes are handled; the session ends when the
/// queue is closed, the connection fails or is closed by the peer, or the
/// node shuts down; a failure to handle received bytes does not end it.
pub open spec fn spec_session_step(event: SessionEvent) -> SessionAction {
    match event {
        SessionEvent::Outgoing => SessionAction::Send,
        SessionEvent::HandledWithReply => SessionAction::Send,
        SessionEvent::Received => SessionAction::Handle,
        SessionEvent::Sent => SessionAction::Continue,
        SessionEvent::Handled => SessionAction::Continue,
        SessionEvent::HandlingFailed => SessionAction::Continue,
        SessionEvent::QueueClosed => SessionAction::Close,
        SessionEvent::SendFailed => SessionAction::Close,
        SessionEvent::PeerClosed => SessionAction::Close,
        SessionEvent::ReceiveFailed => SessionAction::Close,
        SessionEvent::Shutdown => SessionAction::Close,
    }
}

/// Decide what the session does on `event`.
pub fn session_step(event: SessionEvent) -> (a: SessionAction)
    ensures
        a == spec_session_step(event),
{
    match event {
        SessionEvent::Outgoing => SessionAction::Send,
        SessionEvent::HandledWithReply => SessionAction::Send,
        SessionEvent::Received => SessionAction::Handle,
        SessionEvent::Sent => SessionAction::Continue,
        SessionEvent::Handled => SessionAction::Continue,
        SessionEvent::HandlingFailed => SessionAction::Continue,
        SessionEvent::QueueClosed => SessionAction::Close,
        SessionEvent::SendFailed => SessionAction::Close,
        SessionEvent::PeerClosed => SessionAction::Close,
        SessionEvent::ReceiveFailed => SessionAction::Close,
        SessionEvent::Shutdown => SessionAction::Close,
    }
}

/// A session ends exactly on the end of the write queue, a failure to send
/// or receive, the peer closing the connection, or shutdown; bytes to send
/// (queued or a reply) are sent, received bytes are handled, and a failure
/// to handle them does not end the session.
pub proof fn law_session_decisions(event: SessionEvent)
    ensures
        (spec_session_step(event) == SessionAction::Close) <==> (event == SessionEvent::QueueClosed
            || event == SessionEvent::SendFailed || event == SessionEvent::PeerClosed
            || event == SessionEvent::ReceiveFailed || event == SessionEvent::Shutdown),
        (spec_session_step(event) == SessionAction::Send) <==> (event == SessionEvent::Outgoing
            || event == SessionEvent::HandledWithReply),
        (spec_session_step(event) == SessionAction::Handle) <==> event == SessionEvent::Received,
        spec_session_step(SessionEvent::HandlingFailed) == SessionAction::Continue,
{
}

} // verus!
