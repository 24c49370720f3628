//! The decision core of the websocket bridge.
//!
//! The surrounding application reads frames from the socket and drains the
//! outbound buffer; for every inbound frame it asks
//! [`elbow_ws_decision`] what to do.  The transport work itself — sockets,
//! handshakes, waiting — stays with the application.

use vstd::prelude::*;

verus! {

/// The shape of an inbound frame, as far as the bridge cares.
#[derive(Debug, PartialEq, Eq, Structural, Clone, Copy)]
pub enum ElbowFrameKind {
    Close,
    Text,
    Binary,
    Other,
}

/// What the bridge does with an inbound frame.
#[derive(Debug, PartialEq, Eq, Structural, Clone, Copy)]
pub enum ElbowWsAction {
    /// Close the inbound buffer, wake the shutdown waiters, stop reading.
    CloseQuietly,
    /// Append the frame's payload to the inbound buffer.
    WriteIntoBuffer,
    /// Close the inbound buffer, answer with a close frame, shut the
    /// socket down, stop reading.
    CloseWithFrame,
}

/// The bridge's reaction to one inbound frame: payload frames feed the
/// buffer, a close frame ends the session quietly, anything else ends it
/// with a close frame of its own.
pub fn elbow_ws_decision(frame: ElbowFrameKind) -> (r: ElbowWsAction)
    ensures
        frame is Close ==> r is CloseQuietly,
        frame is Text || frame is Binary ==> r is WriteIntoBuffer,
        frame is Other ==> r is CloseWithFrame,
{
    match frame {
        ElbowFrameKind::Close => ElbowWsAction::CloseQuietly,
        ElbowFrameKind::Text => ElbowWsAction::WriteIntoBuffer,
        ElbowFrameKind::Binary => ElbowWsAction::WriteIntoBuffer,
        ElbowFrameKind::Other => ElbowWsAction::CloseWithFrame,
    }
}

} // verus!
