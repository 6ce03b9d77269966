//! Classification of inbound frames.
//!
//! A per-exchange classifier inspects one inbound text frame and sorts it
//! into one of five outcomes; the supervisor acts on the outcome and never
//! looks inside the frame itself.

use vstd::prelude::*;

verus! {

/// The outcome of classifying one inbound frame.
#[derive(Debug)]
pub enum MiscMessage {
    /// Protocol noise or an informational event: drop the frame.
    Misc,
    /// A heartbeat reply from the server: reset the heartbeat timer and
    /// drop the frame.
    Pong,
    /// A data frame: forward its text, unmodified, to the consumer.
    Normal,
    /// A server event that demands an immediate client reply: write the
    /// carried payload to the socket and drop the frame.
    Reply(String),
    /// An authoritative fatal condition: shut the client down rather than
    /// reconnect into the same rejection.
    Fatal,
}

/// The mathematical shadow of [`MiscMessage`]: the reply payload is a
/// character sequence.
pub enum MiscMessageView {
    Misc,
    Pong,
    Normal,
    Reply(Seq<char>),
    Fatal,
}

impl View for MiscMessage {
    type V = MiscMessageView;

    open spec fn view(&self) -> MiscMessageView {
        match self {
            MiscMessage::Misc => MiscMessageView::Misc,
            MiscMessage::Pong => MiscMessageView::Pong,
            MiscMessage::Normal => MiscMessageView::Normal,
            MiscMessage::Reply(p) => MiscMessageView::Reply(p@),
            MiscMessage::Fatal => MiscMessageView::Fatal,
        }
    }
}

} // verus!
