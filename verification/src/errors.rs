//! The error taxonomy of the engine.

use vstd::prelude::*;

verus! {

/// Everything a client operation can report to its caller.
///
/// Transient transport faults are never surfaced through this type: the
/// supervisor absorbs them by reconnecting and replaying the subscription
/// set.
#[derive(Clone, Copy, Debug, PartialEq, Eq, Structural)]
pub enum WsError {
    /// A handshake or transport failure outlasted the configured retry
    /// budget; the client is dead.
    ConnectionError,
    /// A single channel identifier's encoded command exceeds the configured
    /// maximum frame size, so no command sequence can ever carry it.
    FrameSizeError,
    /// The exchange signalled a condition the classifier marks fatal; the
    /// client shuts down instead of retrying a rejected subscription.
    ProtocolViolation,
    /// The requested channel kind or candlestick interval does not exist on
    /// this exchange.
    Unsupported,
}

impl WsError {
    /// A short fixed description, for hosts that want to print the error.
    pub fn describe(&self) -> (r: &'static str)
        ensures
            r@.len() > 0,
    {
        proof {
            reveal_strlit("connection retry budget exhausted");
            reveal_strlit("encoded command exceeds the maximum frame size");
            reveal_strlit("fatal protocol condition reported by the exchange");
            reveal_strlit("not supported by this exchange");
        }
        match self {
            WsError::ConnectionError => "connection retry budget exhausted",
            WsError::FrameSizeError => "encoded command exceeds the maximum frame size",
            WsError::ProtocolViolation => "fatal protocol condition reported by the exchange",
            WsError::Unsupported => "not supported by this exchange",
        }
    }
}

} // verus!
