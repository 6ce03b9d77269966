//! Persistent WebSocket market-data clients for several cryptocurrency
//! exchanges, built around one generic, verified connection-management
//! engine.
//!
//! The engine is split into:
//!
//! * [`batch`] — the frame batcher: packs an ordered list of channel
//!   identifiers into the minimal sequence of wire commands that respect a
//!   per-exchange frame-size limit, never splitting or reordering a channel;
//! * [`supervisor`] — the connection supervisor: a state machine that owns
//!   the subscription set, replays it after every reconnect, schedules
//!   heartbeats, and classifies inbound frames through an exchange-supplied
//!   policy.  All socket and timer I/O is performed by an outside driver
//!   that feeds [`supervisor::Event`]s in and carries the returned
//!   [`supervisor::Action`]s out;
//! * [`policy`] — the two pure per-exchange plugin contracts: command
//!   encoding and inbound-frame classification;
//! * one module per exchange ([`bitmex`], [`bitget`], [`gate`], [`kraken`])
//!   binding a URL, a heartbeat policy, an encoder and a classifier into a
//!   client facade.
//!
//! JSON encoding and decoding is done by `serde_json` behind the small
//! trusted interface in [`json`].

use vstd::prelude::*;

pub mod batch;
pub mod bitget;
pub mod bitmex;
pub mod classify;
pub mod errors;
pub mod gate;
pub mod json;
pub mod kraken;
pub mod opcmd;
pub mod policy;
pub mod strutil;
pub mod supervisor;

pub use bitget::BitgetSwapWSClient;
pub use bitmex::BitmexWSClient;
pub use errors::WsError;
pub use gate::GateInverseSwapWSClient;
pub use gate::GateLinearSwapWSClient;
pub use kraken::KrakenWSClient;

verus! {

} // verus!
