//! The client for Bitget swap markets.
//!
//! Bitget bounds one wire command at 4096 bytes, pings with the literal
//! text `ping` every 30 seconds, and speaks the `op`/`args` command
//! dialect.

use vstd::prelude::*;
use vstd::string::*;
use crate::batch::{
    all_fit_alone, channels_to_batched_commands, fits_alone, spec_batched_commands, FrameLimits,
};
use crate::classify::{MiscMessage, MiscMessageView};
use crate::errors::WsError;
use crate::json::json_parses;
use crate::opcmd::{op_args_command, op_args_command_view, OpArgsEncoder};
use crate::policy::ExchangePolicy;
use crate::strutil::str_eq;
use crate::supervisor::{
    spec_close, spec_subscribe_cmds, spec_subscribe_model, spec_unsubscribe_cmds,
    spec_unsubscribe_model, sub_request_ok, Action, ActionView, Config, ConnState, HeartbeatPolicy,
    Supervisor,
};

verus! {

/// Bitget's frame bound: at most 4096 bytes per encoded command.
pub open spec fn bitget_limits() -> FrameLimits {
    FrameLimits { max_bytes: Some(4096usize), max_channels: None }
}

/// One identifier can be sent at all: its lone command respects the
/// bound both as a subscribe and as an unsubscribe.
pub open spec fn bitget_fits(chan: Seq<char>) -> bool {
    fits_alone::<OpArgsEncoder>(chan, true, bitget_limits()) && fits_alone::<OpArgsEncoder>(
        chan,
        false,
        bitget_limits(),
    )
}

/// The full command sequence for `chans`: greedy 4096-byte batches in the
/// `op`/`args` dialect.
pub open spec fn bitget_commands_view(chans: Seq<Seq<char>>, subscribe: bool) -> Seq<Seq<char>> {
    spec_batched_commands::<OpArgsEncoder>(chans, subscribe, bitget_limits())
}

/// Renders one command covering `chunk`.
pub fn topics_to_command(chunk: &Vec<String>, subscribe: bool) -> (r: String)
    ensures
        r@ == op_args_command_view(chunk.deep_view(), subscribe),
{
    op_args_command(chunk, subscribe)
}

fn frame_limits() -> (l: FrameLimits)
    ensures
        l == bitget_limits(),
{
    FrameLimits { max_bytes: Some(4096), max_channels: None }
}

/// Batches the identifiers into commands under Bitget's byte bound;
/// fails, exactly, when some single identifier alone breaks it.
pub fn channels_to_commands(channels: &Vec<String>, subscribe: bool) -> (r: Result<
    Vec<String>,
    WsError,
>)
    ensures
        match r {
            Ok(cmds) => all_fit_alone::<OpArgsEncoder>(
                channels.deep_view(),
                subscribe,
                bitget_limits(),
            ) && cmds.deep_view() == bitget_commands_view(channels.deep_view(), subscribe),
            Err(e) => e == WsError::FrameSizeError && !all_fit_alone::<OpArgsEncoder>(
                channels.deep_view(),
                subscribe,
                bitget_limits(),
            ),
        },
{
    let limits = frame_limits();
    channels_to_batched_commands::<OpArgsEncoder>(channels, subscribe, &limits)
}

/// Law: for identifiers that fit at all, the emitted commands carry
/// exactly the identifiers that went in — the greedy batches, each
/// non-empty and within the byte bound, concatenate back to the input in
/// order, and one command covers each batch.  In particular a replay
/// after a reconnect covers exactly the subscription set.
pub proof fn lemma_bitget_commands_cover(chans: Seq<Seq<char>>, subscribe: bool)
    requires
        forall|i: int| 0 <= i < chans.len() ==> bitget_fits(#[trigger] chans[i]),
    ensures
        ({
            let batches = crate::batch::greedy_batches::<OpArgsEncoder>(
                Seq::empty(),
                chans,
                subscribe,
                bitget_limits(),
            );
            &&& batches.flatten() == chans
            &&& forall|i: int| 0 <= i < batches.len() ==> (#[trigger] batches[i]).len() > 0
            &&& forall|i: int|
                0 <= i < batches.len() ==> crate::batch::batch_fits::<OpArgsEncoder>(
                    #[trigger] batches[i],
                    subscribe,
                    bitget_limits(),
                )
            &&& bitget_commands_view(chans, subscribe) == batches.map_values(
                |b: Seq<Seq<char>>| op_args_command_view(b, subscribe),
            )
        }),
{
    assert(all_fit_alone::<OpArgsEncoder>(chans, subscribe, bitget_limits())) by {
        assert(forall|i: int|
            0 <= i < chans.len() ==> fits_alone::<OpArgsEncoder>(
                #[trigger] chans[i],
                subscribe,
                bitget_limits(),
            ));
    }
    crate::batch::lemma_greedy_batches_cover::<OpArgsEncoder>(
        Seq::empty(),
        chans,
        subscribe,
        bitget_limits(),
    );
    assert(Seq::<Seq<char>>::empty() + chans =~= chans);
}

/// The raw channel for one kind of stream on one symbol.
pub open spec fn bitget_channel(name: Seq<char>, symbol: Seq<char>) -> Seq<char> {
    "swap/"@ + name + ":"@ + symbol
}

pub open spec fn bitget_channels(name: Seq<char>, symbols: Seq<Seq<char>>) -> Seq<Seq<char>> {
    symbols.map_values(|s: Seq<char>| bitget_channel(name, s))
}

/// Builds the raw channel `swap/<channel>:<symbol>`.
pub fn to_raw_channel(channel: &str, symbol: &str) -> (r: String)
    ensures
        r@ == bitget_channel(channel@, symbol@),
{
    let mut s = String::from_str("swap/");
    s.append(channel);
    s.append(":");
    s.append(symbol);
    s
}

fn build_channels(name: &str, symbols: &Vec<String>) -> (r: Vec<String>)
    ensures
        r.deep_view() == bitget_channels(name@, symbols.deep_view()),
{
    let mut out: Vec<String> = Vec::new();
    let mut i: usize = 0;
    while i < symbols.len()
        invariant
            0 <= i <= symbols@.len(),
            symbols.deep_view().len() == symbols@.len(),
            out.deep_view().len() == i,
            forall|j: int|
                0 <= j < i ==> out.deep_view()[j] == bitget_channel(
                    name@,
                    #[trigger] symbols.deep_view()[j],
                ),
        decreases symbols@.len() - i,
    {
        out.push(to_raw_channel(name, symbols[i].as_str()));
        i = i + 1;
    }
    proof {
        assert(out.deep_view() =~= bitget_channels(name@, symbols.deep_view()));
    }
    out
}

/// The candlestick intervals Bitget offers, in seconds.
pub open spec fn bitget_valid_interval(interval: usize) -> bool {
    interval == 60 || interval == 300 || interval == 900 || interval == 1800 || interval == 3600
        || interval == 14400 || interval == 43200 || interval == 86400 || interval == 604800
}

/// The channel-name token of one candlestick interval.
pub open spec fn bitget_candle_token(interval: usize) -> Seq<char> {
    if interval == 60 {
        "candle60s"@
    } else if interval == 300 {
        "candle300s"@
    } else if interval == 900 {
        "candle900s"@
    } else if interval == 1800 {
        "candle1800s"@
    } else if interval == 3600 {
        "candle3600s"@
    } else if interval == 14400 {
        "candle14400s"@
    } else if interval == 43200 {
        "candle43200s"@
    } else if interval == 86400 {
        "candle86400s"@
    } else {
        "candle604800s"@
    }
}

/// Builds the raw candlestick channel for one symbol.
pub fn to_candlestick_raw_channel(symbol: &str, interval: usize) -> (r: String)
    requires
        bitget_valid_interval(interval),
    ensures
        r@ == bitget_channel(bitget_candle_token(interval), symbol@),
{
    let token: &str = if interval == 60 {
        "candle60s"
    } else if interval == 300 {
        "candle300s"
    } else if interval == 900 {
        "candle900s"
    } else if interval == 1800 {
        "candle1800s"
    } else if interval == 3600 {
        "candle3600s"
    } else if interval == 14400 {
        "candle14400s"
    } else if interval == 43200 {
        "candle43200s"
    } else if interval == 86400 {
        "candle86400s"
    } else {
        "candle604800s"
    };
    to_raw_channel(token, symbol)
}

fn is_valid_interval(interval: usize) -> (b: bool)
    ensures
        b == bitget_valid_interval(interval),
{
    interval == 60 || interval == 300 || interval == 900 || interval == 1800 || interval == 3600
        || interval == 14400 || interval == 43200 || interval == 86400 || interval == 604800
}

// ---------------------------------------------------------------------
// Classification.
// ---------------------------------------------------------------------

/// What the classifier reads out of one parsed frame.
pub struct BitgetFrameFacts {
    pub has_event: bool,
    pub event_text: Option<String>,
    pub has_table: bool,
    pub has_data: bool,
    pub data_len: Option<usize>,
}

/// The mathematical shadow of [`BitgetFrameFacts`].
pub ghost struct BitgetFrameFactsView {
    pub has_event: bool,
    pub event_text: Option<Seq<char>>,
    pub has_table: bool,
    pub has_data: bool,
    pub data_len: Option<int>,
}

impl View for BitgetFrameFacts {
    type V = BitgetFrameFactsView;

    open spec fn view(&self) -> BitgetFrameFactsView {
        BitgetFrameFactsView {
            has_event: self.has_event,
            event_text: match self.event_text {
                Some(e) => Some(e@),
                None => None,
            },
            has_table: self.has_table,
            has_data: self.has_data,
            data_len: match self.data_len {
                Some(n) => Some(n as int),
                None => None,
            },
        }
    }
}

/// The facts a well-formed Bitget frame parses to: whether `event`,
/// `table` and `data` members exist, the `event` text, and the length of
/// a `data` array.  They depend on the frame text alone.
pub uninterp spec fn bitget_facts_of(m: Seq<char>) -> BitgetFrameFactsView;

/// Relies on `serde_json::from_str::<Value>`, `Value::get`,
/// `Value::as_str` and `Value::as_array`: `Some` exactly when the text
/// parses, and the facts read are the function [`bitget_facts_of`] of
/// the text alone; none of the calls panics.
#[verifier::external_body]
fn read_frame_facts(msg: &str) -> (r: Option<BitgetFrameFacts>)
    ensures
        r is Some <==> json_parses(msg@),
        r matches Some(f) ==> f@ == bitget_facts_of(msg@),
{
    let v: serde_json::Value = match serde_json::from_str(msg) {
        Ok(v) => v,
        Err(_) => return None,
    };
    Some(BitgetFrameFacts {
        has_event: v.get("event").is_some(),
        event_text: v.get("event").and_then(|e| e.as_str()).map(|s| s.to_string()),
        has_table: v.get("table").is_some(),
        has_data: v.get("data").is_some(),
        data_len: v.get("data").and_then(|d| d.as_array()).map(|a| a.len()),
    })
}

/// The decision on a parsed frame: an `error` event is fatal, any other
/// event and any `action` frame is noise, and a `table`+`data` frame is
/// market data unless its data array is empty.
pub open spec fn bitget_outcome(f: BitgetFrameFactsView) -> MiscMessageView {
    if f.has_event {
        match f.event_text {
            Some(e) => if e == "error"@ {
                MiscMessageView::Fatal
            } else {
                MiscMessageView::Misc
            },
            None => MiscMessageView::Misc,
        }
    } else if f.has_table && f.has_data {
        if f.data_len == Some(0int) {
            MiscMessageView::Misc
        } else {
            MiscMessageView::Normal
        }
    } else {
        MiscMessageView::Misc
    }
}

/// Decides [`bitget_outcome`] on extracted facts.
pub fn classify_facts(f: &BitgetFrameFacts) -> (r: MiscMessage)
    ensures
        r@ == bitget_outcome(f@),
{
    if f.has_event {
        match &f.event_text {
            Some(e) => {
                if str_eq(e.as_str(), "error") {
                    MiscMessage::Fatal
                } else {
                    MiscMessage::Misc
                }
            },
            None => MiscMessage::Misc,
        }
    } else if f.has_table && f.has_data {
        let empty = match f.data_len {
            Some(n) => n == 0,
            None => false,
        };
        if empty {
            MiscMessage::Misc
        } else {
            MiscMessage::Normal
        }
    } else {
        MiscMessage::Misc
    }
}

/// What any classification of a Bitget frame satisfies: the literal
/// `pong` is the heartbeat reply, unparseable noise is ignorable, and
/// any other well-formed frame is classified exactly as
/// [`bitget_outcome`] decides its facts.
pub open spec fn bitget_classify_ok(m: Seq<char>, r: MiscMessageView) -> bool {
    &&& (m == "pong"@ <==> r == MiscMessageView::Pong)
    &&& (m != "pong"@ && !json_parses(m) ==> r == MiscMessageView::Misc)
    &&& (m != "pong"@ && json_parses(m) ==> r == bitget_outcome(bitget_facts_of(m)))
}

/// Classifies one inbound Bitget frame.
pub fn on_misc_msg(msg: &str) -> (r: MiscMessage)
    ensures
        bitget_classify_ok(msg@, r@),
{
    if str_eq(msg, "pong") {
        return MiscMessage::Pong;
    }
    match read_frame_facts(msg) {
        None => MiscMessage::Misc,
        Some(f) => {
            let r = classify_facts(&f);
            proof {
                assert(r@ != MiscMessageView::Pong);
            }
            r
        },
    }
}

// ---------------------------------------------------------------------
// The policy and the client facade.
// ---------------------------------------------------------------------

/// Bitget's encoder and classifier, plugged into the generic supervisor.
pub struct BitgetSwapPolicy;

impl ExchangePolicy for BitgetSwapPolicy {
    open spec fn spec_fits(chan: Seq<char>) -> bool {
        bitget_fits(chan)
    }

    open spec fn spec_commands(chans: Seq<Seq<char>>, subscribe: bool) -> Seq<Seq<char>> {
        bitget_commands_view(chans, subscribe)
    }

    open spec fn classify_ok(frame: Seq<char>, outcome: MiscMessageView) -> bool {
        bitget_classify_ok(frame, outcome)
    }

    fn fits(chan: &String) -> (b: bool) {
        let limits = frame_limits();
        let mut solo: Vec<String> = Vec::new();
        solo.push(chan.clone());
        proof {
            assert(solo.deep_view() =~= seq![chan@]);
        }
        let sub_cmd = op_args_command(&solo, true);
        let unsub_cmd = op_args_command(&solo, false);
        let a = sub_cmd.as_str().as_bytes().len();
        let b = unsub_cmd.as_str().as_bytes().len();
        proof {
            broadcast use vstd::slice::axiom_spec_len;

        }
        a <= 4096 && b <= 4096
    }

    fn commands(chans: &Vec<String>, subscribe: bool) -> (r: Vec<String>) {
        let limits = frame_limits();
        proof {
            assert forall|i: int|
                0 <= i < chans.deep_view().len() implies fits_alone::<OpArgsEncoder>(
                #[trigger] chans.deep_view()[i],
                subscribe,
                bitget_limits(),
            ) by {
                assert(bitget_fits(chans.deep_view()[i]));
            }
        }
        match channels_to_batched_commands::<OpArgsEncoder>(chans, subscribe, &limits) {
            Ok(cmds) => cmds,
            Err(_) => {
                proof {
                    assert(false);
                }
                Vec::new()
            },
        }
    }

    fn classify(frame: &str) -> (m: MiscMessage) {
        on_misc_msg(frame)
    }
}

/// The WebSocket client for Bitget swap markets.
pub struct BitgetSwapWSClient {
    pub client: Supervisor<BitgetSwapPolicy>,
}

impl BitgetSwapWSClient {
    /// A fresh, disconnected client wanting nothing.
    pub fn new() -> (c: Self)
        ensures
            c.client@.state == ConnState::Disconnected,
            c.client@.subs == Seq::<Seq<char>>::empty(),
            c.client@.failures == 0,
            c.client@.url == "wss://csocketapi.bitget.com/ws/v1"@,
            c.client@.heartbeat == Some((30 as nat, "ping"@)),
            c.client@.retry_budget == Option::<nat>::None,
    {
        let cfg = Config {
            url: String::from_str("wss://csocketapi.bitget.com/ws/v1"),
            heartbeat: Some(
                HeartbeatPolicy { interval_secs: 30, payload: String::from_str("ping") },
            ),
            retry_budget: None,
        };
        BitgetSwapWSClient { client: Supervisor::new(cfg) }
    }

    /// Subscribes raw channel identifiers.
    pub fn subscribe(&mut self, channels: &Vec<String>) -> (r: Result<Vec<Action>, WsError>)
        ensures
            match r {
                Ok(acts) => sub_request_ok::<BitgetSwapPolicy>(
                    old(self).client@,
                    channels.deep_view(),
                ) && final(self).client@ == spec_subscribe_model(
                    old(self).client@,
                    channels.deep_view(),
                ) && acts.deep_view() == spec_subscribe_cmds::<BitgetSwapPolicy>(
                    old(self).client@,
                    channels.deep_view(),
                ).map_values(|c: Seq<char>| ActionView::Write(c)),
                Err(e) => e == WsError::FrameSizeError && !sub_request_ok::<BitgetSwapPolicy>(
                    old(self).client@,
                    channels.deep_view(),
                ) && final(self).client@ == old(self).client@,
            },
    {
        self.client.subscribe(channels)
    }

    /// Unsubscribes raw channel identifiers; unknown ones are ignored.
    pub fn unsubscribe(&mut self, channels: &Vec<String>) -> (r: Vec<Action>)
        ensures
            final(self).client@ == spec_unsubscribe_model(old(self).client@, channels.deep_view()),
            r.deep_view() == spec_unsubscribe_cmds::<BitgetSwapPolicy>(
                old(self).client@,
                channels.deep_view(),
            ).map_values(|c: Seq<char>| ActionView::Write(c)),
    {
        self.client.unsubscribe(channels)
    }

    /// Subscribes the trade stream of each symbol.
    pub fn subscribe_trade(&mut self, symbols: &Vec<String>) -> (r: Result<Vec<Action>, WsError>)
        ensures
            match r {
                Ok(acts) => final(self).client@ == spec_subscribe_model(
                    old(self).client@,
                    bitget_channels("trade"@, symbols.deep_view()),
                ) && acts.deep_view() == spec_subscribe_cmds::<BitgetSwapPolicy>(
                    old(self).client@,
                    bitget_channels("trade"@, symbols.deep_view()),
                ).map_values(|c: Seq<char>| ActionView::Write(c)),
                Err(e) => e == WsError::FrameSizeError && final(self).client@ == old(self).client@,
            },
    {
        let chans = build_channels("trade", symbols);
        self.client.subscribe(&chans)
    }

    /// Subscribes the ticker stream of each symbol.
    pub fn subscribe_ticker(&mut self, symbols: &Vec<String>) -> (r: Result<Vec<Action>, WsError>)
        ensures
            match r {
                Ok(acts) => final(self).client@ == spec_subscribe_model(
                    old(self).client@,
                    bitget_channels("ticker"@, symbols.deep_view()),
                ) && acts.deep_view() == spec_subscribe_cmds::<BitgetSwapPolicy>(
                    old(self).client@,
                    bitget_channels("ticker"@, symbols.deep_view()),
                ).map_values(|c: Seq<char>| ActionView::Write(c)),
                Err(e) => e == WsError::FrameSizeError && final(self).client@ == old(self).client@,
            },
    {
        let chans = build_channels("ticker", symbols);
        self.client.subscribe(&chans)
    }

    /// Subscribes the incremental order-book stream of each symbol.
    pub fn subscribe_orderbook(&mut self, symbols: &Vec<String>) -> (r: Result<
        Vec<Action>,
        WsError,
    >)
        ensures
            match r {
                Ok(acts) => final(self).client@ == spec_subscribe_model(
                    old(self).client@,
                    bitget_channels("depth"@, symbols.deep_view()),
                ) && acts.deep_view() == spec_subscribe_cmds::<BitgetSwapPolicy>(
                    old(self).client@,
                    bitget_channels("depth"@, symbols.deep_view()),
                ).map_values(|c: Seq<char>| ActionView::Write(c)),
                Err(e) => e == WsError::FrameSizeError && final(self).client@ == old(self).client@,
            },
    {
        let chans = build_channels("depth", symbols);
        self.client.subscribe(&chans)
    }

    /// Subscribes the top-five order-book snapshot of each symbol.
    pub fn subscribe_orderbook_topk(&mut self, symbols: &Vec<String>) -> (r: Result<
        Vec<Action>,
        WsError,
    >)
        ensures
            match r {
                Ok(acts) => final(self).client@ == spec_subscribe_model(
                    old(self).client@,
                    bitget_channels("depth5"@, symbols.deep_view()),
                ) && acts.deep_view() == spec_subscribe_cmds::<BitgetSwapPolicy>(
                    old(self).client@,
                    bitget_channels("depth5"@, symbols.deep_view()),
                ).map_values(|c: Seq<char>| ActionView::Write(c)),
                Err(e) => e == WsError::FrameSizeError && final(self).client@ == old(self).client@,
            },
    {
        let chans = build_channels("depth5", symbols);
        self.client.subscribe(&chans)
    }

    /// Bitget has no best-bid-offer channel: the call fails loudly and
    /// changes nothing.
    pub fn subscribe_bbo(&mut self, symbols: &Vec<String>) -> (r: Result<Vec<Action>, WsError>)
        ensures
            r matches Err(e) && e == WsError::Unsupported,
            final(self).client@ == old(self).client@,
    {
        let _ = symbols;
        Err(WsError::Unsupported)
    }

    /// Subscribes the candlestick stream of each symbol; an interval
    /// Bitget does not offer fails loudly and changes nothing.
    pub fn subscribe_candlestick(&mut self, symbols: &Vec<String>, interval: usize) -> (r: Result<
        Vec<Action>,
        WsError,
    >)
        ensures
            !bitget_valid_interval(interval) ==> ((r matches Err(e) && e == WsError::Unsupported)
                && final(self).client@ == old(self).client@),
            bitget_valid_interval(interval) ==> match r {
                Ok(acts) => final(self).client@ == spec_subscribe_model(
                    old(self).client@,
                    bitget_channels(bitget_candle_token(interval), symbols.deep_view()),
                ) && acts.deep_view() == spec_subscribe_cmds::<BitgetSwapPolicy>(
                    old(self).client@,
                    bitget_channels(bitget_candle_token(interval), symbols.deep_view()),
                ).map_values(|c: Seq<char>| ActionView::Write(c)),
                Err(e) => e == WsError::FrameSizeError && final(self).client@ == old(self).client@,
            },
    {
        if !is_valid_interval(interval) {
            return Err(WsError::Unsupported);
        }
        let mut chans: Vec<String> = Vec::new();
        let mut i: usize = 0;
        while i < symbols.len()
            invariant
                bitget_valid_interval(interval),
                0 <= i <= symbols@.len(),
                symbols.deep_view().len() == symbols@.len(),
                chans.deep_view().len() == i,
                forall|j: int|
                    0 <= j < i ==> chans.deep_view()[j] == bitget_channel(
                        bitget_candle_token(interval),
                        #[trigger] symbols.deep_view()[j],
                    ),
            decreases symbols@.len() - i,
        {
            chans.push(to_candlestick_raw_channel(symbols[i].as_str(), interval));
            i = i + 1;
        }
        proof {
            assert(chans.deep_view() =~= bitget_channels(
                bitget_candle_token(interval),
                symbols.deep_view(),
            ));
        }
        self.client.subscribe(&chans)
    }

    /// Unconditional, idempotent shutdown.
    pub fn close(&mut self)
        ensures
            final(self).client@ == spec_close(old(self).client@),
    {
        self.client.close()
    }
}

} // verus!
