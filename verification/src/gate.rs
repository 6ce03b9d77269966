//! The clients for Gate's swap markets, inverse and linear.
//!
//! Gate addresses one stream per command: a channel `name:pair` becomes
//! `{"channel":"<name>","event":...,"payload":["<pair>"]}`.  The client
//! pings with a fixed `futures.ping` command and the server answers with
//! a `futures.pong` channel frame.

use vstd::prelude::*;
use vstd::string::*;
use crate::classify::{MiscMessage, MiscMessageView};
use crate::errors::WsError;
use crate::json::{json_parses, json_string_array, to_json_string_array};
use crate::policy::ExchangePolicy;
use crate::strutil::{chan_name, chan_pair, concat3, split_channel, str_eq};
use crate::supervisor::{
    spec_close, spec_subscribe_cmds, spec_subscribe_model, spec_unsubscribe_cmds,
    spec_unsubscribe_model, Action, ActionView, Config, ConnState, HeartbeatPolicy, Supervisor,
};

verus! {

/// The command text addressing one channel.
pub open spec fn gate_command_view(chan: Seq<char>, subscribe: bool) -> Seq<char> {
    "{\"channel\":\""@ + chan_name(chan) + "\",\"event\":\""@ + (if subscribe {
        "subscribe"@
    } else {
        "unsubscribe"@
    }) + "\",\"payload\":"@ + json_string_array(seq![chan_pair(chan)]) + "}"@
}

/// One command per channel, in order.
pub open spec fn gate_commands_view(chans: Seq<Seq<char>>, subscribe: bool) -> Seq<Seq<char>> {
    chans.map_values(|c: Seq<char>| gate_command_view(c, subscribe))
}

/// Renders the command addressing one channel.
pub fn channel_to_command(chan: &str, subscribe: bool) -> (r: String)
    ensures
        r@ == gate_command_view(chan@, subscribe),
{
    let split = split_channel(chan);
    let mut payload: Vec<String> = Vec::new();
    payload.push(split.1);
    proof {
        assert(payload.deep_view() =~= seq![chan_pair(chan@)]);
    }
    let mut s = String::from_str("{\"channel\":\"");
    s.append(split.0.as_str());
    s.append("\",\"event\":\"");
    s.append(if subscribe {
        "subscribe"
    } else {
        "unsubscribe"
    });
    s.append("\",\"payload\":");
    let arr = to_json_string_array(&payload);
    s.append(arr.as_str());
    s.append("}");
    s
}

/// Renders one command per channel, in order.
pub fn channels_to_commands(channels: &Vec<String>, subscribe: bool) -> (r: Vec<String>)
    ensures
        r.deep_view() == gate_commands_view(channels.deep_view(), subscribe),
{
    let mut out: Vec<String> = Vec::new();
    let mut i: usize = 0;
    while i < channels.len()
        invariant
            0 <= i <= channels@.len(),
            channels.deep_view().len() == channels@.len(),
            out.deep_view().len() == i,
            forall|j: int|
                0 <= j < i ==> out.deep_view()[j] == gate_command_view(
                    #[trigger] channels.deep_view()[j],
                    subscribe,
                ),
        decreases channels@.len() - i,
    {
        out.push(channel_to_command(channels[i].as_str(), subscribe));
        i = i + 1;
    }
    proof {
        assert(out.deep_view() =~= gate_commands_view(channels.deep_view(), subscribe));
    }
    out
}

/// The raw channel for one kind of stream on one contract.
pub open spec fn gate_channel(name: Seq<char>, pair: Seq<char>) -> Seq<char> {
    name + ":"@ + pair
}

pub open spec fn gate_channels(name: Seq<char>, pairs: Seq<Seq<char>>) -> Seq<Seq<char>> {
    pairs.map_values(|p: Seq<char>| gate_channel(name, p))
}

/// Builds the raw channel `<channel>:<pair>`.
pub fn to_raw_channel(channel: &str, pair: &str) -> (r: String)
    ensures
        r@ == gate_channel(channel@, pair@),
{
    concat3(channel, ":", pair)
}

fn build_channels(name: &str, pairs: &Vec<String>) -> (r: Vec<String>)
    ensures
        r.deep_view() == gate_channels(name@, pairs.deep_view()),
{
    let mut out: Vec<String> = Vec::new();
    let mut i: usize = 0;
    while i < pairs.len()
        invariant
            0 <= i <= pairs@.len(),
            pairs.deep_view().len() == pairs@.len(),
            out.deep_view().len() == i,
            forall|j: int|
                0 <= j < i ==> out.deep_view()[j] == gate_channel(
                    name@,
                    #[trigger] pairs.deep_view()[j],
                ),
        decreases pairs@.len() - i,
    {
        out.push(to_raw_channel(name, pairs[i].as_str()));
        i = i + 1;
    }
    proof {
        assert(out.deep_view() =~= gate_channels(name@, pairs.deep_view()));
    }
    out
}

/// The candlestick intervals Gate offers, in seconds.
pub open spec fn gate_valid_interval(interval: usize) -> bool {
    interval == 10 || interval == 60 || interval == 300 || interval == 900 || interval == 3600
        || interval == 14400 || interval == 28800 || interval == 86400 || interval == 604800
}

/// The interval token of one candlestick interval.
pub open spec fn gate_candle_token(interval: usize) -> Seq<char> {
    if interval == 10 {
        "10s"@
    } else if interval == 60 {
        "1m"@
    } else if interval == 300 {
        "5m"@
    } else if interval == 900 {
        "15m"@
    } else if interval == 3600 {
        "1h"@
    } else if interval == 14400 {
        "4h"@
    } else if interval == 28800 {
        "8h"@
    } else {
        if interval == 86400 {
            "1d"@
        } else {
            "7d"@
        }
    }
}

/// The raw candlestick channel for one contract: the interval token is
/// folded into the pair part.
pub open spec fn gate_candle_channel(market: Seq<char>, pair: Seq<char>, interval: usize) -> Seq<
    char,
> {
    market + ".candlesticks:"@ + gate_candle_token(interval) + "_"@ + pair
}

/// Builds the raw candlestick channel shared by Gate's markets.
pub fn to_candlestick_raw_channel_shared(market: &str, pair: &str, interval: usize) -> (r: String)
    requires
        gate_valid_interval(interval),
    ensures
        r@ == gate_candle_channel(market@, pair@, interval),
{
    let token: &str = if interval == 10 {
        "10s"
    } else if interval == 60 {
        "1m"
    } else if interval == 300 {
        "5m"
    } else if interval == 900 {
        "15m"
    } else if interval == 3600 {
        "1h"
    } else if interval == 14400 {
        "4h"
    } else if interval == 28800 {
        "8h"
    } else {
        if interval == 86400 {
            "1d"
        } else {
            "7d"
        }
    };
    let mut s = String::from_str(market);
    s.append(".candlesticks:");
    s.append(token);
    s.append("_");
    s.append(pair);
    s
}

/// Builds the raw candlestick channel for one futures contract.
pub fn to_candlestick_raw_channel(pair: &str, interval: usize) -> (r: String)
    requires
        gate_valid_interval(interval),
    ensures
        r@ == gate_candle_channel("futures"@, pair@, interval),
{
    to_candlestick_raw_channel_shared("futures", pair, interval)
}

fn is_valid_interval(interval: usize) -> (b: bool)
    ensures
        b == gate_valid_interval(interval),
{
    interval == 10 || interval == 60 || interval == 300 || interval == 900 || interval == 3600
        || interval == 14400 || interval == 28800 || interval == 86400 || interval == 604800
}

// ---------------------------------------------------------------------
// Classification.
// ---------------------------------------------------------------------

/// What the classifier reads out of one parsed frame.
pub struct GateFrameFacts {
    pub channel_text: Option<String>,
    pub event_text: Option<String>,
}

/// The mathematical shadow of [`GateFrameFacts`].
pub ghost struct GateFrameFactsView {
    pub channel_text: Option<Seq<char>>,
    pub event_text: Option<Seq<char>>,
}

impl View for GateFrameFacts {
    type V = GateFrameFactsView;

    open spec fn view(&self) -> GateFrameFactsView {
        GateFrameFactsView {
            channel_text: match self.channel_text {
                Some(c) => Some(c@),
                None => None,
            },
            event_text: match self.event_text {
                Some(e) => Some(e@),
                None => None,
            },
        }
    }
}

/// The facts a well-formed Gate frame parses to: the texts of its
/// top-level `channel` and `event` members.  They depend on the frame
/// text alone.
pub uninterp spec fn gate_facts_of(m: Seq<char>) -> GateFrameFactsView;

/// Relies on `serde_json::from_str::<Value>`, `Value::get` and
/// `Value::as_str`: `Some` exactly when the text parses, and the facts
/// read are the function [`gate_facts_of`] of the text alone; none of
/// the calls panics.
#[verifier::external_body]
fn read_frame_facts(msg: &str) -> (r: Option<GateFrameFacts>)
    ensures
        r is Some <==> json_parses(msg@),
        r matches Some(f) ==> f@ == gate_facts_of(msg@),
{
    let v: serde_json::Value = match serde_json::from_str(msg) {
        Ok(v) => v,
        Err(_) => return None,
    };
    Some(GateFrameFacts {
        channel_text: v.get("channel").and_then(|c| c.as_str()).map(|s| s.to_string()),
        event_text: v.get("event").and_then(|e| e.as_str()).map(|s| s.to_string()),
    })
}

/// The decision on a parsed frame: a `futures.pong` frame is the
/// heartbeat reply, an `update` event is market data, everything else is
/// noise.
pub open spec fn gate_outcome(f: GateFrameFactsView) -> MiscMessageView {
    if f.channel_text matches Some(c) && c == "futures.pong"@ {
        MiscMessageView::Pong
    } else if f.event_text matches Some(e) && e == "update"@ {
        MiscMessageView::Normal
    } else {
        MiscMessageView::Misc
    }
}

/// Decides [`gate_outcome`] on extracted facts.
pub fn classify_facts(f: &GateFrameFacts) -> (r: MiscMessage)
    ensures
        r@ == gate_outcome(f@),
{
    let pong = match &f.channel_text {
        Some(c) => str_eq(c.as_str(), "futures.pong"),
        None => false,
    };
    if pong {
        return MiscMessage::Pong;
    }
    let update = match &f.event_text {
        Some(e) => str_eq(e.as_str(), "update"),
        None => false,
    };
    if update {
        MiscMessage::Normal
    } else {
        MiscMessage::Misc
    }
}

/// What any classification of a Gate frame satisfies: unparseable noise
/// is ignorable, and a well-formed frame is classified exactly as
/// [`gate_outcome`] decides its facts.
pub open spec fn gate_classify_ok(m: Seq<char>, r: MiscMessageView) -> bool {
    &&& (!json_parses(m) ==> r == MiscMessageView::Misc)
    &&& (json_parses(m) ==> r == gate_outcome(gate_facts_of(m)))
}

/// Classifies one inbound Gate frame.
pub fn on_misc_msg(msg: &str) -> (r: MiscMessage)
    ensures
        gate_classify_ok(msg@, r@),
{
    match read_frame_facts(msg) {
        None => MiscMessage::Misc,
        Some(f) => classify_facts(&f),
    }
}

// ---------------------------------------------------------------------
// The policy and the two client facades.
// ---------------------------------------------------------------------

/// Gate's encoder and classifier, shared by the inverse and the linear
/// swap client.
pub struct GatePolicy;

impl ExchangePolicy for GatePolicy {
    open spec fn spec_fits(chan: Seq<char>) -> bool {
        true
    }

    open spec fn spec_commands(chans: Seq<Seq<char>>, subscribe: bool) -> Seq<Seq<char>> {
        gate_commands_view(chans, subscribe)
    }

    open spec fn classify_ok(frame: Seq<char>, outcome: MiscMessageView) -> bool {
        gate_classify_ok(frame, outcome)
    }

    fn fits(chan: &String) -> (b: bool) {
        true
    }

    fn commands(chans: &Vec<String>, subscribe: bool) -> (r: Vec<String>) {
        channels_to_commands(chans, subscribe)
    }

    fn classify(frame: &str) -> (m: MiscMessage) {
        on_misc_msg(frame)
    }
}

fn gate_config(url: &str) -> (c: Config)
    ensures
        c.url@ == url@,
        c.heartbeat matches Some(h) && h.interval_secs == 10 && h.payload@ == "{\"channel\":\"futures.ping\"}"@,
        c.retry_budget is None,
{
    Config {
        url: String::from_str(url),
        heartbeat: Some(
            HeartbeatPolicy {
                interval_secs: 10,
                payload: String::from_str("{\"channel\":\"futures.ping\"}"),
            },
        ),
        retry_budget: None,
    }
}

/// The WebSocket client for Gate's inverse (coin-settled) swap market.
pub struct GateInverseSwapWSClient {
    pub client: Supervisor<GatePolicy>,
}

/// The WebSocket client for Gate's linear (USDT-settled) swap market.
pub struct GateLinearSwapWSClient {
    pub client: Supervisor<GatePolicy>,
}

impl GateInverseSwapWSClient {
    /// A fresh, disconnected client wanting nothing.
    pub fn new() -> (c: Self)
        ensures
            c.client@.state == ConnState::Disconnected,
            c.client@.subs == Seq::<Seq<char>>::empty(),
            c.client@.failures == 0,
            c.client@.url == "wss://fx-ws.gateio.ws/v4/ws/btc"@,
            c.client@.heartbeat == Some((10 as nat, "{\"channel\":\"futures.ping\"}"@)),
            c.client@.retry_budget == Option::<nat>::None,
    {
        GateInverseSwapWSClient { client: Supervisor::new(gate_config("wss://fx-ws.gateio.ws/v4/ws/btc")) }
    }

    /// Subscribes raw channel identifiers.
    pub fn subscribe(&mut self, channels: &Vec<String>) -> (r: Result<Vec<Action>, WsError>)
        ensures
            r is Ok,
            match r {
                Ok(acts) => final(self).client@ == spec_subscribe_model(
                    old(self).client@,
                    channels.deep_view(),
                ) && acts.deep_view() == spec_subscribe_cmds::<GatePolicy>(
                    old(self).client@,
                    channels.deep_view(),
                ).map_values(|c: Seq<char>| ActionView::Write(c)),
                Err(_) => false,
            },
    {
        self.client.subscribe(channels)
    }

    /// Unsubscribes raw channel identifiers; unknown ones are ignored.
    pub fn unsubscribe(&mut self, channels: &Vec<String>) -> (r: Vec<Action>)
        ensures
            final(self).client@ == spec_unsubscribe_model(old(self).client@, channels.deep_view()),
            r.deep_view() == spec_unsubscribe_cmds::<GatePolicy>(
                old(self).client@,
                channels.deep_view(),
            ).map_values(|c: Seq<char>| ActionView::Write(c)),
    {
        self.client.unsubscribe(channels)
    }

    /// Subscribes the trade stream of each contract.
    pub fn subscribe_trade(&mut self, pairs: &Vec<String>) -> (r: Result<Vec<Action>, WsError>)
        ensures
            r is Ok,
            match r {
                Ok(acts) => final(self).client@ == spec_subscribe_model(
                    old(self).client@,
                    gate_channels("futures.trades"@, pairs.deep_view()),
                ) && acts.deep_view() == spec_subscribe_cmds::<GatePolicy>(
                    old(self).client@,
                    gate_channels("futures.trades"@, pairs.deep_view()),
                ).map_values(|c: Seq<char>| ActionView::Write(c)),
                Err(_) => false,
            },
    {
        let chans = build_channels("futures.trades", pairs);
        self.client.subscribe(&chans)
    }

    /// Subscribes the incremental order-book stream of each contract.
    pub fn subscribe_orderbook(&mut self, pairs: &Vec<String>) -> (r: Result<Vec<Action>, WsError>)
        ensures
            r is Ok,
            match r {
                Ok(acts) => final(self).client@ == spec_subscribe_model(
                    old(self).client@,
                    gate_channels("futures.order_book_update"@, pairs.deep_view()),
                ) && acts.deep_view() == spec_subscribe_cmds::<GatePolicy>(
                    old(self).client@,
                    gate_channels("futures.order_book_update"@, pairs.deep_view()),
                ).map_values(|c: Seq<char>| ActionView::Write(c)),
                Err(_) => false,
            },
    {
        let chans = build_channels("futures.order_book_update", pairs);
        self.client.subscribe(&chans)
    }

    /// Subscribes the order-book snapshot stream of each contract.
    pub fn subscribe_orderbook_topk(&mut self, pairs: &Vec<String>) -> (r: Result<
        Vec<Action>,
        WsError,
    >)
        ensures
            r is Ok,
            match r {
                Ok(acts) => final(self).client@ == spec_subscribe_model(
                    old(self).client@,
                    gate_channels("futures.order_book"@, pairs.deep_view()),
                ) && acts.deep_view() == spec_subscribe_cmds::<GatePolicy>(
                    old(self).client@,
                    gate_channels("futures.order_book"@, pairs.deep_view()),
                ).map_values(|c: Seq<char>| ActionView::Write(c)),
                Err(_) => false,
            },
    {
        let chans = build_channels("futures.order_book", pairs);
        self.client.subscribe(&chans)
    }

    /// Subscribes the best-bid-offer stream of each contract.
    pub fn subscribe_bbo(&mut self, pairs: &Vec<String>) -> (r: Result<Vec<Action>, WsError>)
        ensures
            r is Ok,
            match r {
                Ok(acts) => final(self).client@ == spec_subscribe_model(
                    old(self).client@,
                    gate_channels("futures.book_ticker"@, pairs.deep_view()),
                ) && acts.deep_view() == spec_subscribe_cmds::<GatePolicy>(
                    old(self).client@,
                    gate_channels("futures.book_ticker"@, pairs.deep_view()),
                ).map_values(|c: Seq<char>| ActionView::Write(c)),
                Err(_) => false,
            },
    {
        let chans = build_channels("futures.book_ticker", pairs);
        self.client.subscribe(&chans)
    }

    /// Subscribes the ticker stream of each contract.
    pub fn subscribe_ticker(&mut self, pairs: &Vec<String>) -> (r: Result<Vec<Action>, WsError>)
        ensures
            r is Ok,
            match r {
                Ok(acts) => final(self).client@ == spec_subscribe_model(
                    old(self).client@,
                    gate_channels("futures.tickers"@, pairs.deep_view()),
                ) && acts.deep_view() == spec_subscribe_cmds::<GatePolicy>(
                    old(self).client@,
                    gate_channels("futures.tickers"@, pairs.deep_view()),
                ).map_values(|c: Seq<char>| ActionView::Write(c)),
                Err(_) => false,
            },
    {
        let chans = build_channels("futures.tickers", pairs);
        self.client.subscribe(&chans)
    }

    /// Subscribes the candlestick stream of each contract; an interval
    /// Gate does not offer fails loudly and changes nothing.
    pub fn subscribe_candlestick(&mut self, pairs: &Vec<String>, interval: usize) -> (r: Result<
        Vec<Action>,
        WsError,
    >)
        ensures
            !gate_valid_interval(interval) ==> ((r matches Err(e) && e == WsError::Unsupported)
                && final(self).client@ == old(self).client@),
            gate_valid_interval(interval) ==> match r {
                Ok(acts) => final(self).client@ == spec_subscribe_model(
                    old(self).client@,
                    pairs.deep_view().map_values(
                        |p: Seq<char>| gate_candle_channel("futures"@, p, interval),
                    ),
                ) && acts.deep_view() == spec_subscribe_cmds::<GatePolicy>(
                    old(self).client@,
                    pairs.deep_view().map_values(
                        |p: Seq<char>| gate_candle_channel("futures"@, p, interval),
                    ),
                ).map_values(|c: Seq<char>| ActionView::Write(c)),
                Err(_) => false,
            },
    {
        if !is_valid_interval(interval) {
            return Err(WsError::Unsupported);
        }
        let chans = build_candle_channels(pairs, interval);
        self.client.subscribe(&chans)
    }

    /// Unconditional, idempotent shutdown.
    pub fn close(&mut self)
        ensures
            final(self).client@ == spec_close(old(self).client@),
    {
        self.client.close()
    }
}

fn build_candle_channels(pairs: &Vec<String>, interval: usize) -> (r: Vec<String>)
    requires
        gate_valid_interval(interval),
    ensures
        r.deep_view() == pairs.deep_view().map_values(
            |p: Seq<char>| gate_candle_channel("futures"@, p, interval),
        ),
{
    let mut out: Vec<String> = Vec::new();
    let mut i: usize = 0;
    while i < pairs.len()
        invariant
            gate_valid_interval(interval),
            0 <= i <= pairs@.len(),
            pairs.deep_view().len() == pairs@.len(),
            out.deep_view().len() == i,
            forall|j: int|
                0 <= j < i ==> out.deep_view()[j] == gate_candle_channel(
                    "futures"@,
                    #[trigger] pairs.deep_view()[j],
                    interval,
                ),
        decreases pairs@.len() - i,
    {
        out.push(to_candlestick_raw_channel(pairs[i].as_str(), interval));
        i = i + 1;
    }
    proof {
        assert(out.deep_view() =~= pairs.deep_view().map_values(
            |p: Seq<char>| gate_candle_channel("futures"@, p, interval),
        ));
    }
    out
}

impl GateLinearSwapWSClient {
    /// A fresh, disconnected client wanting nothing.
    pub fn new() -> (c: Self)
        ensures
            c.client@.state == ConnState::Disconnected,
            c.client@.subs == Seq::<Seq<char>>::empty(),
            c.client@.failures == 0,
            c.client@.url == "wss://fx-ws.gateio.ws/v4/ws/usdt"@,
            c.client@.heartbeat == Some((10 as nat, "{\"channel\":\"futures.ping\"}"@)),
            c.client@.retry_budget == Option::<nat>::None,
    {
        GateLinearSwapWSClient { client: Supervisor::new(gate_config("wss://fx-ws.gateio.ws/v4/ws/usdt")) }
    }

    /// Subscribes raw channel identifiers.
    pub fn subscribe(&mut self, channels: &Vec<String>) -> (r: Result<Vec<Action>, WsError>)
        ensures
            r is Ok,
            match r {
                Ok(acts) => final(self).client@ == spec_subscribe_model(
                    old(self).client@,
                    channels.deep_view(),
                ) && acts.deep_view() == spec_subscribe_cmds::<GatePolicy>(
                    old(self).client@,
                    channels.deep_view(),
                ).map_values(|c: Seq<char>| ActionView::Write(c)),
                Err(_) => false,
            },
    {
        self.client.subscribe(channels)
    }

    /// Unsubscribes raw channel identifiers; unknown ones are ignored.
    pub fn unsubscribe(&mut self, channels: &Vec<String>) -> (r: Vec<Action>)
        ensures
            final(self).client@ == spec_unsubscribe_model(old(self).client@, channels.deep_view()),
            r.deep_view() == spec_unsubscribe_cmds::<GatePolicy>(
                old(self).client@,
                channels.deep_view(),
            ).map_values(|c: Seq<char>| ActionView::Write(c)),
    {
        self.client.unsubscribe(channels)
    }

    /// Subscribes the trade stream of each contract.
    pub fn subscribe_trade(&mut self, pairs: &Vec<String>) -> (r: Result<Vec<Action>, WsError>)
        ensures
            r is Ok,
            match r {
                Ok(acts) => final(self).client@ == spec_subscribe_model(
                    old(self).client@,
                    gate_channels("futures.trades"@, pairs.deep_view()),
                ) && acts.deep_view() == spec_subscribe_cmds::<GatePolicy>(
                    old(self).client@,
                    gate_channels("futures.trades"@, pairs.deep_view()),
                ).map_values(|c: Seq<char>| ActionView::Write(c)),
                Err(_) => false,
            },
    {
        let chans = build_channels("futures.trades", pairs);
        self.client.subscribe(&chans)
    }

    /// Subscribes the incremental order-book stream of each contract.
    pub fn subscribe_orderbook(&mut self, pairs: &Vec<String>) -> (r: Result<Vec<Action>, WsError>)
        ensures
            r is Ok,
            match r {
                Ok(acts) => final(self).client@ == spec_subscribe_model(
                    old(self).client@,
                    gate_channels("futures.order_book_update"@, pairs.deep_view()),
                ) && acts.deep_view() == spec_subscribe_cmds::<GatePolicy>(
                    old(self).client@,
                    gate_channels("futures.order_book_update"@, pairs.deep_view()),
                ).map_values(|c: Seq<char>| ActionView::Write(c)),
                Err(_) => false,
            },
    {
        let chans = build_channels("futures.order_book_update", pairs);
        self.client.subscribe(&chans)
    }

    /// Subscribes the order-book snapshot stream of each contract.
    pub fn subscribe_orderbook_topk(&mut self, pairs: &Vec<String>) -> (r: Result<
        Vec<Action>,
        WsError,
    >)
        ensures
            r is Ok,
            match r {
                Ok(acts) => final(self).client@ == spec_subscribe_model(
                    old(self).client@,
                    gate_channels("futures.order_book"@, pairs.deep_view()),
                ) && acts.deep_view() == spec_subscribe_cmds::<GatePolicy>(
                    old(self).client@,
                    gate_channels("futures.order_book"@, pairs.deep_view()),
                ).map_values(|c: Seq<char>| ActionView::Write(c)),
                Err(_) => false,
            },
    {
        let chans = build_channels("futures.order_book", pairs);
        self.client.subscribe(&chans)
    }

    /// Subscribes the best-bid-offer stream of each contract.
    pub fn subscribe_bbo(&mut self, pairs: &Vec<String>) -> (r: Result<Vec<Action>, WsError>)
        ensures
            r is Ok,
            match r {
                Ok(acts) => final(self).client@ == spec_subscribe_model(
                    old(self).client@,
                    gate_channels("futures.book_ticker"@, pairs.deep_view()),
                ) && acts.deep_view() == spec_subscribe_cmds::<GatePolicy>(
                    old(self).client@,
                    gate_channels("futures.book_ticker"@, pairs.deep_view()),
                ).map_values(|c: Seq<char>| ActionView::Write(c)),
                Err(_) => false,
            },
    {
        let chans = build_channels("futures.book_ticker", pairs);
        self.client.subscribe(&chans)
    }

    /// Subscribes the ticker stream of each contract.
    pub fn subscribe_ticker(&mut self, pairs: &Vec<String>) -> (r: Result<Vec<Action>, WsError>)
        ensures
            r is Ok,
            match r {
                Ok(acts) => final(self).client@ == spec_subscribe_model(
                    old(self).client@,
                    gate_channels("futures.tickers"@, pairs.deep_view()),
                ) && acts.deep_view() == spec_subscribe_cmds::<GatePolicy>(
                    old(self).client@,
                    gate_channels("futures.tickers"@, pairs.deep_view()),
                ).map_values(|c: Seq<char>| ActionView::Write(c)),
                Err(_) => false,
            },
    {
        let chans = build_channels("futures.tickers", pairs);
        self.client.subscribe(&chans)
    }

    /// Subscribes the candlestick stream of each contract; an interval
    /// Gate does not offer fails loudly and changes nothing.
    pub fn subscribe_candlestick(&mut self, pairs: &Vec<String>, interval: usize) -> (r: Result<
        Vec<Action>,
        WsError,
    >)
        ensures
            !gate_valid_interval(interval) ==> ((r matches Err(e) && e == WsError::Unsupported)
                && final(self).client@ == old(self).client@),
            gate_valid_interval(interval) ==> match r {
                Ok(acts) => final(self).client@ == spec_subscribe_model(
                    old(self).client@,
                    pairs.deep_view().map_values(
                        |p: Seq<char>| gate_candle_channel("futures"@, p, interval),
                    ),
                ) && acts.deep_view() == spec_subscribe_cmds::<GatePolicy>(
                    old(self).client@,
                    pairs.deep_view().map_values(
                        |p: Seq<char>| gate_candle_channel("futures"@, p, interval),
                    ),
                ).map_values(|c: Seq<char>| ActionView::Write(c)),
                Err(_) => false,
            },
    {
        if !is_valid_interval(interval) {
            return Err(WsError::Unsupported);
        }
        let chans = build_candle_channels(pairs, interval);
        self.client.subscribe(&chans)
    }

    /// Unconditional, idempotent shutdown.
    pub fn close(&mut self)
        ensures
            final(self).client@ == spec_close(old(self).client@),
    {
        self.client.close()
    }
}

} // verus!
