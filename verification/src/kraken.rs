//! The client for Kraken's spot market.
//!
//! Kraken's commands group the pairs of one stream kind into a single
//! JSON command per kind.  The server drives the heartbeat itself: a
//! `heartbeat` event demands a `ping` reply, so no client-initiated timer
//! is configured.

use vstd::prelude::*;
use vstd::string::*;
use crate::classify::{MiscMessage, MiscMessageView};
use crate::errors::WsError;
use crate::json::{json_parses, json_string_array, to_json_string_array};
use crate::policy::ExchangePolicy;
use crate::strutil::{chan_name, chan_pair, concat3, split_channel, str_eq, vec_contains_str};
use crate::supervisor::{
    new_ones, spec_close, spec_subscribe_cmds, spec_subscribe_model, spec_unsubscribe_cmds,
    spec_unsubscribe_model, Action, ActionView, Config, ConnState, Supervisor,
};

verus! {

/// The pairs of the channels whose name is `name`, in channel order.
pub open spec fn pairs_of(name: Seq<char>, chans: Seq<Seq<char>>) -> Seq<Seq<char>>
    decreases chans.len(),
{
    if chans.len() == 0 {
        Seq::empty()
    } else {
        (if chan_name(chans[0]) == name {
            seq![chan_pair(chans[0])]
        } else {
            Seq::empty()
        }) + pairs_of(name, chans.drop_first())
    }
}

/// The distinct stream names of the channels, in first-appearance order.
pub open spec fn names_of(chans: Seq<Seq<char>>) -> Seq<Seq<char>> {
    new_ones(Seq::empty(), chans.map_values(|c: Seq<char>| chan_name(c)))
}

/// The command text grouping `pairs` under one stream name.
pub open spec fn kraken_command_view(name: Seq<char>, pairs: Seq<Seq<char>>, subscribe: bool) -> Seq<
    char,
> {
    "{\"event\":\""@ + (if subscribe {
        "subscribe"@
    } else {
        "unsubscribe"@
    }) + "\",\"pair\":"@ + json_string_array(pairs) + ",\"subscription\":{\"name\":\""@ + name
        + "\"}}"@
}

/// Renders one command grouping `pairs` under `name`.
pub fn name_pairs_to_command(name: &str, pairs: &Vec<String>, subscribe: bool) -> (r: String)
    ensures
        r@ == kraken_command_view(name@, pairs.deep_view(), subscribe),
{
    let mut s = String::from_str("{\"event\":\"");
    s.append(if subscribe {
        "subscribe"
    } else {
        "unsubscribe"
    });
    s.append("\",\"pair\":");
    let arr = to_json_string_array(pairs);
    s.append(arr.as_str());
    s.append(",\"subscription\":{\"name\":\"");
    s.append(name);
    s.append("\"}}");
    s
}

/// One command per distinct stream name, in first-appearance order, each
/// grouping that stream's pairs in channel order.
pub open spec fn kraken_commands_view(chans: Seq<Seq<char>>, subscribe: bool) -> Seq<Seq<char>> {
    names_of(chans).map_values(
        |n: Seq<char>| kraken_command_view(n, pairs_of(n, chans), subscribe),
    )
}

/// Groups the channels by stream name and renders one command per name.
pub fn channels_to_commands(channels: &Vec<String>, subscribe: bool) -> (r: Vec<String>)
    ensures
        r.deep_view() == kraken_commands_view(channels.deep_view(), subscribe),
{
    let ghost cv = channels.deep_view();
    let ghost mapped = cv.map_values(|c: Seq<char>| chan_name(c));
    let mut names: Vec<String> = Vec::new();
    let mut i: usize = 0;
    proof {
        assert(mapped.skip(0) =~= mapped);
        assert(names.deep_view() =~= Seq::<Seq<char>>::empty());
        assert(names.deep_view() + new_ones(names.deep_view(), mapped) =~= new_ones(
            names.deep_view(),
            mapped,
        ));
        assert(Seq::<Seq<char>>::empty() =~= names.deep_view());
    }
    while i < channels.len()
        invariant
            0 <= i <= channels@.len(),
            cv == channels.deep_view(),
            cv.len() == channels@.len(),
            mapped == cv.map_values(|c: Seq<char>| chan_name(c)),
            mapped.len() == cv.len(),
            new_ones(Seq::empty(), mapped) == names.deep_view() + new_ones(
                names.deep_view(),
                mapped.skip(i as int),
            ),
        decreases channels@.len() - i,
    {
        let ghost acc = names.deep_view();
        let ghost rest = mapped.skip(i as int);
        proof {
            assert(rest.len() > 0);
            assert(rest[0] == mapped[i as int]);
            assert(mapped[i as int] == chan_name(cv[i as int]));
            assert(cv[i as int] == channels@[i as int]@);
            assert(rest.drop_first() =~= mapped.skip(i as int + 1));
        }
        let split = split_channel(channels[i].as_str());
        let present = vec_contains_str(&names, split.0.as_str());
        let ghost old_names = names.deep_view();
        if !present {
            proof {
                assert(!acc.contains(rest[0]));
                assert(new_ones(acc, rest) == seq![rest[0]] + new_ones(
                    acc.push(rest[0]),
                    rest.drop_first(),
                ));
            }
            names.push(split.0);
            proof {
                assert(names.deep_view() =~= old_names.push(rest[0]));
                assert(old_names + (seq![rest[0]] + new_ones(
                    acc.push(rest[0]),
                    rest.drop_first(),
                )) =~= names.deep_view() + new_ones(acc.push(rest[0]), rest.drop_first()));
                assert(acc.push(rest[0]) =~= names.deep_view());
            }
        } else {
            proof {
                assert(acc.contains(rest[0]));
                assert(new_ones(acc, rest) == new_ones(acc, rest.drop_first()));
            }
        }
        i = i + 1;
    }
    proof {
        assert(mapped.skip(mapped.len() as int) =~= Seq::<Seq<char>>::empty());
        assert(new_ones(names.deep_view(), mapped.skip(mapped.len() as int)) =~= Seq::<
            Seq<char>,
        >::empty());
        assert(names.deep_view() + Seq::<Seq<char>>::empty() =~= names.deep_view());
        assert(names_of(cv) == names.deep_view());
    }
    let mut out: Vec<String> = Vec::new();
    let mut k: usize = 0;
    while k < names.len()
        invariant
            0 <= k <= names@.len(),
            cv == channels.deep_view(),
            cv.len() == channels@.len(),
            names.deep_view() == names_of(cv),
            names.deep_view().len() == names@.len(),
            out.deep_view().len() == k,
            forall|t: int|
                0 <= t < k ==> out.deep_view()[t] == kraken_command_view(
                    #[trigger] names.deep_view()[t],
                    pairs_of(names.deep_view()[t], cv),
                    subscribe,
                ),
        decreases names@.len() - k,
    {
        let ghost nk = names.deep_view()[k as int];
        let mut pairs: Vec<String> = Vec::new();
        let mut j: usize = 0;
        proof {
            assert(cv.skip(0) =~= cv);
            assert(pairs.deep_view() =~= Seq::<Seq<char>>::empty());
            assert(Seq::<Seq<char>>::empty() + pairs_of(nk, cv) =~= pairs_of(nk, cv));
        }
        while j < channels.len()
            invariant
                0 <= j <= channels@.len(),
                0 <= k < names@.len(),
                cv == channels.deep_view(),
                cv.len() == channels@.len(),
                names.deep_view().len() == names@.len(),
                nk == names.deep_view()[k as int],
                pairs_of(nk, cv) == pairs.deep_view() + pairs_of(nk, cv.skip(j as int)),
            decreases channels@.len() - j,
        {
            let ghost rest = cv.skip(j as int);
            proof {
                assert(rest.len() > 0);
                assert(rest[0] == cv[j as int]);
                assert(cv[j as int] == channels@[j as int]@);
                assert(rest.drop_first() =~= cv.skip(j as int + 1));
            }
            let split = split_channel(channels[j].as_str());
            let ghost old_pairs = pairs.deep_view();
            let hit = str_eq(split.0.as_str(), names[k].as_str());
            if hit {
                proof {
                    assert(chan_name(rest[0]) == nk);
                    assert(pairs_of(nk, rest) == seq![chan_pair(rest[0])] + pairs_of(
                        nk,
                        rest.drop_first(),
                    ));
                }
                pairs.push(split.1);
                proof {
                    assert(pairs.deep_view() =~= old_pairs.push(chan_pair(rest[0])));
                    assert(old_pairs + (seq![chan_pair(rest[0])] + pairs_of(
                        nk,
                        rest.drop_first(),
                    )) =~= pairs.deep_view() + pairs_of(nk, rest.drop_first()));
                }
            } else {
                proof {
                    assert(chan_name(rest[0]) != nk);
                    assert(pairs_of(nk, rest) == pairs_of(nk, rest.drop_first()));
                }
            }
            j = j + 1;
        }
        proof {
            assert(cv.skip(cv.len() as int) =~= Seq::<Seq<char>>::empty());
            assert(pairs_of(nk, cv.skip(cv.len() as int)) =~= Seq::<Seq<char>>::empty());
            assert(pairs.deep_view() + Seq::<Seq<char>>::empty() =~= pairs.deep_view());
            assert(pairs.deep_view() == pairs_of(nk, cv));
        }
        out.push(name_pairs_to_command(names[k].as_str(), &pairs, subscribe));
        k = k + 1;
    }
    proof {
        assert(out.deep_view() =~= kraken_commands_view(cv, subscribe));
    }
    out
}

/// The raw channel for one kind of stream on one pair.
pub open spec fn kraken_channel(name: Seq<char>, pair: Seq<char>) -> Seq<char> {
    name + ":"@ + pair
}

pub open spec fn kraken_channels(name: Seq<char>, pairs: Seq<Seq<char>>) -> Seq<Seq<char>> {
    pairs.map_values(|p: Seq<char>| kraken_channel(name, p))
}

/// Builds the raw channel `<channel>:<pair>`.
pub fn to_raw_channel(channel: &str, pair: &str) -> (r: String)
    ensures
        r@ == kraken_channel(channel@, pair@),
{
    concat3(channel, ":", pair)
}

fn build_channels(name: &str, pairs: &Vec<String>) -> (r: Vec<String>)
    ensures
        r.deep_view() == kraken_channels(name@, pairs.deep_view()),
{
    let mut out: Vec<String> = Vec::new();
    let mut i: usize = 0;
    while i < pairs.len()
        invariant
            0 <= i <= pairs@.len(),
            pairs.deep_view().len() == pairs@.len(),
            out.deep_view().len() == i,
            forall|j: int|
                0 <= j < i ==> out.deep_view()[j] == kraken_channel(
                    name@,
                    #[trigger] pairs.deep_view()[j],
                ),
        decreases pairs@.len() - i,
    {
        out.push(to_raw_channel(name, pairs[i].as_str()));
        i = i + 1;
    }
    proof {
        assert(out.deep_view() =~= kraken_channels(name@, pairs.deep_view()));
    }
    out
}

// ---------------------------------------------------------------------
// Classification.
// ---------------------------------------------------------------------

/// The fixed reply Kraken's `heartbeat` event demands.
pub open spec fn kraken_ping() -> Seq<char> {
    "{\"event\":\"ping\",\"reqid\":9527}"@
}

/// What the classifier reads out of one parsed frame.
pub struct KrakenFrameFacts {
    pub is_object: bool,
    pub event_text: Option<String>,
}

/// The mathematical shadow of [`KrakenFrameFacts`].
pub ghost struct KrakenFrameFactsView {
    pub is_object: bool,
    pub event_text: Option<Seq<char>>,
}

impl View for KrakenFrameFacts {
    type V = KrakenFrameFactsView;

    open spec fn view(&self) -> KrakenFrameFactsView {
        KrakenFrameFactsView {
            is_object: self.is_object,
            event_text: match self.event_text {
                Some(e) => Some(e@),
                None => None,
            },
        }
    }
}

/// The facts a well-formed Kraken frame parses to: whether the document
/// is an object, and the text of its top-level `event` member.  They
/// depend on the frame text alone.
pub uninterp spec fn kraken_facts_of(m: Seq<char>) -> KrakenFrameFactsView;

/// Relies on `serde_json::from_str::<Value>`, `Value::is_object`,
/// `Value::get` and `Value::as_str`: `Some` exactly when the text parses,
/// and the facts read are the function [`kraken_facts_of`] of the text
/// alone; none of the calls panics.
#[verifier::external_body]
fn read_frame_facts(msg: &str) -> (r: Option<KrakenFrameFacts>)
    ensures
        r is Some <==> json_parses(msg@),
        r matches Some(f) ==> f@ == kraken_facts_of(msg@),
{
    let v: serde_json::Value = match serde_json::from_str(msg) {
        Ok(v) => v,
        Err(_) => return None,
    };
    Some(KrakenFrameFacts {
        is_object: v.is_object(),
        event_text: v.get("event").and_then(|e| e.as_str()).map(|s| s.to_string()),
    })
}

/// The decision on a parsed frame: data comes as JSON arrays, so a
/// non-object is market data; among objects, a `heartbeat` event demands
/// the fixed ping reply and everything else is noise.
pub open spec fn kraken_outcome(f: KrakenFrameFactsView) -> MiscMessageView {
    if f.is_object {
        match f.event_text {
            Some(e) => if e == "heartbeat"@ {
                MiscMessageView::Reply(kraken_ping())
            } else {
                MiscMessageView::Misc
            },
            None => MiscMessageView::Misc,
        }
    } else {
        MiscMessageView::Normal
    }
}

/// Decides [`kraken_outcome`] on extracted facts.
pub fn classify_facts(f: &KrakenFrameFacts) -> (r: MiscMessage)
    ensures
        r@ == kraken_outcome(f@),
{
    if f.is_object {
        match &f.event_text {
            Some(e) => {
                if str_eq(e.as_str(), "heartbeat") {
                    MiscMessage::Reply(String::from_str("{\"event\":\"ping\",\"reqid\":9527}"))
                } else {
                    MiscMessage::Misc
                }
            },
            None => MiscMessage::Misc,
        }
    } else {
        MiscMessage::Normal
    }
}

/// What any classification of a Kraken frame satisfies: unparseable
/// noise is ignorable, and a well-formed frame is classified exactly as
/// [`kraken_outcome`] decides its facts.
pub open spec fn kraken_classify_ok(m: Seq<char>, r: MiscMessageView) -> bool {
    &&& (!json_parses(m) ==> r == MiscMessageView::Misc)
    &&& (json_parses(m) ==> r == kraken_outcome(kraken_facts_of(m)))
}

/// Classifies one inbound Kraken frame.
pub fn on_misc_msg(msg: &str) -> (r: MiscMessage)
    ensures
        kraken_classify_ok(msg@, r@),
{
    match read_frame_facts(msg) {
        None => MiscMessage::Misc,
        Some(f) => classify_facts(&f),
    }
}

// ---------------------------------------------------------------------
// The policy and the client facade.
// ---------------------------------------------------------------------

/// Kraken's encoder and classifier, plugged into the generic supervisor.
pub struct KrakenPolicy;

impl ExchangePolicy for KrakenPolicy {
    open spec fn spec_fits(chan: Seq<char>) -> bool {
        true
    }

    open spec fn spec_commands(chans: Seq<Seq<char>>, subscribe: bool) -> Seq<Seq<char>> {
        kraken_commands_view(chans, subscribe)
    }

    open spec fn classify_ok(frame: Seq<char>, outcome: MiscMessageView) -> bool {
        kraken_classify_ok(frame, outcome)
    }

    fn fits(chan: &String) -> (b: bool) {
        true
    }

    fn commands(chans: &Vec<String>, subscribe: bool) -> (r: Vec<String>) {
        channels_to_commands(chans, subscribe)
    }

    fn classify(frame: &str) -> (m: MiscMessage) {
        on_misc_msg(frame)
    }
}

/// The WebSocket client for Kraken's spot market.
pub struct KrakenWSClient {
    pub client: Supervisor<KrakenPolicy>,
}

impl KrakenWSClient {
    /// A fresh, disconnected client wanting nothing.  Kraken needs no
    /// client-initiated heartbeat: the server's `heartbeat` events drive
    /// the keepalive.
    pub fn new() -> (c: Self)
        ensures
            c.client@.state == ConnState::Disconnected,
            c.client@.subs == Seq::<Seq<char>>::empty(),
            c.client@.failures == 0,
            c.client@.url == "wss://ws.kraken.com"@,
            c.client@.heartbeat == Option::<(nat, Seq<char>)>::None,
            c.client@.retry_budget == Option::<nat>::None,
    {
        let cfg = Config {
            url: String::from_str("wss://ws.kraken.com"),
            heartbeat: None,
            retry_budget: None,
        };
        KrakenWSClient { client: Supervisor::new(cfg) }
    }

    /// Subscribes raw channel identifiers.
    pub fn subscribe(&mut self, channels: &Vec<String>) -> (r: Result<Vec<Action>, WsError>)
        ensures
            r is Ok,
            match r {
                Ok(acts) => final(self).client@ == spec_subscribe_model(
                    old(self).client@,
                    channels.deep_view(),
                ) && acts.deep_view() == spec_subscribe_cmds::<KrakenPolicy>(
                    old(self).client@,
                    channels.deep_view(),
                ).map_values(|c: Seq<char>| ActionView::Write(c)),
                Err(_) => false,
            },
    {
        self.client.subscribe(channels)
    }

    /// Unsubscribes raw channel identifiers; unknown ones are ignored.
    pub fn unsubscribe(&mut self, channels: &Vec<String>) -> (r: Vec<Action>)
        ensures
            final(self).client@ == spec_unsubscribe_model(old(self).client@, channels.deep_view()),
            r.deep_view() == spec_unsubscribe_cmds::<KrakenPolicy>(
                old(self).client@,
                channels.deep_view(),
            ).map_values(|c: Seq<char>| ActionView::Write(c)),
    {
        self.client.unsubscribe(channels)
    }

    /// Subscribes the trade stream of each pair.
    pub fn subscribe_trade(&mut self, pairs: &Vec<String>) -> (r: Result<Vec<Action>, WsError>)
        ensures
            r is Ok,
            match r {
                Ok(acts) => final(self).client@ == spec_subscribe_model(
                    old(self).client@,
                    kraken_channels("trade"@, pairs.deep_view()),
                ) && acts.deep_view() == spec_subscribe_cmds::<KrakenPolicy>(
                    old(self).client@,
                    kraken_channels("trade"@, pairs.deep_view()),
                ).map_values(|c: Seq<char>| ActionView::Write(c)),
                Err(_) => false,
            },
    {
        let chans = build_channels("trade", pairs);
        self.client.subscribe(&chans)
    }

    /// Subscribes the ticker stream of each pair.
    pub fn subscribe_ticker(&mut self, pairs: &Vec<String>) -> (r: Result<Vec<Action>, WsError>)
        ensures
            r is Ok,
            match r {
                Ok(acts) => final(self).client@ == spec_subscribe_model(
                    old(self).client@,
                    kraken_channels("ticker"@, pairs.deep_view()),
                ) && acts.deep_view() == spec_subscribe_cmds::<KrakenPolicy>(
                    old(self).client@,
                    kraken_channels("ticker"@, pairs.deep_view()),
                ).map_values(|c: Seq<char>| ActionView::Write(c)),
                Err(_) => false,
            },
    {
        let chans = build_channels("ticker", pairs);
        self.client.subscribe(&chans)
    }

    /// This client offers no order-book stream: the call fails loudly and
    /// changes nothing.
    pub fn subscribe_orderbook(&mut self, pairs: &Vec<String>) -> (r: Result<Vec<Action>, WsError>)
        ensures
            r matches Err(e) && e == WsError::Unsupported,
            final(self).client@ == old(self).client@,
    {
        let _ = pairs;
        Err(WsError::Unsupported)
    }

    /// This client offers no order-book snapshot: the call fails loudly
    /// and changes nothing.
    pub fn subscribe_orderbook_topk(&mut self, pairs: &Vec<String>) -> (r: Result<
        Vec<Action>,
        WsError,
    >)
        ensures
            r matches Err(e) && e == WsError::Unsupported,
            final(self).client@ == old(self).client@,
    {
        let _ = pairs;
        Err(WsError::Unsupported)
    }

    /// This client offers no best-bid-offer stream: the call fails loudly
    /// and changes nothing.
    pub fn subscribe_bbo(&mut self, pairs: &Vec<String>) -> (r: Result<Vec<Action>, WsError>)
        ensures
            r matches Err(e) && e == WsError::Unsupported,
            final(self).client@ == old(self).client@,
    {
        let _ = pairs;
        Err(WsError::Unsupported)
    }

    /// This client offers no candlestick stream: the call fails loudly
    /// and changes nothing.
    pub fn subscribe_candlestick(&mut self, pairs: &Vec<String>, interval: usize) -> (r: Result<
        Vec<Action>,
        WsError,
    >)
        ensures
            r matches Err(e) && e == WsError::Unsupported,
            final(self).client@ == old(self).client@,
    {
        let _ = pairs;
        let _ = interval;
        Err(WsError::Unsupported)
    }

    /// Unconditional, idempotent shutdown.
    pub fn close(&mut self)
        ensures
            final(self).client@ == spec_close(old(self).client@),
    {
        self.client.close()
    }
}

} // verus!
