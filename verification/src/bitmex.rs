//! The client for BitMEX.
//!
//! BitMEX accepts at most 20 channel arguments per command, pings with
//! the literal text `ping` every 5 seconds, and speaks the `op`/`args`
//! command dialect.  A caller may also hand in a pre-formed command (any
//! identifier opening with `{`): such identifiers bypass batching and are
//! emitted as commands unchanged, ahead of the batched ones.

use vstd::prelude::*;
use vstd::string::*;
use crate::batch::{channels_to_batched_commands, fits_alone, spec_batched_commands, FrameLimits};
use crate::classify::{MiscMessage, MiscMessageView};
use crate::errors::WsError;
use crate::json::json_parses;
use crate::opcmd::OpArgsEncoder;
use crate::policy::ExchangePolicy;
use crate::strutil::{concat3, has_prefix, is_prefix, str_eq};
use crate::supervisor::{
    spec_close, spec_subscribe_cmds, spec_subscribe_model, spec_unsubscribe_cmds,
    spec_unsubscribe_model, sub_request_ok, Action, ActionView, Config, ConnState, HeartbeatPolicy,
    Supervisor,
};

verus! {

/// BitMEX's frame bound: at most 20 channels per command, any length.
pub open spec fn bitmex_limits() -> FrameLimits {
    FrameLimits { max_bytes: None, max_channels: Some(20usize) }
}

/// An identifier already shaped as a literal command.
pub open spec fn is_raw(c: Seq<char>) -> bool {
    c.len() > 0 && c[0] == '{'
}

/// The pre-formed commands among `chans`, in order.
pub open spec fn raws(chans: Seq<Seq<char>>) -> Seq<Seq<char>>
    decreases chans.len(),
{
    if chans.len() == 0 {
        Seq::empty()
    } else if is_raw(chans[0]) {
        seq![chans[0]] + raws(chans.drop_first())
    } else {
        raws(chans.drop_first())
    }
}

/// The ordinary channel identifiers among `chans`, in order.
pub open spec fn plains(chans: Seq<Seq<char>>) -> Seq<Seq<char>>
    decreases chans.len(),
{
    if chans.len() == 0 {
        Seq::empty()
    } else if is_raw(chans[0]) {
        plains(chans.drop_first())
    } else {
        seq![chans[0]] + plains(chans.drop_first())
    }
}

/// The full command sequence for `chans`: the pre-formed commands as they
/// stand, then the ordinary identifiers in 20-channel batches.
pub open spec fn bitmex_commands_view(chans: Seq<Seq<char>>, subscribe: bool) -> Seq<Seq<char>> {
    raws(chans) + spec_batched_commands::<OpArgsEncoder>(plains(chans), subscribe, bitmex_limits())
}

fn starts_with_brace(s: &str) -> (b: bool)
    ensures
        b == is_raw(s@),
{
    let r = has_prefix(s, "{");
    proof {
        reveal_strlit("{");
        assert("{"@.len() == 1);
        assert("{"@[0] == '{');
        if r {
            assert(s@.subrange(0, 1)[0] == s@[0]);
        } else {
            if s@.len() > 0 && s@[0] == '{' {
                assert("{"@ =~= s@.subrange(0, 1));
            }
        }
    }
    r
}

/// Turns the identifiers into wire commands: pre-formed commands pass
/// through untouched, the rest are batched 20 to a command.
pub fn channels_to_commands(channels: &Vec<String>, subscribe: bool) -> (r: Vec<String>)
    ensures
        r.deep_view() == bitmex_commands_view(channels.deep_view(), subscribe),
{
    let ghost cv = channels.deep_view();
    let mut raw_cmds: Vec<String> = Vec::new();
    let mut plain: Vec<String> = Vec::new();
    let mut i: usize = 0;
    proof {
        assert(cv.skip(0) =~= cv);
        assert(raw_cmds.deep_view() =~= Seq::<Seq<char>>::empty());
        assert(plain.deep_view() =~= Seq::<Seq<char>>::empty());
        assert(raws(cv) =~= raw_cmds.deep_view() + raws(cv.skip(0)));
        assert(plains(cv) =~= plain.deep_view() + plains(cv.skip(0)));
    }
    while i < channels.len()
        invariant
            0 <= i <= channels@.len(),
            cv == channels.deep_view(),
            cv.len() == channels@.len(),
            raws(cv) == raw_cmds.deep_view() + raws(cv.skip(i as int)),
            plains(cv) == plain.deep_view() + plains(cv.skip(i as int)),
        decreases channels@.len() - i,
    {
        let ghost rest = cv.skip(i as int);
        proof {
            assert(rest.len() > 0);
            assert(rest[0] == cv[i as int]);
            assert(cv[i as int] == channels@[i as int]@);
            assert(rest.drop_first() =~= cv.skip(i as int + 1));
        }
        let ghost old_raws = raw_cmds.deep_view();
        let ghost old_plains = plain.deep_view();
        if starts_with_brace(channels[i].as_str()) {
            raw_cmds.push(channels[i].clone());
            proof {
                assert(raw_cmds.deep_view() =~= old_raws.push(rest[0]));
                assert(old_raws + (seq![rest[0]] + raws(rest.drop_first())) =~= (old_raws.push(
                    rest[0],
                ) + raws(rest.drop_first())));
            }
        } else {
            plain.push(channels[i].clone());
            proof {
                assert(plain.deep_view() =~= old_plains.push(rest[0]));
                assert(old_plains + (seq![rest[0]] + plains(rest.drop_first())) =~= (
                old_plains.push(rest[0]) + plains(rest.drop_first())));
            }
        }
        i = i + 1;
    }
    proof {
        assert(cv.skip(cv.len() as int) =~= Seq::<Seq<char>>::empty());
        assert(raw_cmds.deep_view() + Seq::<Seq<char>>::empty() =~= raw_cmds.deep_view());
        assert(plain.deep_view() + Seq::<Seq<char>>::empty() =~= plain.deep_view());
    }
    let limits = FrameLimits { max_bytes: None, max_channels: Some(20) };
    proof {
        assert(limits == bitmex_limits());
        assert(forall|k: int|
            0 <= k < plain.deep_view().len() ==> fits_alone::<OpArgsEncoder>(
                #[trigger] plain.deep_view()[k],
                subscribe,
                limits,
            ));
    }
    match channels_to_batched_commands::<OpArgsEncoder>(&plain, subscribe, &limits) {
        Ok(mut cmds) => {
            let ghost done_raws = raw_cmds.deep_view();
            let ghost done_cmds = cmds.deep_view();
            raw_cmds.append(&mut cmds);
            proof {
                assert(raw_cmds.deep_view() =~= done_raws + done_cmds);
            }
            raw_cmds
        },
        Err(_) => {
            proof {
                assert(false);
            }
            Vec::new()
        },
    }
}

/// Law: the emitted commands carry exactly the identifiers that went in:
/// the pre-formed commands pass through one for one, and the greedy
/// batches of the ordinary identifiers, each non-empty and at most 20
/// wide, concatenate back to them in order.  In particular a replay after
/// a reconnect covers exactly the subscription set.
pub proof fn lemma_bitmex_commands_cover(chans: Seq<Seq<char>>, subscribe: bool)
    ensures
        ({
            let batches = crate::batch::greedy_batches::<OpArgsEncoder>(
                Seq::empty(),
                plains(chans),
                subscribe,
                bitmex_limits(),
            );
            &&& batches.flatten() == plains(chans)
            &&& forall|i: int| 0 <= i < batches.len() ==> (#[trigger] batches[i]).len() > 0
            &&& forall|i: int| 0 <= i < batches.len() ==> (#[trigger] batches[i]).len() <= 20
            &&& bitmex_commands_view(chans, subscribe) == raws(chans) + batches.map_values(
                |b: Seq<Seq<char>>| crate::opcmd::op_args_command_view(b, subscribe),
            )
        }),
{
    assert(crate::batch::all_fit_alone::<OpArgsEncoder>(
        plains(chans),
        subscribe,
        bitmex_limits(),
    )) by {
        assert(forall|i: int|
            0 <= i < plains(chans).len() ==> fits_alone::<OpArgsEncoder>(
                #[trigger] plains(chans)[i],
                subscribe,
                bitmex_limits(),
            ));
    }
    crate::batch::lemma_greedy_batches_cover::<OpArgsEncoder>(
        Seq::empty(),
        plains(chans),
        subscribe,
        bitmex_limits(),
    );
    assert(Seq::<Seq<char>>::empty() + plains(chans) =~= plains(chans));
}

/// Law: the 20-channel batching is minimal.  A channel-count bound is
/// closed under sub-batches, so no order-preserving split of the
/// ordinary identifiers into feasible non-empty batches yields fewer
/// commands than the greedy one.
pub proof fn lemma_bitmex_batching_minimal(
    chans: Seq<Seq<char>>,
    subscribe: bool,
    parts: Seq<Seq<Seq<char>>>,
)
    requires
        crate::batch::is_partition::<OpArgsEncoder>(
            parts,
            plains(chans),
            subscribe,
            bitmex_limits(),
        ),
    ensures
        crate::batch::greedy_batches::<OpArgsEncoder>(
            Seq::empty(),
            plains(chans),
            subscribe,
            bitmex_limits(),
        ).len() <= parts.len(),
{
    crate::batch::lemma_count_limits_subrange_closed::<OpArgsEncoder>(subscribe, bitmex_limits());
    assert(crate::batch::all_fit_alone::<OpArgsEncoder>(
        plains(chans),
        subscribe,
        bitmex_limits(),
    )) by {
        assert(forall|i: int|
            0 <= i < plains(chans).len() ==> fits_alone::<OpArgsEncoder>(
                #[trigger] plains(chans)[i],
                subscribe,
                bitmex_limits(),
            ));
    }
    crate::batch::lemma_greedy_batches_minimal::<OpArgsEncoder>(
        plains(chans),
        subscribe,
        bitmex_limits(),
        parts,
    );
}

/// The raw channel for one kind of stream on one pair.
pub open spec fn bitmex_channel(name: Seq<char>, pair: Seq<char>) -> Seq<char> {
    name + ":"@ + pair
}

pub open spec fn bitmex_channels(name: Seq<char>, pairs: Seq<Seq<char>>) -> Seq<Seq<char>> {
    pairs.map_values(|p: Seq<char>| bitmex_channel(name, p))
}

/// Builds the raw channel `<channel>:<pair>`.
pub fn to_raw_channel(channel: &str, pair: &str) -> (r: String)
    ensures
        r@ == bitmex_channel(channel@, pair@),
{
    concat3(channel, ":", pair)
}

fn build_channels(name: &str, pairs: &Vec<String>) -> (r: Vec<String>)
    ensures
        r.deep_view() == bitmex_channels(name@, pairs.deep_view()),
{
    let mut out: Vec<String> = Vec::new();
    let mut i: usize = 0;
    while i < pairs.len()
        invariant
            0 <= i <= pairs@.len(),
            pairs.deep_view().len() == pairs@.len(),
            out.deep_view().len() == i,
            forall|j: int|
                0 <= j < i ==> out.deep_view()[j] == bitmex_channel(
                    name@,
                    #[trigger] pairs.deep_view()[j],
                ),
        decreases pairs@.len() - i,
    {
        out.push(to_raw_channel(name, pairs[i].as_str()));
        i = i + 1;
    }
    proof {
        assert(out.deep_view() =~= bitmex_channels(name@, pairs.deep_view()));
    }
    out
}

/// The candlestick intervals BitMEX offers, in seconds.
pub open spec fn bitmex_valid_interval(interval: usize) -> bool {
    interval == 60 || interval == 300 || interval == 3600 || interval == 86400
}

/// The channel-name token of one candlestick interval.
pub open spec fn bitmex_candle_token(interval: usize) -> Seq<char> {
    if interval == 60 {
        "tradeBin1m"@
    } else if interval == 300 {
        "tradeBin5m"@
    } else if interval == 3600 {
        "tradeBin1h"@
    } else {
        "tradeBin1d"@
    }
}

/// Builds the raw candlestick channel for one pair.
pub fn to_candlestick_raw_channel(pair: &str, interval: usize) -> (r: String)
    requires
        bitmex_valid_interval(interval),
    ensures
        r@ == bitmex_channel(bitmex_candle_token(interval), pair@),
{
    let token: &str = if interval == 60 {
        "tradeBin1m"
    } else if interval == 300 {
        "tradeBin5m"
    } else if interval == 3600 {
        "tradeBin1h"
    } else {
        "tradeBin1d"
    };
    to_raw_channel(token, pair)
}

// ---------------------------------------------------------------------
// Classification.
// ---------------------------------------------------------------------

/// What the classifier reads out of one parsed frame.
pub struct BitmexFrameFacts {
    pub has_error: bool,
    pub error_text: Option<String>,
    pub status: Option<i64>,
    pub has_success: bool,
    pub has_info: bool,
    pub has_table: bool,
    pub has_action: bool,
    pub has_data: bool,
}

/// The mathematical shadow of [`BitmexFrameFacts`].
pub ghost struct BitmexFrameFactsView {
    pub has_error: bool,
    pub error_text: Option<Seq<char>>,
    pub status: Option<i64>,
    pub has_success: bool,
    pub has_info: bool,
    pub has_table: bool,
    pub has_action: bool,
    pub has_data: bool,
}

impl View for BitmexFrameFacts {
    type V = BitmexFrameFactsView;

    open spec fn view(&self) -> BitmexFrameFactsView {
        BitmexFrameFactsView {
            has_error: self.has_error,
            error_text: match self.error_text {
                Some(t) => Some(t@),
                None => None,
            },
            status: self.status,
            has_success: self.has_success,
            has_info: self.has_info,
            has_table: self.has_table,
            has_action: self.has_action,
            has_data: self.has_data,
        }
    }
}

/// The facts a well-formed BitMEX frame parses to: which of the keys the
/// protocol speaks of exist, the `error` text, and the `status` code.
/// They depend on the frame text alone.
pub uninterp spec fn bitmex_facts_of(m: Seq<char>) -> BitmexFrameFactsView;

/// Relies on `serde_json::from_str::<Value>`, `Value::get`,
/// `Value::as_str` and `Value::as_i64`: `Some` exactly when the text
/// parses, and the facts read are the function [`bitmex_facts_of`] of
/// the text alone; none of the calls panics.
#[verifier::external_body]
fn read_frame_facts(msg: &str) -> (r: Option<BitmexFrameFacts>)
    ensures
        r is Some <==> json_parses(msg@),
        r matches Some(f) ==> f@ == bitmex_facts_of(msg@),
{
    let v: serde_json::Value = match serde_json::from_str(msg) {
        Ok(v) => v,
        Err(_) => return None,
    };
    Some(BitmexFrameFacts {
        has_error: v.get("error").is_some(),
        error_text: v.get("error").and_then(|e| e.as_str()).map(|s| s.to_string()),
        status: v.get("status").and_then(|c| c.as_i64()),
        has_success: v.get("success").is_some(),
        has_info: v.get("info").is_some(),
        has_table: v.get("table").is_some(),
        has_action: v.get("action").is_some(),
        has_data: v.get("data").is_some(),
    })
}

/// An authoritative rejection: status 400 with an error message opening
/// with `Unknown` (an unknown channel or symbol), which a reconnect would
/// only repeat.
pub open spec fn bitmex_error_fatal(f: BitmexFrameFactsView) -> bool {
    f.status == Some(400i64) && match f.error_text {
        Some(t) => is_prefix(t, "Unknown"@),
        None => false,
    }
}

/// The decision on a parsed frame.  A rate-limit rejection (status 429)
/// is noise here: pacing is the supervisor's business, not the
/// classifier's.  An "already subscribed" rejection is informational.
pub open spec fn bitmex_outcome(f: BitmexFrameFactsView) -> MiscMessageView {
    if f.has_error {
        if bitmex_error_fatal(f) {
            MiscMessageView::Fatal
        } else {
            MiscMessageView::Misc
        }
    } else if f.has_success || f.has_info {
        MiscMessageView::Misc
    } else if f.has_table && f.has_action && f.has_data {
        MiscMessageView::Normal
    } else {
        MiscMessageView::Misc
    }
}

/// Decides [`bitmex_outcome`] on extracted facts.
pub fn classify_facts(f: &BitmexFrameFacts) -> (r: MiscMessage)
    ensures
        r@ == bitmex_outcome(f@),
{
    if f.has_error {
        let status_400 = match f.status {
            Some(s) => s == 400i64,
            None => false,
        };
        let unknown = match &f.error_text {
            Some(t) => has_prefix(t.as_str(), "Unknown"),
            None => false,
        };
        if status_400 && unknown {
            MiscMessage::Fatal
        } else {
            MiscMessage::Misc
        }
    } else if f.has_success || f.has_info {
        MiscMessage::Misc
    } else if f.has_table && f.has_action && f.has_data {
        MiscMessage::Normal
    } else {
        MiscMessage::Misc
    }
}

/// What any classification of a BitMEX frame satisfies: the literal
/// `pong` is the heartbeat reply, unparseable noise is ignorable, and
/// any other well-formed frame is classified exactly as
/// [`bitmex_outcome`] decides its facts.
pub open spec fn bitmex_classify_ok(m: Seq<char>, r: MiscMessageView) -> bool {
    &&& (m == "pong"@ <==> r == MiscMessageView::Pong)
    &&& (m != "pong"@ && !json_parses(m) ==> r == MiscMessageView::Misc)
    &&& (m != "pong"@ && json_parses(m) ==> r == bitmex_outcome(bitmex_facts_of(m)))
}

/// Classifies one inbound BitMEX frame.
pub fn on_misc_msg(msg: &str) -> (r: MiscMessage)
    ensures
        bitmex_classify_ok(msg@, r@),
{
    if str_eq(msg, "pong") {
        return MiscMessage::Pong;
    }
    match read_frame_facts(msg) {
        None => MiscMessage::Misc,
        Some(f) => {
            let r = classify_facts(&f);
            proof {
                assert(r@ != MiscMessageView::Pong);
            }
            r
        },
    }
}

// ---------------------------------------------------------------------
// The policy and the client facade.
// ---------------------------------------------------------------------

/// BitMEX's encoder and classifier, plugged into the generic supervisor.
pub struct BitmexPolicy;

impl ExchangePolicy for BitmexPolicy {
    open spec fn spec_fits(chan: Seq<char>) -> bool {
        true
    }

    open spec fn spec_commands(chans: Seq<Seq<char>>, subscribe: bool) -> Seq<Seq<char>> {
        bitmex_commands_view(chans, subscribe)
    }

    open spec fn classify_ok(frame: Seq<char>, outcome: MiscMessageView) -> bool {
        bitmex_classify_ok(frame, outcome)
    }

    fn fits(chan: &String) -> (b: bool) {
        true
    }

    fn commands(chans: &Vec<String>, subscribe: bool) -> (r: Vec<String>) {
        channels_to_commands(chans, subscribe)
    }

    fn classify(frame: &str) -> (m: MiscMessage) {
        on_misc_msg(frame)
    }
}

/// The WebSocket client for BitMEX.
pub struct BitmexWSClient {
    pub client: Supervisor<BitmexPolicy>,
}

impl BitmexWSClient {
    /// A fresh, disconnected client wanting nothing.
    pub fn new() -> (c: Self)
        ensures
            c.client@.state == ConnState::Disconnected,
            c.client@.subs == Seq::<Seq<char>>::empty(),
            c.client@.failures == 0,
            c.client@.url == "wss://www.bitmex.com/realtime"@,
            c.client@.heartbeat == Some((5 as nat, "ping"@)),
            c.client@.retry_budget == Option::<nat>::None,
    {
        let cfg = Config {
            url: String::from_str("wss://www.bitmex.com/realtime"),
            heartbeat: Some(
                HeartbeatPolicy { interval_secs: 5, payload: String::from_str("ping") },
            ),
            retry_budget: None,
        };
        BitmexWSClient { client: Supervisor::new(cfg) }
    }

    /// Subscribes raw channel identifiers, pre-formed commands included.
    pub fn subscribe(&mut self, channels: &Vec<String>) -> (r: Result<Vec<Action>, WsError>)
        ensures
            r is Ok,
            match r {
                Ok(acts) => final(self).client@ == spec_subscribe_model(
                    old(self).client@,
                    channels.deep_view(),
                ) && acts.deep_view() == spec_subscribe_cmds::<BitmexPolicy>(
                    old(self).client@,
                    channels.deep_view(),
                ).map_values(|c: Seq<char>| ActionView::Write(c)),
                Err(_) => false,
            },
    {
        let r = self.client.subscribe(channels);
        proof {
            assert(sub_request_ok::<BitmexPolicy>(old(self).client@, channels.deep_view()));
        }
        r
    }

    /// Unsubscribes raw channel identifiers; unknown ones are ignored.
    pub fn unsubscribe(&mut self, channels: &Vec<String>) -> (r: Vec<Action>)
        ensures
            final(self).client@ == spec_unsubscribe_model(old(self).client@, channels.deep_view()),
            r.deep_view() == spec_unsubscribe_cmds::<BitmexPolicy>(
                old(self).client@,
                channels.deep_view(),
            ).map_values(|c: Seq<char>| ActionView::Write(c)),
    {
        self.client.unsubscribe(channels)
    }

    /// Subscribes the trade stream of each pair.
    pub fn subscribe_trade(&mut self, pairs: &Vec<String>) -> (r: Result<Vec<Action>, WsError>)
        ensures
            r is Ok,
            match r {
                Ok(acts) => final(self).client@ == spec_subscribe_model(
                    old(self).client@,
                    bitmex_channels("trade"@, pairs.deep_view()),
                ) && acts.deep_view() == spec_subscribe_cmds::<BitmexPolicy>(
                    old(self).client@,
                    bitmex_channels("trade"@, pairs.deep_view()),
                ).map_values(|c: Seq<char>| ActionView::Write(c)),
                Err(_) => false,
            },
    {
        let chans = build_channels("trade", pairs);
        self.client.subscribe(&chans)
    }

    /// Subscribes the best-bid-offer (quote) stream of each pair.
    pub fn subscribe_bbo(&mut self, pairs: &Vec<String>) -> (r: Result<Vec<Action>, WsError>)
        ensures
            r is Ok,
            match r {
                Ok(acts) => final(self).client@ == spec_subscribe_model(
                    old(self).client@,
                    bitmex_channels("quote"@, pairs.deep_view()),
                ) && acts.deep_view() == spec_subscribe_cmds::<BitmexPolicy>(
                    old(self).client@,
                    bitmex_channels("quote"@, pairs.deep_view()),
                ).map_values(|c: Seq<char>| ActionView::Write(c)),
                Err(_) => false,
            },
    {
        let chans = build_channels("quote", pairs);
        self.client.subscribe(&chans)
    }

    /// Subscribes the 25-level order-book stream of each pair.
    pub fn subscribe_orderbook(&mut self, pairs: &Vec<String>) -> (r: Result<Vec<Action>, WsError>)
        ensures
            r is Ok,
            match r {
                Ok(acts) => final(self).client@ == spec_subscribe_model(
                    old(self).client@,
                    bitmex_channels("orderBookL2_25"@, pairs.deep_view()),
                ) && acts.deep_view() == spec_subscribe_cmds::<BitmexPolicy>(
                    old(self).client@,
                    bitmex_channels("orderBookL2_25"@, pairs.deep_view()),
                ).map_values(|c: Seq<char>| ActionView::Write(c)),
                Err(_) => false,
            },
    {
        let chans = build_channels("orderBookL2_25", pairs);
        self.client.subscribe(&chans)
    }

    /// Subscribes the top-ten order-book snapshot of each pair.
    pub fn subscribe_orderbook_topk(&mut self, pairs: &Vec<String>) -> (r: Result<
        Vec<Action>,
        WsError,
    >)
        ensures
            r is Ok,
            match r {
                Ok(acts) => final(self).client@ == spec_subscribe_model(
                    old(self).client@,
                    bitmex_channels("orderBook10"@, pairs.deep_view()),
                ) && acts.deep_view() == spec_subscribe_cmds::<BitmexPolicy>(
                    old(self).client@,
                    bitmex_channels("orderBook10"@, pairs.deep_view()),
                ).map_values(|c: Seq<char>| ActionView::Write(c)),
                Err(_) => false,
            },
    {
        let chans = build_channels("orderBook10", pairs);
        self.client.subscribe(&chans)
    }

    /// BitMEX has no ticker channel: the call fails loudly and changes
    /// nothing.
    pub fn subscribe_ticker(&mut self, pairs: &Vec<String>) -> (r: Result<Vec<Action>, WsError>)
        ensures
            r matches Err(e) && e == WsError::Unsupported,
            final(self).client@ == old(self).client@,
    {
        let _ = pairs;
        Err(WsError::Unsupported)
    }

    /// Subscribes the candlestick stream of each pair; an interval BitMEX
    /// does not offer fails loudly and changes nothing.
    pub fn subscribe_candlestick(&mut self, pairs: &Vec<String>, interval: usize) -> (r: Result<
        Vec<Action>,
        WsError,
    >)
        ensures
            !bitmex_valid_interval(interval) ==> ((r matches Err(e) && e == WsError::Unsupported)
                && final(self).client@ == old(self).client@),
            bitmex_valid_interval(interval) ==> match r {
                Ok(acts) => final(self).client@ == spec_subscribe_model(
                    old(self).client@,
                    bitmex_channels(bitmex_candle_token(interval), pairs.deep_view()),
                ) && acts.deep_view() == spec_subscribe_cmds::<BitmexPolicy>(
                    old(self).client@,
                    bitmex_channels(bitmex_candle_token(interval), pairs.deep_view()),
                ).map_values(|c: Seq<char>| ActionView::Write(c)),
                Err(_) => false,
            },
    {
        if !(interval == 60 || interval == 300 || interval == 3600 || interval == 86400) {
            return Err(WsError::Unsupported);
        }
        let mut chans: Vec<String> = Vec::new();
        let mut i: usize = 0;
        while i < pairs.len()
            invariant
                bitmex_valid_interval(interval),
                0 <= i <= pairs@.len(),
                pairs.deep_view().len() == pairs@.len(),
                chans.deep_view().len() == i,
                forall|j: int|
                    0 <= j < i ==> chans.deep_view()[j] == bitmex_channel(
                        bitmex_candle_token(interval),
                        #[trigger] pairs.deep_view()[j],
                    ),
            decreases pairs@.len() - i,
        {
            chans.push(to_candlestick_raw_channel(pairs[i].as_str(), interval));
            i = i + 1;
        }
        proof {
            assert(chans.deep_view() =~= bitmex_channels(
                bitmex_candle_token(interval),
                pairs.deep_view(),
            ));
        }
        self.client.subscribe(&chans)
    }

    /// Unconditional, idempotent shutdown.
    pub fn close(&mut self)
        ensures
            final(self).client@ == spec_close(old(self).client@),
    {
        self.client.close()
    }
}

} // verus!
