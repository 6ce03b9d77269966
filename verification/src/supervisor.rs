//! The connection supervisor: the generic engine shared by every exchange
//! client.
//!
//! The supervisor is a state machine.  It owns the subscription set and
//! the connection lifecycle state; the socket, the heartbeat timer and the
//! consumer hand-off live with an outside driver.  The driver reports what
//! happened (the connection opened, a frame arrived, the timer fired, the
//! transport failed) through the methods below and performs the returned
//! [`Action`]s: writing a frame, forwarding a payload, resetting the
//! timer.  Every transition is specified as a function of the supervisor's
//! mathematical [`Model`], so replay-after-reconnect, duplicate
//! suppression and the absence of writes after close are proved once, for
//! every exchange.

use core::marker::PhantomData;
use vstd::prelude::*;
use crate::classify::{MiscMessage, MiscMessageView};
use crate::errors::WsError;
use crate::policy::ExchangePolicy;

verus! {

/// The lifecycle of the one physical connection a supervisor owns at a
/// time.
#[derive(Clone, Copy, Debug, PartialEq, Eq, Structural)]
pub enum ConnState {
    /// No connection yet; nothing has been attempted.
    Disconnected,
    /// A connect attempt is in flight.
    Connecting,
    /// The handshake succeeded; no data frame seen yet.
    ConnectedIdle,
    /// Data frames are flowing.
    ConnectedStreaming,
    /// The last connection was lost; a new attempt is due after a backoff.
    Reconnecting,
    /// Terminal: the caller closed the client, or a fatal condition ended
    /// it.
    Closed,
}

/// A live connection exists.
pub open spec fn is_connected(s: ConnState) -> bool {
    s == ConnState::ConnectedIdle || s == ConnState::ConnectedStreaming
}

/// Client-initiated keepalive: every `interval_secs` the driver writes
/// `payload` to the socket.
pub struct HeartbeatPolicy {
    pub interval_secs: u64,
    pub payload: String,
}

/// The immutable configuration of one client.
pub struct Config {
    /// The websocket endpoint the driver connects to.
    pub url: String,
    /// The client-initiated keepalive, or `None` for exchanges that ping
    /// the client themselves.
    pub heartbeat: Option<HeartbeatPolicy>,
    /// How many consecutive failed connect attempts are tolerated before
    /// the client is reported dead; `None` retries forever.
    pub retry_budget: Option<u64>,
}

/// What the driver must do after a transition, in order.
#[derive(Debug, PartialEq, Eq)]
pub enum Action {
    /// Write this text frame to the socket.
    Write(String),
    /// Hand this payload to the consumer.
    Forward(String),
    /// Restart the heartbeat interval from now.
    ResetTimer,
}

/// The mathematical shadow of [`Action`].
pub enum ActionView {
    Write(Seq<char>),
    Forward(Seq<char>),
    ResetTimer,
}

impl View for Action {
    type V = ActionView;

    open spec fn view(&self) -> ActionView {
        match self {
            Action::Write(s) => ActionView::Write(s@),
            Action::Forward(s) => ActionView::Forward(s@),
            Action::ResetTimer => ActionView::ResetTimer,
        }
    }
}

impl DeepView for Action {
    type V = ActionView;

    open spec fn deep_view(&self) -> ActionView {
        self.view()
    }
}

/// The supervisor's abstract state: everything its contracts speak about.
pub ghost struct Model {
    pub state: ConnState,
    /// The wanted channel identifiers, in insertion order, each exactly
    /// once.
    pub subs: Seq<Seq<char>>,
    /// Consecutive failed connect attempts since the last success.
    pub failures: nat,
    pub url: Seq<char>,
    pub heartbeat: Option<(nat, Seq<char>)>,
    pub retry_budget: Option<nat>,
}

/// No identifier occurs twice.
pub open spec fn distinct(s: Seq<Seq<char>>) -> bool {
    forall|i: int, j: int| 0 <= i < j < s.len() ==> s[i] != s[j]
}

/// A well-formed model: the subscription set is a set, and every member
/// can be carried by some command.
pub open spec fn wf_model<P: ExchangePolicy>(m: Model) -> bool {
    distinct(m.subs) && forall|i: int| 0 <= i < m.subs.len() ==> P::spec_fits(#[trigger] m.subs[i])
}

// ---------------------------------------------------------------------
// Subscription-set arithmetic.
// ---------------------------------------------------------------------

/// `subs` extended by each identifier of `chans` not already present,
/// in order.
pub open spec fn add_new(subs: Seq<Seq<char>>, chans: Seq<Seq<char>>) -> Seq<Seq<char>>
    decreases chans.len(),
{
    if chans.len() == 0 {
        subs
    } else if subs.contains(chans[0]) {
        add_new(subs, chans.drop_first())
    } else {
        add_new(subs.push(chans[0]), chans.drop_first())
    }
}

/// The identifiers of `chans` that are actually new, in request order,
/// each once.
pub open spec fn new_ones(subs: Seq<Seq<char>>, chans: Seq<Seq<char>>) -> Seq<Seq<char>>
    decreases chans.len(),
{
    if chans.len() == 0 {
        Seq::empty()
    } else if subs.contains(chans[0]) {
        new_ones(subs, chans.drop_first())
    } else {
        seq![chans[0]] + new_ones(subs.push(chans[0]), chans.drop_first())
    }
}

/// The members of `subs` that survive removing `chans`, in order.
pub open spec fn retained(subs: Seq<Seq<char>>, chans: Seq<Seq<char>>) -> Seq<Seq<char>>
    decreases subs.len(),
{
    if subs.len() == 0 {
        Seq::empty()
    } else if chans.contains(subs[0]) {
        retained(subs.drop_first(), chans)
    } else {
        seq![subs[0]] + retained(subs.drop_first(), chans)
    }
}

/// The members of `subs` that removing `chans` takes away, in
/// subscription order.
pub open spec fn dropped(subs: Seq<Seq<char>>, chans: Seq<Seq<char>>) -> Seq<Seq<char>>
    decreases subs.len(),
{
    if subs.len() == 0 {
        Seq::empty()
    } else if chans.contains(subs[0]) {
        seq![subs[0]] + dropped(subs.drop_first(), chans)
    } else {
        dropped(subs.drop_first(), chans)
    }
}

/// Membership in a concatenation splits over the parts.
pub proof fn lemma_concat_contains<A>(a: Seq<A>, b: Seq<A>, x: A)
    ensures
        (a + b).contains(x) <==> (a.contains(x) || b.contains(x)),
{
    if a.contains(x) {
        let i = choose|i: int| 0 <= i < a.len() && a[i] == x;
        assert((a + b)[i] == x);
    }
    if b.contains(x) {
        let i = choose|i: int| 0 <= i < b.len() && b[i] == x;
        assert((a + b)[i + a.len()] == x);
    }
    if (a + b).contains(x) {
        let i = choose|i: int| 0 <= i < (a + b).len() && (a + b)[i] == x;
        if i < a.len() {
            assert(a[i] == x);
        } else {
            assert(b[i - a.len()] == x);
        }
    }
}

/// Membership splits into the head and the tail.
pub proof fn lemma_head_tail_contains<A>(s: Seq<A>, x: A)
    requires
        s.len() > 0,
    ensures
        s.contains(x) <==> (x == s[0] || s.drop_first().contains(x)),
{
    let rest = s.drop_first();
    if s.contains(x) {
        let i = choose|i: int| 0 <= i < s.len() && s[i] == x;
        if i > 0 {
            assert(rest[i - 1] == x);
            assert(rest.contains(x));
        }
    }
    if rest.contains(x) {
        let i = choose|i: int| 0 <= i < rest.len() && rest[i] == x;
        assert(s[i + 1] == x);
        assert(s.contains(x));
    }
}

/// Membership in a pushed sequence.
pub proof fn lemma_push_contains<A>(s: Seq<A>, y: A, x: A)
    ensures
        s.push(y).contains(x) <==> (s.contains(x) || x == y),
{
    assert(s.push(y) =~= s + seq![y]);
    lemma_concat_contains(s, seq![y], x);
    assert(seq![y][0] == y);
    if seq![y].contains(x) {
        let i = choose|i: int| 0 <= i < seq![y].len() && seq![y][i] == x;
        assert(i == 0);
    }
}

/// What adding identifiers does: the old set is kept as a prefix, the new
/// ones follow in request order, distinctness and membership behave as on
/// sets.
pub proof fn lemma_add_new_props(subs: Seq<Seq<char>>, chans: Seq<Seq<char>>)
    requires
        distinct(subs),
    ensures
        add_new(subs, chans) == subs + new_ones(subs, chans),
        distinct(add_new(subs, chans)),
        forall|x: Seq<char>|
            #[trigger] add_new(subs, chans).contains(x) <==> (subs.contains(x) || chans.contains(
                x,
            )),
        forall|x: Seq<char>| #[trigger]
            new_ones(subs, chans).contains(x) ==> (chans.contains(x) && !subs.contains(x)),
    decreases chans.len(),
{
    if chans.len() == 0 {
        assert(add_new(subs, chans) =~= subs + new_ones(subs, chans));
    } else {
        let c = chans[0];
        let rest = chans.drop_first();
        if subs.contains(c) {
            lemma_add_new_props(subs, rest);
            assert forall|x: Seq<char>|
                #[trigger] add_new(subs, chans).contains(x) <==> (subs.contains(x)
                    || chans.contains(x)) by {
                lemma_head_tail_contains(chans, x);
            }
            assert forall|x: Seq<char>| #[trigger]
                new_ones(subs, chans).contains(x) implies (chans.contains(x) && !subs.contains(
                x,
            )) by {
                lemma_head_tail_contains(chans, x);
            }
        } else {
            let subs2 = subs.push(c);
            assert forall|i: int, j: int| 0 <= i < j < subs2.len() implies subs2[i] != subs2[j] by {
                if j == subs.len() {
                    assert(subs2[j] == c);
                    assert(subs2[i] == subs[i]);
                    if subs[i] == c {
                        assert(subs.contains(c));
                    }
                } else {
                    assert(subs2[i] == subs[i]);
                    assert(subs2[j] == subs[j]);
                }
            }
            lemma_add_new_props(subs2, rest);
            assert(add_new(subs, chans) == add_new(subs2, rest));
            assert(add_new(subs2, rest) == subs2 + new_ones(subs2, rest));
            assert(new_ones(subs, chans) == seq![c] + new_ones(subs2, rest));
            assert(subs2 + new_ones(subs2, rest) =~= subs + (seq![c] + new_ones(subs2, rest)));
            assert forall|x: Seq<char>|
                #[trigger] add_new(subs, chans).contains(x) <==> (subs.contains(x)
                    || chans.contains(x)) by {
                lemma_head_tail_contains(chans, x);
                lemma_push_contains(subs, c, x);
            }
            assert forall|x: Seq<char>| #[trigger]
                new_ones(subs, chans).contains(x) implies (chans.contains(x) && !subs.contains(
                x,
            )) by {
                lemma_concat_contains(seq![c], new_ones(subs2, rest), x);
                lemma_head_tail_contains(chans, x);
                lemma_push_contains(subs, c, x);
                assert(seq![c][0] == c);
                if seq![c].contains(x) {
                    let i = choose|i: int| 0 <= i < seq![c].len() && seq![c][i] == x;
                    assert(i == 0);
                    assert(chans.contains(c));
                }
            }
        }
    }
}

/// What removing identifiers does: kept and taken members are exactly the
/// members outside and inside the request, both in subscription order,
/// and distinctness survives.
pub proof fn lemma_remove_props(subs: Seq<Seq<char>>, chans: Seq<Seq<char>>)
    requires
        distinct(subs),
    ensures
        forall|x: Seq<char>|
            #[trigger] retained(subs, chans).contains(x) <==> (subs.contains(x) && !chans.contains(
                x,
            )),
        forall|x: Seq<char>|
            #[trigger] dropped(subs, chans).contains(x) <==> (subs.contains(x) && chans.contains(
                x,
            )),
        distinct(retained(subs, chans)),
        retained(subs, chans).len() + dropped(subs, chans).len() == subs.len(),
    decreases subs.len(),
{
    if subs.len() == 0 {
    } else {
        let s0 = subs[0];
        let rest = subs.drop_first();
        assert forall|i: int, j: int| 0 <= i < j < rest.len() implies rest[i] != rest[j] by {
            assert(rest[i] == subs[i + 1]);
            assert(rest[j] == subs[j + 1]);
        }
        lemma_remove_props(rest, chans);
        assert(!rest.contains(s0)) by {
            if rest.contains(s0) {
                let i = choose|i: int| 0 <= i < rest.len() && rest[i] == s0;
                assert(subs[i + 1] == subs[0]);
            }
        }
        if chans.contains(s0) {
            assert(retained(subs, chans) == retained(rest, chans));
            assert(dropped(subs, chans) == seq![s0] + dropped(rest, chans));
            assert forall|x: Seq<char>|
                #[trigger] dropped(subs, chans).contains(x) <==> (subs.contains(x)
                    && chans.contains(x)) by {
                lemma_concat_contains(seq![s0], dropped(rest, chans), x);
                lemma_head_tail_contains(subs, x);
                assert(seq![s0][0] == s0);
                if seq![s0].contains(x) {
                    let i = choose|i: int| 0 <= i < seq![s0].len() && seq![s0][i] == x;
                    assert(i == 0);
                }
            }
            assert forall|x: Seq<char>|
                #[trigger] retained(subs, chans).contains(x) <==> (subs.contains(x)
                    && !chans.contains(x)) by {
                lemma_head_tail_contains(subs, x);
            }
        } else {
            assert(dropped(subs, chans) == dropped(rest, chans));
            assert(retained(subs, chans) == seq![s0] + retained(rest, chans));
            assert forall|x: Seq<char>|
                #[trigger] retained(subs, chans).contains(x) <==> (subs.contains(x)
                    && !chans.contains(x)) by {
                lemma_concat_contains(seq![s0], retained(rest, chans), x);
                lemma_head_tail_contains(subs, x);
                assert(seq![s0][0] == s0);
                if seq![s0].contains(x) {
                    let i = choose|i: int| 0 <= i < seq![s0].len() && seq![s0][i] == x;
                    assert(i == 0);
                }
            }
            assert forall|x: Seq<char>|
                #[trigger] dropped(subs, chans).contains(x) <==> (subs.contains(x)
                    && chans.contains(x)) by {
                lemma_head_tail_contains(subs, x);
            }
            let r = retained(subs, chans);
            let rr = retained(rest, chans);
            assert forall|i: int, j: int| 0 <= i < j < r.len() implies r[i] != r[j] by {
                assert(r == seq![s0] + rr);
                assert(r[0] == s0);
                if i > 0 {
                    assert(r[i] == rr[i - 1]);
                    assert(r[j] == rr[j - 1]);
                } else {
                    assert(r[j] == rr[j - 1]);
                    assert(rr.contains(rr[j - 1]));
                    assert(!rest.contains(s0));
                }
            }
        }
    }
}

/// Removing identifiers none of which is subscribed removes nothing.
pub proof fn lemma_remove_none(subs: Seq<Seq<char>>, chans: Seq<Seq<char>>)
    requires
        forall|i: int| 0 <= i < subs.len() ==> !chans.contains(#[trigger] subs[i]),
    ensures
        retained(subs, chans) == subs,
        dropped(subs, chans) == Seq::<Seq<char>>::empty(),
    decreases subs.len(),
{
    if subs.len() == 0 {
        assert(retained(subs, chans) =~= subs);
    } else {
        assert(!chans.contains(subs[0]));
        assert(forall|i: int|
            0 <= i < subs.drop_first().len() ==> #[trigger] subs.drop_first()[i] == subs[i + 1]);
        lemma_remove_none(subs.drop_first(), chans);
        assert(seq![subs[0]] + subs.drop_first() =~= subs);
    }
}

// ---------------------------------------------------------------------
// The transition relation, one spec function per stimulus.
// ---------------------------------------------------------------------

/// The model projections of a [`Config`].
pub open spec fn config_url(c: Config) -> Seq<char> {
    c.url@
}

pub open spec fn config_heartbeat(c: Config) -> Option<(nat, Seq<char>)> {
    match c.heartbeat {
        Some(h) => Some((h.interval_secs as nat, h.payload@)),
        None => None,
    }
}

pub open spec fn config_retry_budget(c: Config) -> Option<nat> {
    match c.retry_budget {
        Some(b) => Some(b as nat),
        None => None,
    }
}

/// The model a fresh supervisor starts in: disconnected, nothing wanted.
pub open spec fn initial_model(c: Config) -> Model {
    Model {
        state: ConnState::Disconnected,
        subs: Seq::empty(),
        failures: 0,
        url: config_url(c),
        heartbeat: config_heartbeat(c),
        retry_budget: config_retry_budget(c),
    }
}

/// Every identifier of the request is either already wanted or can be
/// carried by some command; otherwise the request is rejected whole.
pub open spec fn sub_request_ok<P: ExchangePolicy>(m: Model, chans: Seq<Seq<char>>) -> bool {
    forall|i: int|
        0 <= i < chans.len() ==> (m.subs.contains(#[trigger] chans[i]) || P::spec_fits(chans[i]))
}

pub open spec fn spec_subscribe_model(m: Model, chans: Seq<Seq<char>>) -> Model {
    Model { subs: add_new(m.subs, chans), ..m }
}

/// The commands a subscribe call writes: those covering exactly the new
/// identifiers, and only on a live connection.
pub open spec fn spec_subscribe_cmds<P: ExchangePolicy>(m: Model, chans: Seq<Seq<char>>) -> Seq<
    Seq<char>,
> {
    if is_connected(m.state) && new_ones(m.subs, chans).len() > 0 {
        P::spec_commands(new_ones(m.subs, chans), true)
    } else {
        Seq::empty()
    }
}

pub open spec fn spec_unsubscribe_model(m: Model, chans: Seq<Seq<char>>) -> Model {
    Model { subs: retained(m.subs, chans), ..m }
}

/// The commands an unsubscribe call writes: those covering exactly the
/// identifiers actually removed, and only on a live connection.
pub open spec fn spec_unsubscribe_cmds<P: ExchangePolicy>(m: Model, chans: Seq<Seq<char>>) -> Seq<
    Seq<char>,
> {
    if is_connected(m.state) && dropped(m.subs, chans).len() > 0 {
        P::spec_commands(dropped(m.subs, chans), false)
    } else {
        Seq::empty()
    }
}

pub open spec fn spec_start(m: Model) -> Model {
    if m.state == ConnState::Disconnected {
        Model { state: ConnState::Connecting, ..m }
    } else {
        m
    }
}

pub open spec fn spec_close(m: Model) -> Model {
    Model { state: ConnState::Closed, ..m }
}

/// The replay on a successful (re)connect: one command sequence covering
/// the whole subscription set, in insertion order.
pub open spec fn spec_replay_cmds<P: ExchangePolicy>(m: Model) -> Seq<Seq<char>> {
    if m.subs.len() > 0 {
        P::spec_commands(m.subs, true)
    } else {
        Seq::empty()
    }
}

pub open spec fn spec_on_opened<P: ExchangePolicy>(m: Model) -> (Model, Seq<ActionView>) {
    if m.state == ConnState::Connecting || m.state == ConnState::Reconnecting {
        (
            Model { state: ConnState::ConnectedIdle, failures: 0, ..m },
            spec_replay_cmds::<P>(m).map_values(|c: Seq<char>| ActionView::Write(c)),
        )
    } else {
        (m, Seq::empty())
    }
}

pub open spec fn saturating_inc(f: nat) -> nat {
    if f < u64::MAX {
        f + 1
    } else {
        f
    }
}

pub open spec fn spec_on_open_failed(m: Model) -> (Model, Option<WsError>) {
    if m.state == ConnState::Connecting || m.state == ConnState::Reconnecting {
        let f = saturating_inc(m.failures);
        match m.retry_budget {
            Some(b) => if f > b {
                (Model { state: ConnState::Closed, failures: f, ..m }, Some(WsError::ConnectionError))
            } else {
                (Model { state: ConnState::Reconnecting, failures: f, ..m }, None)
            },
            None => (Model { state: ConnState::Reconnecting, failures: f, ..m }, None),
        }
    } else {
        (m, None)
    }
}

pub open spec fn spec_on_timer(m: Model) -> Seq<ActionView> {
    if is_connected(m.state) {
        match m.heartbeat {
            Some(h) => seq![ActionView::Write(h.1)],
            None => Seq::empty(),
        }
    } else {
        Seq::empty()
    }
}

pub open spec fn spec_on_transport_error(m: Model) -> Model {
    if m.state == ConnState::Closed || m.state == ConnState::Disconnected {
        m
    } else {
        Model { state: ConnState::Reconnecting, ..m }
    }
}

/// One inbound frame, already classified as `c`.
pub open spec fn spec_on_frame(m: Model, c: MiscMessageView, text: Seq<char>) -> (
    Model,
    Seq<ActionView>,
    Option<WsError>,
) {
    if !is_connected(m.state) {
        (m, Seq::empty(), None)
    } else {
        match c {
            MiscMessageView::Misc => (m, Seq::empty(), None),
            MiscMessageView::Pong => (m, seq![ActionView::ResetTimer], None),
            MiscMessageView::Normal => (
                Model { state: ConnState::ConnectedStreaming, ..m },
                seq![ActionView::Forward(text)],
                None,
            ),
            MiscMessageView::Reply(p) => (m, seq![ActionView::Write(p)], None),
            MiscMessageView::Fatal => (
                Model { state: ConnState::Closed, ..m },
                Seq::empty(),
                Some(WsError::ProtocolViolation),
            ),
        }
    }
}

// ---------------------------------------------------------------------
// The supervisor itself.
// ---------------------------------------------------------------------

/// Turns a command list into the write actions carrying it, in order.
fn writes_of(cmds: &Vec<String>) -> (r: Vec<Action>)
    ensures
        r.deep_view() == cmds.deep_view().map_values(|c: Seq<char>| ActionView::Write(c)),
{
    let mut out: Vec<Action> = Vec::new();
    let mut i: usize = 0;
    while i < cmds.len()
        invariant
            0 <= i <= cmds@.len(),
            cmds.deep_view().len() == cmds@.len(),
            out.deep_view().len() == i,
            forall|j: int|
                0 <= j < i ==> out.deep_view()[j] == ActionView::Write(
                    #[trigger] cmds.deep_view()[j],
                ),
        decreases cmds@.len() - i,
    {
        out.push(Action::Write(cmds[i].clone()));
        i = i + 1;
    }
    proof {
        assert(out.deep_view() =~= cmds.deep_view().map_values(
            |c: Seq<char>| ActionView::Write(c),
        ));
    }
    out
}

/// The generic connection supervisor for one exchange policy `P`.
pub struct Supervisor<P: ExchangePolicy> {
    state: ConnState,
    subs: Vec<String>,
    config: Config,
    failures: u64,
    policy: PhantomData<P>,
}

impl<P: ExchangePolicy> View for Supervisor<P> {
    type V = Model;

    closed spec fn view(&self) -> Model {
        Model {
            state: self.state,
            subs: self.subs.deep_view(),
            failures: self.failures as nat,
            url: config_url(self.config),
            heartbeat: config_heartbeat(self.config),
            retry_budget: config_retry_budget(self.config),
        }
    }
}

impl<P: ExchangePolicy> Supervisor<P> {
    #[verifier::type_invariant]
    spec fn type_inv(self) -> bool {
        wf_model::<P>(self.view())
    }

    /// A fresh supervisor: disconnected, with an empty subscription set.
    pub fn new(config: Config) -> (s: Self)
        ensures
            s@ == initial_model(config),
    {
        let s = Supervisor {
            state: ConnState::Disconnected,
            subs: Vec::new(),
            config,
            failures: 0,
            policy: PhantomData,
        };
        proof {
            assert(s.subs.deep_view() =~= Seq::<Seq<char>>::empty());
        }
        s
    }

    /// The current lifecycle state, for the driver.
    pub fn state(&self) -> (s: ConnState)
        ensures
            s == self@.state,
    {
        self.state
    }

    /// The wanted channel identifiers, in insertion order.
    pub fn subscriptions(&self) -> (r: &Vec<String>)
        ensures
            r.deep_view() == self@.subs,
    {
        &self.subs
    }

    /// The immutable configuration, for the driver.
    pub fn config(&self) -> (c: &Config)
        ensures
            config_url(*c) == self@.url,
            config_heartbeat(*c) == self@.heartbeat,
            config_retry_budget(*c) == self@.retry_budget,
    {
        &self.config
    }

    /// Begins the first connect attempt.
    pub fn start(&mut self)
        ensures
            final(self)@ == spec_start(old(self)@),
    {
        proof {
            use_type_invariant(&*self);
        }
        if self.state == ConnState::Disconnected {
            self.state = ConnState::Connecting;
        }
    }

    /// Unconditional, idempotent shutdown.  No action ever follows it.
    pub fn close(&mut self)
        ensures
            final(self)@ == spec_close(old(self)@),
    {
        proof {
            use_type_invariant(&*self);
        }
        self.state = ConnState::Closed;
    }

    /// The driver reports a successful handshake: the connection is live
    /// and the whole subscription set is replayed, before anything else
    /// is written.
    pub fn on_opened(&mut self) -> (r: Vec<Action>)
        ensures
            final(self)@ == spec_on_opened::<P>(old(self)@).0,
            r.deep_view() == spec_on_opened::<P>(old(self)@).1,
    {
        proof {
            use_type_invariant(&*self);
        }
        if self.state == ConnState::Connecting || self.state == ConnState::Reconnecting {
            self.state = ConnState::ConnectedIdle;
            self.failures = 0;
            if self.subs.len() > 0 {
                let cmds = P::commands(&self.subs, true);
                writes_of(&cmds)
            } else {
                let r: Vec<Action> = Vec::new();
                proof {
                    assert(r.deep_view() =~= spec_on_opened::<P>(old(self)@).1);
                }
                r
            }
        } else {
            let r: Vec<Action> = Vec::new();
            proof {
                assert(r.deep_view() =~= spec_on_opened::<P>(old(self)@).1);
            }
            r
        }
    }

    /// The driver reports a failed connect attempt.  Within the retry
    /// budget the supervisor asks for another try; past it the client is
    /// dead and the failure is surfaced exactly once.
    pub fn on_open_failed(&mut self) -> (r: Result<(), WsError>)
        ensures
            final(self)@ == spec_on_open_failed(old(self)@).0,
            match r {
                Ok(()) => spec_on_open_failed(old(self)@).1 is None,
                Err(e) => spec_on_open_failed(old(self)@).1 == Some(e),
            },
    {
        proof {
            use_type_invariant(&*self);
        }
        if self.state == ConnState::Connecting || self.state == ConnState::Reconnecting {
            if self.failures < u64::MAX {
                self.failures = self.failures + 1;
            }
            match self.config.retry_budget {
                Some(b) => {
                    if self.failures > b {
                        self.state = ConnState::Closed;
                        Err(WsError::ConnectionError)
                    } else {
                        self.state = ConnState::Reconnecting;
                        Ok(())
                    }
                },
                None => {
                    self.state = ConnState::Reconnecting;
                    Ok(())
                },
            }
        } else {
            Ok(())
        }
    }

    /// The heartbeat timer fired: on a live connection with a configured
    /// heartbeat, the ping payload is written; otherwise nothing happens.
    pub fn on_timer_fired(&mut self) -> (r: Vec<Action>)
        ensures
            final(self)@ == old(self)@,
            r.deep_view() == spec_on_timer(old(self)@),
    {
        proof {
            use_type_invariant(&*self);
        }
        let mut out: Vec<Action> = Vec::new();
        if self.state == ConnState::ConnectedIdle || self.state == ConnState::ConnectedStreaming {
            match &self.config.heartbeat {
                Some(h) => {
                    out.push(Action::Write(h.payload.clone()));
                },
                None => {},
            }
        }
        proof {
            assert(out.deep_view() =~= spec_on_timer(self@));
        }
        out
    }

    /// The driver reports a broken transport: a read or write error, or a
    /// peer-initiated close.  A running client reconnects; a closed one
    /// stays closed, so a shutdown-induced read error is not mistaken for
    /// a failure.
    pub fn on_transport_error(&mut self)
        ensures
            final(self)@ == spec_on_transport_error(old(self)@),
    {
        proof {
            use_type_invariant(&*self);
        }
        if !(self.state == ConnState::Closed || self.state == ConnState::Disconnected) {
            self.state = ConnState::Reconnecting;
        }
    }

    /// Adds the identifiers to the subscription set, in request order and
    /// skipping exact duplicates, and on a live connection returns the
    /// write actions covering exactly the new identifiers, in order.  A
    /// disconnected supervisor queues silently: the set itself is the
    /// replay queue, so the identifiers are eventually subscribed.  Fails,
    /// changing nothing, exactly when some genuinely new identifier's own
    /// command can never respect the frame bounds.
    pub fn subscribe(&mut self, channels: &Vec<String>) -> (r: Result<Vec<Action>, WsError>)
        ensures
            match r {
                Ok(acts) => sub_request_ok::<P>(old(self)@, channels.deep_view()) && final(self)@
                    == spec_subscribe_model(old(self)@, channels.deep_view())
                    && acts.deep_view() == spec_subscribe_cmds::<P>(
                    old(self)@,
                    channels.deep_view(),
                ).map_values(|c: Seq<char>| ActionView::Write(c)),
                Err(e) => e == WsError::FrameSizeError && !sub_request_ok::<P>(
                    old(self)@,
                    channels.deep_view(),
                ) && final(self)@ == old(self)@,
            },
    {
        proof {
            use_type_invariant(&*self);
        }
        let ghost m0 = self@;
        let ghost cv = channels.deep_view();
        let mut i: usize = 0;
        while i < channels.len()
            invariant
                *self == *old(self),
                m0 == self@,
                0 <= i <= channels@.len(),
                cv == channels.deep_view(),
                cv.len() == channels@.len(),
                forall|j: int|
                    0 <= j < i ==> (m0.subs.contains(#[trigger] cv[j]) || P::spec_fits(cv[j])),
            decreases channels@.len() - i,
        {
            proof {
                assert(cv[i as int] == channels@[i as int]@);
            }
            let present = crate::strutil::vec_contains_str(&self.subs, channels[i].as_str());
            if !present && !P::fits(&channels[i]) {
                proof {
                    assert(!(m0.subs.contains(cv[i as int]) || P::spec_fits(cv[i as int])));
                    assert(!sub_request_ok::<P>(m0, cv));
                }
                return Err(WsError::FrameSizeError);
            }
            i = i + 1;
        }
        assert(sub_request_ok::<P>(m0, cv));
        let mut news: Vec<String> = Vec::new();
        let mut i: usize = 0;
        proof {
            use_type_invariant(&*self);
            assert(cv.skip(0) =~= cv);
            assert(news.deep_view() =~= Seq::<Seq<char>>::empty());
            assert(m0.subs + news.deep_view() =~= m0.subs);
        }
        while i < channels.len()
            invariant
                *self == *old(self),
                m0 == self@,
                wf_model::<P>(m0),
                sub_request_ok::<P>(m0, cv),
                0 <= i <= channels@.len(),
                cv == channels.deep_view(),
                cv.len() == channels@.len(),
                add_new(m0.subs, cv) == add_new(m0.subs + news.deep_view(), cv.skip(i as int)),
                new_ones(m0.subs, cv) == news.deep_view() + new_ones(
                    m0.subs + news.deep_view(),
                    cv.skip(i as int),
                ),
            decreases channels@.len() - i,
        {
            let ghost acc = m0.subs + news.deep_view();
            let ghost rest = cv.skip(i as int);
            let ghost c = cv[i as int];
            proof {
                assert(c == channels@[i as int]@);
                assert(rest.len() > 0);
                assert(rest[0] == c);
                assert(rest.drop_first() =~= cv.skip(i as int + 1));
                lemma_concat_contains(m0.subs, news.deep_view(), c);
            }
            let in_subs = crate::strutil::vec_contains_str(&self.subs, channels[i].as_str());
            let in_news = crate::strutil::vec_contains_str(&news, channels[i].as_str());
            let ghost old_news = news.deep_view();
            if !in_subs && !in_news {
                proof {
                    assert(!acc.contains(c));
                    assert(add_new(acc, rest) == add_new(acc.push(c), rest.drop_first()));
                    assert(new_ones(acc, rest) == seq![c] + new_ones(
                        acc.push(c),
                        rest.drop_first(),
                    ));
                }
                news.push(channels[i].clone());
                proof {
                    assert(news.deep_view() =~= old_news.push(c));
                    assert(m0.subs + news.deep_view() =~= acc.push(c));
                    assert(old_news + (seq![c] + new_ones(acc.push(c), rest.drop_first())) =~= (
                    news.deep_view() + new_ones(acc.push(c), rest.drop_first())));
                }
            } else {
                proof {
                    assert(acc.contains(c));
                    assert(add_new(acc, rest) == add_new(acc, rest.drop_first()));
                    assert(new_ones(acc, rest) == new_ones(acc, rest.drop_first()));
                }
            }
            i = i + 1;
        }
        proof {
            assert(cv.skip(cv.len() as int) =~= Seq::<Seq<char>>::empty());
            let acc = m0.subs + news.deep_view();
            assert(add_new(acc, cv.skip(cv.len() as int)) == acc);
            assert(new_ones(acc, cv.skip(cv.len() as int)) =~= Seq::<Seq<char>>::empty());
            assert(add_new(m0.subs, cv) == m0.subs + news.deep_view());
            assert(news.deep_view() + Seq::<Seq<char>>::empty() =~= news.deep_view());
            assert(new_ones(m0.subs, cv) == news.deep_view());
            lemma_add_new_props(m0.subs, cv);
        }
        let connected = self.state == ConnState::ConnectedIdle || self.state
            == ConnState::ConnectedStreaming;
        let mut acts: Vec<Action> = Vec::new();
        if connected && news.len() > 0 {
            proof {
                assert forall|k: int|
                    0 <= k < news.deep_view().len() implies P::spec_fits(
                    #[trigger] news.deep_view()[k],
                ) by {
                    let x = news.deep_view()[k];
                    assert(new_ones(m0.subs, cv).contains(x));
                    assert(cv.contains(x) && !m0.subs.contains(x));
                    let j = choose|j: int| 0 <= j < cv.len() && cv[j] == x;
                    assert(m0.subs.contains(cv[j]) || P::spec_fits(cv[j]));
                }
            }
            let cmds = P::commands(&news, true);
            acts = writes_of(&cmds);
        } else {
            proof {
                assert(acts.deep_view() =~= Seq::<ActionView>::empty());
                assert(spec_subscribe_cmds::<P>(m0, cv).map_values(
                    |c: Seq<char>| ActionView::Write(c),
                ) =~= Seq::<ActionView>::empty());
            }
        }
        proof {
            assert forall|k: int|
                0 <= k < add_new(m0.subs, cv).len() implies P::spec_fits(
                #[trigger] add_new(m0.subs, cv)[k],
            ) by {
                let x = add_new(m0.subs, cv)[k];
                assert(add_new(m0.subs, cv).contains(x));
                assert(m0.subs.contains(x) || cv.contains(x));
                if m0.subs.contains(x) {
                    let j = choose|j: int| 0 <= j < m0.subs.len() && m0.subs[j] == x;
                    assert(P::spec_fits(m0.subs[j]));
                } else {
                    assert(new_ones(m0.subs, cv).contains(x) || m0.subs.contains(x)) by {
                        lemma_concat_contains(m0.subs, new_ones(m0.subs, cv), x);
                    }
                    let j = choose|j: int| 0 <= j < cv.len() && cv[j] == x;
                    assert(m0.subs.contains(cv[j]) || P::spec_fits(cv[j]));
                }
            }
        }
        let ghost news_v = news.deep_view();
        let mut subs: Vec<String> = Vec::new();
        core::mem::swap(&mut self.subs, &mut subs);
        subs.append(&mut news);
        proof {
            assert(subs.deep_view() =~= m0.subs + news_v);
            assert(subs.deep_view() == add_new(m0.subs, cv));
        }
        self.subs = subs;
        proof {
            assert(self@ == spec_subscribe_model(m0, cv));
        }
        Ok(acts)
    }

    /// Removes the identifiers from the subscription set; identifiers
    /// never subscribed are ignored.  On a live connection, returns the
    /// write actions covering exactly the identifiers actually removed,
    /// in subscription order.
    pub fn unsubscribe(&mut self, channels: &Vec<String>) -> (r: Vec<Action>)
        ensures
            final(self)@ == spec_unsubscribe_model(old(self)@, channels.deep_view()),
            r.deep_view() == spec_unsubscribe_cmds::<P>(
                old(self)@,
                channels.deep_view(),
            ).map_values(|c: Seq<char>| ActionView::Write(c)),
    {
        proof {
            use_type_invariant(&*self);
        }
        let ghost m0 = self@;
        let ghost cv = channels.deep_view();
        let mut kept: Vec<String> = Vec::new();
        let mut removed: Vec<String> = Vec::new();
        let mut j: usize = 0;
        proof {
            assert(m0.subs.skip(0) =~= m0.subs);
            assert(kept.deep_view() =~= Seq::<Seq<char>>::empty());
            assert(removed.deep_view() =~= Seq::<Seq<char>>::empty());
            assert(retained(m0.subs, cv) =~= kept.deep_view() + retained(m0.subs.skip(0), cv));
            assert(dropped(m0.subs, cv) =~= removed.deep_view() + dropped(m0.subs.skip(0), cv));
        }
        while j < self.subs.len()
            invariant
                *self == *old(self),
                m0 == self@,
                wf_model::<P>(m0),
                0 <= j <= self.subs@.len(),
                cv == channels.deep_view(),
                m0.subs.len() == self.subs@.len(),
                retained(m0.subs, cv) == kept.deep_view() + retained(m0.subs.skip(j as int), cv),
                dropped(m0.subs, cv) == removed.deep_view() + dropped(m0.subs.skip(j as int), cv),
            decreases self.subs@.len() - j,
        {
            let ghost rest = m0.subs.skip(j as int);
            proof {
                assert(rest.len() > 0);
                assert(rest[0] == m0.subs[j as int]);
                assert(rest.drop_first() =~= m0.subs.skip(j as int + 1));
                assert(m0.subs[j as int] == self.subs@[j as int]@);
            }
            let ghost old_kept = kept.deep_view();
            let ghost old_removed = removed.deep_view();
            let hit = crate::strutil::vec_contains_str(channels, self.subs[j].as_str());
            if hit {
                removed.push(self.subs[j].clone());
                proof {
                    assert(removed.deep_view() =~= old_removed.push(rest[0]));
                    assert(dropped(rest, cv) == seq![rest[0]] + dropped(rest.drop_first(), cv));
                    assert(old_removed + (seq![rest[0]] + dropped(rest.drop_first(), cv)) =~= (
                    old_removed.push(rest[0]) + dropped(rest.drop_first(), cv)));
                }
            } else {
                kept.push(self.subs[j].clone());
                proof {
                    assert(kept.deep_view() =~= old_kept.push(rest[0]));
                    assert(retained(rest, cv) == seq![rest[0]] + retained(rest.drop_first(), cv));
                    assert(old_kept + (seq![rest[0]] + retained(rest.drop_first(), cv)) =~= (
                    old_kept.push(rest[0]) + retained(rest.drop_first(), cv)));
                }
            }
            j = j + 1;
        }
        proof {
            assert(m0.subs.skip(j as int) =~= Seq::<Seq<char>>::empty());
            assert(kept.deep_view() + Seq::<Seq<char>>::empty() =~= kept.deep_view());
            assert(removed.deep_view() + Seq::<Seq<char>>::empty() =~= removed.deep_view());
            lemma_remove_props(m0.subs, cv);
            assert forall|k: int|
                0 <= k < retained(m0.subs, cv).len() implies P::spec_fits(
                #[trigger] retained(m0.subs, cv)[k],
            ) by {
                let x = retained(m0.subs, cv)[k];
                assert(retained(m0.subs, cv).contains(x));
                let i = choose|i: int| 0 <= i < m0.subs.len() && m0.subs[i] == x;
                assert(P::spec_fits(m0.subs[i]));
            }
        }
        let connected = self.state == ConnState::ConnectedIdle || self.state
            == ConnState::ConnectedStreaming;
        let mut acts: Vec<Action> = Vec::new();
        if connected && removed.len() > 0 {
            proof {
                assert forall|k: int|
                    0 <= k < removed.deep_view().len() implies P::spec_fits(
                    #[trigger] removed.deep_view()[k],
                ) by {
                    let x = removed.deep_view()[k];
                    assert(dropped(m0.subs, cv).contains(x));
                    let i = choose|i: int| 0 <= i < m0.subs.len() && m0.subs[i] == x;
                    assert(P::spec_fits(m0.subs[i]));
                }
            }
            let cmds = P::commands(&removed, false);
            acts = writes_of(&cmds);
        } else {
            proof {
                assert(acts.deep_view() =~= Seq::<ActionView>::empty());
                assert(spec_unsubscribe_cmds::<P>(m0, cv).map_values(
                    |c: Seq<char>| ActionView::Write(c),
                ) =~= Seq::<ActionView>::empty());
            }
        }
        self.subs = kept;
        proof {
            assert(self@ == spec_unsubscribe_model(m0, cv));
        }
        acts
    }

    /// Applies one already-classified inbound frame: the decision logic of
    /// the read loop, exact for every classification outcome.  Nothing is
    /// written or forwarded unless the connection is live.
    pub fn apply_classified(&mut self, outcome: MiscMessage, text: &str) -> (r: Result<
        Vec<Action>,
        WsError,
    >)
        ensures
            final(self)@ == spec_on_frame(old(self)@, outcome@, text@).0,
            match r {
                Ok(acts) => acts.deep_view() == spec_on_frame(old(self)@, outcome@, text@).1
                    && spec_on_frame(old(self)@, outcome@, text@).2 is None,
                Err(e) => spec_on_frame(old(self)@, outcome@, text@).2 == Some(e),
            },
    {
        proof {
            use_type_invariant(&*self);
        }
        let mut acts: Vec<Action> = Vec::new();
        let connected = self.state == ConnState::ConnectedIdle || self.state
            == ConnState::ConnectedStreaming;
        if !connected {
            proof {
                assert(acts.deep_view() =~= Seq::<ActionView>::empty());
            }
            return Ok(acts);
        }
        match outcome {
            MiscMessage::Misc => {
                proof {
                    assert(acts.deep_view() =~= Seq::<ActionView>::empty());
                }
                Ok(acts)
            },
            MiscMessage::Pong => {
                acts.push(Action::ResetTimer);
                proof {
                    assert(acts.deep_view() =~= seq![ActionView::ResetTimer]);
                }
                Ok(acts)
            },
            MiscMessage::Normal => {
                self.state = ConnState::ConnectedStreaming;
                acts.push(Action::Forward(String::from_str(text)));
                proof {
                    assert(acts.deep_view() =~= seq![ActionView::Forward(text@)]);
                }
                Ok(acts)
            },
            MiscMessage::Reply(p) => {
                let ghost pv = p@;
                acts.push(Action::Write(p));
                proof {
                    assert(acts.deep_view() =~= seq![ActionView::Write(pv)]);
                }
                Ok(acts)
            },
            MiscMessage::Fatal => {
                self.state = ConnState::Closed;
                Err(WsError::ProtocolViolation)
            },
        }
    }

    /// Classifies one inbound text frame through the policy and applies
    /// the outcome.
    pub fn on_frame(&mut self, text: &str) -> (r: Result<Vec<Action>, WsError>)
        ensures
            exists|c: MiscMessageView|
                #[trigger] P::classify_ok(text@, c) && final(self)@ == spec_on_frame(
                    old(self)@,
                    c,
                    text@,
                ).0 && (match r {
                    Ok(acts) => acts.deep_view() == spec_on_frame(old(self)@, c, text@).1
                        && spec_on_frame(old(self)@, c, text@).2 is None,
                    Err(e) => spec_on_frame(old(self)@, c, text@).2 == Some(e),
                }),
    {
        let outcome = P::classify(text);
        let ghost cw = outcome@;
        let r = self.apply_classified(outcome, text);
        proof {
            assert(P::classify_ok(text@, cw));
        }
        r
    }
}

// ---------------------------------------------------------------------
// The engine's laws.
// ---------------------------------------------------------------------

/// Law: subscribing an identifier that is new, then subscribing it again,
/// leaves the subscription set holding it exactly once (the set stays
/// duplicate-free), writes the command sequence covering it on the first
/// call, and writes nothing on the second.
pub proof fn lemma_subscribe_twice<P: ExchangePolicy>(m: Model, chan: Seq<char>)
    requires
        wf_model::<P>(m),
        !m.subs.contains(chan),
        P::spec_fits(chan),
        is_connected(m.state),
    ensures
        spec_subscribe_model(m, seq![chan]).subs == m.subs.push(chan),
        distinct(spec_subscribe_model(m, seq![chan]).subs),
        spec_subscribe_cmds::<P>(m, seq![chan]) == P::spec_commands(seq![chan], true),
        spec_subscribe_model(spec_subscribe_model(m, seq![chan]), seq![chan])
            == spec_subscribe_model(m, seq![chan]),
        spec_subscribe_cmds::<P>(spec_subscribe_model(m, seq![chan]), seq![chan])
            == Seq::<Seq<char>>::empty(),
{
    let one = seq![chan];
    assert(one[0] == chan);
    assert(one.drop_first() =~= Seq::<Seq<char>>::empty());
    assert(add_new(m.subs, one) == add_new(m.subs.push(chan), one.drop_first()));
    assert(add_new(m.subs.push(chan), one.drop_first()) == m.subs.push(chan));
    assert(new_ones(m.subs.push(chan), one.drop_first()) =~= Seq::<Seq<char>>::empty());
    assert(new_ones(m.subs, one) == seq![chan] + Seq::<Seq<char>>::empty());
    assert(seq![chan] + Seq::<Seq<char>>::empty() =~= one);
    lemma_add_new_props(m.subs, one);
    let m1 = spec_subscribe_model(m, one);
    assert(m1.subs == m.subs.push(chan));
    assert(m1.subs.contains(chan)) by {
        lemma_push_contains(m.subs, chan, chan);
    }
    assert(add_new(m1.subs, one) == m1.subs);
    assert(new_ones(m1.subs, one) =~= Seq::<Seq<char>>::empty());
    assert(spec_subscribe_model(m1, one) == m1);
}

/// Law: unsubscribing identifiers none of which was ever subscribed is a
/// no-op: the subscription set is unchanged and no command is written.
pub proof fn lemma_unsubscribe_absent_noop<P: ExchangePolicy>(m: Model, chans: Seq<Seq<char>>)
    requires
        forall|i: int| 0 <= i < chans.len() ==> !m.subs.contains(#[trigger] chans[i]),
    ensures
        spec_unsubscribe_model(m, chans) == m,
        spec_unsubscribe_cmds::<P>(m, chans) == Seq::<Seq<char>>::empty(),
{
    assert forall|i: int| 0 <= i < m.subs.len() implies !chans.contains(#[trigger] m.subs[i]) by {
        if chans.contains(m.subs[i]) {
            let k = choose|k: int| 0 <= k < chans.len() && chans[k] == m.subs[i];
            assert(m.subs.contains(m.subs[i]));
        }
    }
    lemma_remove_none(m.subs, chans);
    assert(spec_unsubscribe_model(m, chans) == m);
}

/// Law: after a transport failure on a live connection, the next
/// successful reconnect replays, before anything else, one command
/// sequence covering exactly the subscription set as it stood, in
/// insertion order.
pub proof fn lemma_reconnect_replays<P: ExchangePolicy>(m: Model)
    requires
        is_connected(m.state),
    ensures
        spec_on_transport_error(m).state == ConnState::Reconnecting,
        spec_on_transport_error(m).subs == m.subs,
        spec_on_opened::<P>(spec_on_transport_error(m)).0.state == ConnState::ConnectedIdle,
        spec_on_opened::<P>(spec_on_transport_error(m)).0.subs == m.subs,
        spec_on_opened::<P>(spec_on_transport_error(m)).1 == spec_replay_cmds::<P>(m).map_values(
            |c: Seq<char>| ActionView::Write(c),
        ),
{
    let m1 = spec_on_transport_error(m);
    assert(m1.subs == m.subs);
    assert(spec_replay_cmds::<P>(m1) == spec_replay_cmds::<P>(m));
}

/// Law: a closed supervisor is closed for good and never acts again: no
/// stimulus yields a write, a forward or a timer reset, and none leaves
/// the closed state.  In particular a subscribe in flight while the
/// client closes can no longer reach the socket.
pub proof fn lemma_closed_no_actions<P: ExchangePolicy>(
    m: Model,
    chans: Seq<Seq<char>>,
    c: MiscMessageView,
    text: Seq<char>,
)
    requires
        m.state == ConnState::Closed,
    ensures
        spec_subscribe_cmds::<P>(m, chans) == Seq::<Seq<char>>::empty(),
        spec_subscribe_model(m, chans).state == ConnState::Closed,
        spec_unsubscribe_cmds::<P>(m, chans) == Seq::<Seq<char>>::empty(),
        spec_unsubscribe_model(m, chans).state == ConnState::Closed,
        spec_on_opened::<P>(m).0 == m,
        spec_on_opened::<P>(m).1 == Seq::<ActionView>::empty(),
        spec_on_timer(m) == Seq::<ActionView>::empty(),
        spec_on_frame(m, c, text).0 == m,
        spec_on_frame(m, c, text).1 == Seq::<ActionView>::empty(),
        spec_on_transport_error(m) == m,
        spec_start(m) == m,
        spec_close(m) == m,
{
}

} // verus!
