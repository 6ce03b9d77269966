//! The connection supervisor driven through the client facades: the
//! subscription set, replay after reconnect, heartbeats, classification
//! and shutdown.

use crypto_ws_client::classify::MiscMessage;
use crypto_ws_client::errors::WsError;
use crypto_ws_client::supervisor::{Action, ConnState, Config, Supervisor};
use crypto_ws_client::{bitget, bitmex, kraken};
use crypto_ws_client::{BitgetSwapWSClient, BitmexWSClient, KrakenWSClient};

fn strings(v: &[&str]) -> Vec<String> {
    v.iter().map(|s| s.to_string()).collect()
}

fn writes(actions: &[Action]) -> Vec<String> {
    actions
        .iter()
        .filter_map(|a| match a {
            Action::Write(s) => Some(s.clone()),
            _ => None,
        })
        .collect()
}

fn connected_bitmex() -> BitmexWSClient {
    let mut c = BitmexWSClient::new();
    c.client.start();
    let replay = c.client.on_opened();
    assert!(replay.is_empty());
    assert_eq!(ConnState::ConnectedIdle, c.client.state());
    c
}

fn connected_bitget() -> BitgetSwapWSClient {
    let mut c = BitgetSwapWSClient::new();
    c.client.start();
    let replay = c.client.on_opened();
    assert!(replay.is_empty());
    assert_eq!(ConnState::ConnectedIdle, c.client.state());
    c
}

#[test]
fn duplicate_subscribe_writes_one_command() {
    let mut c = connected_bitmex();
    let first = c.subscribe(&strings(&["trade:XBTUSD"])).unwrap();
    assert_eq!(
        vec![r#"{"op":"subscribe","args":["trade:XBTUSD"]}"#.to_string()],
        writes(&first)
    );
    let second = c.subscribe(&strings(&["trade:XBTUSD"])).unwrap();
    assert!(second.is_empty());
    assert_eq!(&strings(&["trade:XBTUSD"]), c.client.subscriptions());
}

#[test]
fn reconnect_replays_the_subscription_set_in_order() {
    let mut c = connected_bitmex();
    c.subscribe(&strings(&["trade:XBTUSD"])).unwrap();
    c.subscribe(&strings(&["quote:XBTUSD"])).unwrap();
    // the transport fails while subscribed to both
    c.client.on_transport_error();
    assert_eq!(ConnState::Reconnecting, c.client.state());
    // the next successful connect replays exactly the set, in insertion
    // order, before anything else is written
    let replay = c.client.on_opened();
    assert_eq!(
        vec![r#"{"op":"subscribe","args":["trade:XBTUSD","quote:XBTUSD"]}"#.to_string()],
        writes(&replay)
    );
    assert_eq!(ConnState::ConnectedIdle, c.client.state());
}

#[test]
fn unsubscribe_of_unknown_channel_is_a_noop() {
    let mut c = connected_bitmex();
    c.subscribe(&strings(&["trade:XBTUSD"])).unwrap();
    let actions = c.unsubscribe(&strings(&["quote:ETHUSD"]));
    assert!(actions.is_empty());
    assert_eq!(&strings(&["trade:XBTUSD"]), c.client.subscriptions());
}

#[test]
fn unsubscribe_writes_the_unsubscribe_command() {
    let mut c = connected_bitmex();
    c.subscribe(&strings(&["trade:XBTUSD", "quote:XBTUSD"])).unwrap();
    let actions = c.unsubscribe(&strings(&["trade:XBTUSD"]));
    assert_eq!(
        vec![r#"{"op":"unsubscribe","args":["trade:XBTUSD"]}"#.to_string()],
        writes(&actions)
    );
    assert_eq!(&strings(&["quote:XBTUSD"]), c.client.subscriptions());
}

#[test]
fn subscribe_while_disconnected_queues_silently() {
    let mut c = BitmexWSClient::new();
    let actions = c.subscribe(&strings(&["trade:XBTUSD"])).unwrap();
    assert!(actions.is_empty());
    assert_eq!(&strings(&["trade:XBTUSD"]), c.client.subscriptions());
    // the set itself is the replay queue: connecting subscribes it
    c.client.start();
    let replay = c.client.on_opened();
    assert_eq!(
        vec![r#"{"op":"subscribe","args":["trade:XBTUSD"]}"#.to_string()],
        writes(&replay)
    );
}

#[test]
fn no_write_after_close() {
    let mut c = connected_bitmex();
    c.subscribe(&strings(&["trade:XBTUSD"])).unwrap();
    c.close();
    assert_eq!(ConnState::Closed, c.client.state());
    // a subscribe racing with the close can no longer reach the socket
    let actions = c.subscribe(&strings(&["quote:XBTUSD"])).unwrap();
    assert!(writes(&actions).is_empty());
    // nor can the heartbeat or a late inbound frame
    assert!(c.client.on_timer_fired().is_empty());
    let acts = c.client.on_frame(r#"{"table":"trade","action":"insert","data":[{}]}"#).unwrap();
    assert!(acts.is_empty());
    // the shutdown-induced read error does not resurrect the client
    c.client.on_transport_error();
    assert_eq!(ConnState::Closed, c.client.state());
    c.close();
    assert_eq!(ConnState::Closed, c.client.state());
}

#[test]
fn heartbeat_timer_writes_the_ping_payload() {
    let mut c = connected_bitmex();
    let actions = c.client.on_timer_fired();
    assert_eq!(vec!["ping".to_string()], writes(&actions));
    // no heartbeat while disconnected
    let mut d = BitmexWSClient::new();
    assert!(d.client.on_timer_fired().is_empty());
}

#[test]
fn pong_resets_the_heartbeat_timer() {
    let mut c = connected_bitmex();
    let actions = c.client.on_frame("pong").unwrap();
    assert!(matches!(actions[..], [Action::ResetTimer]));
}

#[test]
fn normal_frames_are_forwarded_unmodified() {
    let mut c = connected_bitmex();
    let frame = r#"{"table":"trade","action":"insert","data":[{"px":1}]}"#;
    let actions = c.client.on_frame(frame).unwrap();
    match &actions[..] {
        [Action::Forward(s)] => assert_eq!(frame, s),
        other => panic!("expected one forward, got {:?}", other),
    }
    assert_eq!(ConnState::ConnectedStreaming, c.client.state());
}

#[test]
fn fatal_frame_surfaces_protocol_violation_and_closes() {
    let mut c = connected_bitget();
    let r = c.client.on_frame(r#"{"event":"error","message":"no such channel"}"#);
    assert_eq!(Err(WsError::ProtocolViolation), r);
    assert_eq!(ConnState::Closed, c.client.state());
}

#[test]
fn retry_budget_exhaustion_is_fatal_once() {
    let cfg = Config {
        url: "wss://www.bitmex.com/realtime".to_string(),
        heartbeat: None,
        retry_budget: Some(2),
    };
    let mut s = Supervisor::<bitmex::BitmexPolicy>::new(cfg);
    s.start();
    assert_eq!(Ok(()), s.on_open_failed());
    assert_eq!(ConnState::Reconnecting, s.state());
    assert_eq!(Ok(()), s.on_open_failed());
    assert_eq!(Err(WsError::ConnectionError), s.on_open_failed());
    assert_eq!(ConnState::Closed, s.state());
}

#[test]
fn kraken_heartbeat_demands_a_ping_reply() {
    let r = kraken::on_misc_msg(r#"{"event":"heartbeat"}"#);
    match r {
        MiscMessage::Reply(p) => assert_eq!(r#"{"event":"ping","reqid":9527}"#, p),
        other => panic!("expected a reply, got {:?}", other),
    }
    // and the supervisor writes it back without forwarding the frame
    let mut c = KrakenWSClient::new();
    c.client.start();
    c.client.on_opened();
    let actions = c.client.on_frame(r#"{"event":"heartbeat"}"#).unwrap();
    assert_eq!(vec![r#"{"event":"ping","reqid":9527}"#.to_string()], writes(&actions));
}

#[test]
fn kraken_data_arrays_are_normal_and_noise_is_ignorable() {
    assert!(matches!(
        kraken::on_misc_msg(r#"[42,{"a":["1.0","2.0"]},"trade","XBT/USD"]"#),
        MiscMessage::Normal
    ));
    assert!(matches!(
        kraken::on_misc_msg(r#"{"event":"pong","reqid":9527}"#),
        MiscMessage::Misc
    ));
    assert!(matches!(kraken::on_misc_msg("not json at all"), MiscMessage::Misc));
}

#[test]
fn bitmex_classifier_outcomes() {
    assert!(matches!(bitmex::on_misc_msg("pong"), MiscMessage::Pong));
    assert!(matches!(
        bitmex::on_misc_msg(r#"{"table":"trade","action":"insert","data":[{}]}"#),
        MiscMessage::Normal
    ));
    // an authoritative rejection is fatal rather than retried forever
    assert!(matches!(
        bitmex::on_misc_msg(r#"{"error":"Unknown table foo","status":400}"#),
        MiscMessage::Fatal
    ));
    // a rate limit is noise to the classifier: pacing is the
    // supervisor's business
    assert!(matches!(
        bitmex::on_misc_msg(r#"{"error":"Rate limit exceeded","status":429}"#),
        MiscMessage::Misc
    ));
    assert!(matches!(
        bitmex::on_misc_msg(r#"{"error":"You are already subscribed to this topic","status":400}"#),
        MiscMessage::Misc
    ));
    assert!(matches!(
        bitmex::on_misc_msg(r#"{"success":true,"subscribe":"trade:XBTUSD"}"#),
        MiscMessage::Misc
    ));
    assert!(matches!(bitmex::on_misc_msg("garbage"), MiscMessage::Misc));
}

#[test]
fn bitget_classifier_outcomes() {
    assert!(matches!(bitget::on_misc_msg("pong"), MiscMessage::Pong));
    assert!(matches!(
        bitget::on_misc_msg(r#"{"event":"error","code":30001}"#),
        MiscMessage::Fatal
    ));
    assert!(matches!(
        bitget::on_misc_msg(r#"{"event":"subscribe","channel":"swap/trade:btcusd"}"#),
        MiscMessage::Misc
    ));
    assert!(matches!(
        bitget::on_misc_msg(r#"{"table":"swap/trade","data":[{"price":"1"}]}"#),
        MiscMessage::Normal
    ));
    // an empty data array carries nothing to forward
    assert!(matches!(
        bitget::on_misc_msg(r#"{"table":"swap/trade","data":[]}"#),
        MiscMessage::Misc
    ));
    assert!(matches!(
        bitget::on_misc_msg(r#"{"action":"ping"}"#),
        MiscMessage::Misc
    ));
    assert!(matches!(bitget::on_misc_msg("garbage"), MiscMessage::Misc));
}

#[test]
fn unsupported_methods_fail_loudly() {
    let mut bm = BitmexWSClient::new();
    assert_eq!(Err(WsError::Unsupported), bm.subscribe_ticker(&strings(&["XBTUSD"])));
    let mut bg = BitgetSwapWSClient::new();
    assert_eq!(Err(WsError::Unsupported), bg.subscribe_bbo(&strings(&["btcusd"])));
    assert_eq!(
        Err(WsError::Unsupported),
        bg.subscribe_candlestick(&strings(&["btcusd"]), 7)
    );
    let mut kr = KrakenWSClient::new();
    assert_eq!(Err(WsError::Unsupported), kr.subscribe_orderbook(&strings(&["XBT/USD"])));
}

// -----------------------------------------------------------------
// The uniform engine driven with another venue's channel identifiers:
// raw identifiers are opaque to the supervisor, so a client queues,
// replays and deduplicates them all the same.
// -----------------------------------------------------------------

#[test]
fn deribit_platform_state() {
    let mut c = BitgetSwapWSClient::new();
    let chans = strings(&["trades.future.BTC.raw", "trades.future.ETH.raw"]);
    let queued = c.subscribe(&chans).unwrap();
    assert!(queued.is_empty());
    c.client.start();
    let replay = c.client.on_opened();
    assert_eq!(
        vec![r#"{"op":"subscribe","args":["trades.future.BTC.raw","trades.future.ETH.raw"]}"#
            .to_string()],
        writes(&replay)
    );
    assert_eq!(&chans, c.client.subscriptions());
}

#[test]
fn deribit_subscribe() {
    let mut c = connected_bitget();
    let chans = strings(&["trades.BTC-PERPETUAL.raw"]);
    let actions = c.subscribe(&chans).unwrap();
    assert_eq!(
        vec![r#"{"op":"subscribe","args":["trades.BTC-PERPETUAL.raw"]}"#.to_string()],
        writes(&actions)
    );
    assert!(c.subscribe(&chans).unwrap().is_empty());
    assert_eq!(&chans, c.client.subscriptions());
}

#[test]
fn deribit_subscribe_trade() {
    let mut c = connected_bitget();
    let actions = c.subscribe_trade(&strings(&["BTC-PERPETUAL"])).unwrap();
    assert_eq!(
        vec![r#"{"op":"subscribe","args":["swap/trade:BTC-PERPETUAL"]}"#.to_string()],
        writes(&actions)
    );
}

#[test]
fn deribit_subscribe_ticker() {
    let mut c = connected_bitget();
    let actions = c.subscribe_ticker(&strings(&["BTC-PERPETUAL"])).unwrap();
    assert_eq!(
        vec![r#"{"op":"subscribe","args":["swap/ticker:BTC-PERPETUAL"]}"#.to_string()],
        writes(&actions)
    );
}

#[test]
fn deribit_subscribe_orderbook() {
    let mut c = connected_bitget();
    let actions = c.subscribe_orderbook(&strings(&["BTC-PERPETUAL"])).unwrap();
    assert_eq!(
        vec![r#"{"op":"subscribe","args":["swap/depth:BTC-PERPETUAL"]}"#.to_string()],
        writes(&actions)
    );
}

#[test]
fn deribit_subscribe_orderbook_snapshot() {
    let mut c = connected_bitget();
    let actions = c.subscribe_orderbook_topk(&strings(&["BTC-PERPETUAL"])).unwrap();
    assert_eq!(
        vec![r#"{"op":"subscribe","args":["swap/depth5:BTC-PERPETUAL"]}"#.to_string()],
        writes(&actions)
    );
}

#[test]
fn deribit_subscribe_candlestick() {
    let mut c = connected_bitget();
    let actions = c.subscribe_candlestick(&strings(&["BTC-PERPETUAL"]), 60).unwrap();
    assert_eq!(
        vec![r#"{"op":"subscribe","args":["swap/candle60s:BTC-PERPETUAL"]}"#.to_string()],
        writes(&actions)
    );
    let actions = c.subscribe_candlestick(&strings(&["BTC-PERPETUAL"]), 86400).unwrap();
    assert_eq!(
        vec![r#"{"op":"subscribe","args":["swap/candle86400s:BTC-PERPETUAL"]}"#.to_string()],
        writes(&actions)
    );
}

#[test]
fn subscribe() {
    let mut c = connected_bitget();
    let chans = strings(&["trades.future.BTC.raw"]);
    let actions = c.subscribe(&chans).unwrap();
    assert_eq!(
        vec![r#"{"op":"subscribe","args":["trades.future.BTC.raw"]}"#.to_string()],
        writes(&actions)
    );
    assert_eq!(&chans, c.client.subscriptions());
}

#[test]
fn subscribe_trade() {
    let mut c = connected_bitget();
    let actions = c.subscribe_trade(&strings(&["BTC-26MAR21"])).unwrap();
    assert_eq!(
        vec![r#"{"op":"subscribe","args":["swap/trade:BTC-26MAR21"]}"#.to_string()],
        writes(&actions)
    );
}

#[test]
fn subscribe_ticker() {
    let mut c = connected_bitget();
    let actions = c.subscribe_ticker(&strings(&["BTC-26MAR21"])).unwrap();
    assert_eq!(
        vec![r#"{"op":"subscribe","args":["swap/ticker:BTC-26MAR21"]}"#.to_string()],
        writes(&actions)
    );
}

#[test]
fn subscribe_orderbook() {
    let mut c = connected_bitget();
    let actions = c.subscribe_orderbook(&strings(&["BTC-26MAR21"])).unwrap();
    assert_eq!(
        vec![r#"{"op":"subscribe","args":["swap/depth:BTC-26MAR21"]}"#.to_string()],
        writes(&actions)
    );
}

#[test]
fn subscribe_orderbook_snapshot() {
    let mut c = connected_bitget();
    let actions = c.subscribe_orderbook_topk(&strings(&["BTC-26MAR21"])).unwrap();
    assert_eq!(
        vec![r#"{"op":"subscribe","args":["swap/depth5:BTC-26MAR21"]}"#.to_string()],
        writes(&actions)
    );
}

#[test]
fn subscribe_candlestick() {
    let mut c = connected_bitget();
    let actions = c.subscribe_candlestick(&strings(&["BTC-26MAR21"]), 60).unwrap();
    assert_eq!(
        vec![r#"{"op":"subscribe","args":["swap/candle60s:BTC-26MAR21"]}"#.to_string()],
        writes(&actions)
    );
    let actions = c.subscribe_candlestick(&strings(&["BTC-26MAR21"]), 86400).unwrap();
    assert_eq!(
        vec![r#"{"op":"subscribe","args":["swap/candle86400s:BTC-26MAR21"]}"#.to_string()],
        writes(&actions)
    );
}
