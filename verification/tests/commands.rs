//! Command construction: per-exchange encoders and the frame batcher.

use crypto_ws_client::batch::{channels_to_batched_commands, FrameLimits};
use crypto_ws_client::errors::WsError;
use crypto_ws_client::opcmd::OpArgsEncoder;
use crypto_ws_client::{bitget, bitmex, gate, kraken};

fn strings(v: &[&str]) -> Vec<String> {
    v.iter().map(|s| s.to_string()).collect()
}

#[test]
fn test_one_channel() {
    let commands = bitmex::channels_to_commands(&strings(&["trade:XBTUSD"]), true);
    assert_eq!(1, commands.len());
    assert_eq!(r#"{"op":"subscribe","args":["trade:XBTUSD"]}"#, commands[0]);
}

#[test]
fn test_multiple_channels() {
    let commands = bitmex::channels_to_commands(
        &strings(&[
            "trade:XBTUSD",
            "quote:XBTUSD",
            "orderBookL2_25:XBTUSD",
            "tradeBin1m:XBTUSD",
        ]),
        true,
    );
    assert_eq!(1, commands.len());
    assert_eq!(
        r#"{"op":"subscribe","args":["trade:XBTUSD","quote:XBTUSD","orderBookL2_25:XBTUSD","tradeBin1m:XBTUSD"]}"#,
        commands[0]
    );
}

#[test]
fn test_one_pair() {
    assert_eq!(
        r#"{"event":"subscribe","pair":["XBT/USD"],"subscription":{"name":"trade"}}"#,
        kraken::name_pairs_to_command("trade", &strings(&["XBT/USD"]), true)
    );

    assert_eq!(
        r#"{"event":"unsubscribe","pair":["XBT/USD"],"subscription":{"name":"trade"}}"#,
        kraken::name_pairs_to_command("trade", &strings(&["XBT/USD"]), false)
    );
}

#[test]
fn test_two_pairs() {
    assert_eq!(
        r#"{"event":"subscribe","pair":["XBT/USD","ETH/USD"],"subscription":{"name":"trade"}}"#,
        kraken::name_pairs_to_command("trade", &strings(&["XBT/USD", "ETH/USD"]), true)
    );

    assert_eq!(
        r#"{"event":"unsubscribe","pair":["XBT/USD","ETH/USD"],"subscription":{"name":"trade"}}"#,
        kraken::name_pairs_to_command("trade", &strings(&["XBT/USD", "ETH/USD"]), false)
    );
}

#[test]
fn bitmex_raw_commands_pass_through_unbatched() {
    let raw = r#"{"op":"subscribe","args":["instrument"]}"#;
    let commands =
        bitmex::channels_to_commands(&strings(&[raw, "trade:XBTUSD", "quote:XBTUSD"]), true);
    assert_eq!(2, commands.len());
    assert_eq!(raw, commands[0]);
    assert_eq!(
        r#"{"op":"subscribe","args":["trade:XBTUSD","quote:XBTUSD"]}"#,
        commands[1]
    );
}

#[test]
fn bitmex_batches_twenty_channels_per_command() {
    let channels: Vec<String> = (0..45).map(|i| format!("trade:SYM{}", i)).collect();
    let commands = bitmex::channels_to_commands(&channels, true);
    assert_eq!(3, commands.len());
    // every channel appears exactly once, in order, across the commands
    let joined = commands.join("");
    for c in &channels {
        let quoted = format!("{:?}", c);
        assert_eq!(1, joined.matches(quoted.as_str()).count());
    }
    assert!(commands[0].contains("trade:SYM0") && commands[0].contains("trade:SYM19"));
    assert!(commands[1].contains("trade:SYM20") && commands[1].contains("trade:SYM39"));
    assert!(commands[2].contains("trade:SYM40") && commands[2].contains("trade:SYM44"));
}

#[test]
fn bitmex_unsubscribe_command() {
    let commands = bitmex::channels_to_commands(&strings(&["trade:XBTUSD"]), false);
    assert_eq!(1, commands.len());
    assert_eq!(r#"{"op":"unsubscribe","args":["trade:XBTUSD"]}"#, commands[0]);
}

#[test]
fn bitmex_channel_names() {
    assert_eq!("trade:XBTUSD", bitmex::to_raw_channel("trade", "XBTUSD"));
    assert_eq!(
        "tradeBin1m:XBTUSD",
        bitmex::to_candlestick_raw_channel("XBTUSD", 60)
    );
    assert_eq!(
        "tradeBin1d:XBTUSD",
        bitmex::to_candlestick_raw_channel("XBTUSD", 86400)
    );
}

#[test]
fn bitget_channel_names() {
    assert_eq!("swap/trade:btcusd", bitget::to_raw_channel("trade", "btcusd"));
    assert_eq!(
        "swap/candle60s:btcusd",
        bitget::to_candlestick_raw_channel("btcusd", 60)
    );
}

#[test]
fn bitget_one_command_under_the_limit() {
    let commands =
        bitget::channels_to_commands(&strings(&["swap/trade:btcusd", "swap/depth:btcusd"]), true)
            .unwrap();
    assert_eq!(1, commands.len());
    assert_eq!(
        r#"{"op":"subscribe","args":["swap/trade:btcusd","swap/depth:btcusd"]}"#,
        commands[0]
    );
}

#[test]
fn bitget_splits_at_the_frame_size() {
    // each channel is 100 bytes plus JSON quoting; far more than fit in
    // one 4096-byte command
    let channels: Vec<String> = (0..80)
        .map(|i| format!("swap/trade:{}{}", "x".repeat(95), i))
        .collect();
    let commands = bitget::channels_to_commands(&channels, true).unwrap();
    assert!(commands.len() > 1);
    for c in &commands {
        assert!(c.len() <= 4096);
    }
    let joined = commands.join("");
    for ch in &channels {
        let quoted = format!("{:?}", ch);
        assert_eq!(1, joined.matches(quoted.as_str()).count());
    }
}

#[test]
fn frame_size_error_on_oversized_identifier() {
    let huge = format!("swap/trade:{}", "x".repeat(5000));
    let r = bitget::channels_to_commands(&vec![huge], true);
    assert_eq!(Err(WsError::FrameSizeError), r);
}

#[test]
fn batcher_packs_minimally_at_forty_bytes() {
    // overhead {"op":"subscribe","args":[]}; five six-byte identifiers:
    // one identifier gives a 36-byte command, two give 45 bytes, so a
    // 40-byte bound forces one identifier per command
    let channels = strings(&["aaaaaa", "bbbbbb", "cccccc", "dddddd", "eeeeee"]);
    let limits = FrameLimits { max_bytes: Some(40), max_channels: None };
    let commands =
        channels_to_batched_commands::<OpArgsEncoder>(&channels, true, &limits).unwrap();
    assert_eq!(
        vec![
            r#"{"op":"subscribe","args":["aaaaaa"]}"#,
            r#"{"op":"subscribe","args":["bbbbbb"]}"#,
            r#"{"op":"subscribe","args":["cccccc"]}"#,
            r#"{"op":"subscribe","args":["dddddd"]}"#,
            r#"{"op":"subscribe","args":["eeeeee"]}"#,
        ],
        commands
    );
    // a 45-byte bound fits exactly two per command
    let limits = FrameLimits { max_bytes: Some(45), max_channels: None };
    let commands =
        channels_to_batched_commands::<OpArgsEncoder>(&channels, true, &limits).unwrap();
    assert_eq!(
        vec![
            r#"{"op":"subscribe","args":["aaaaaa","bbbbbb"]}"#,
            r#"{"op":"subscribe","args":["cccccc","dddddd"]}"#,
            r#"{"op":"subscribe","args":["eeeeee"]}"#,
        ],
        commands
    );
}

#[test]
fn batcher_without_limits_emits_one_command() {
    let channels = strings(&["aaaaaa", "bbbbbb", "cccccc"]);
    let limits = FrameLimits { max_bytes: None, max_channels: None };
    let commands =
        channels_to_batched_commands::<OpArgsEncoder>(&channels, true, &limits).unwrap();
    assert_eq!(1, commands.len());
    assert_eq!(
        r#"{"op":"subscribe","args":["aaaaaa","bbbbbb","cccccc"]}"#,
        commands[0]
    );
}

#[test]
fn kraken_groups_channels_by_name() {
    let commands = kraken::channels_to_commands(
        &strings(&["trade:XBT/USD", "ticker:XBT/USD", "trade:ETH/USD"]),
        true,
    );
    assert_eq!(2, commands.len());
    assert_eq!(
        r#"{"event":"subscribe","pair":["XBT/USD","ETH/USD"],"subscription":{"name":"trade"}}"#,
        commands[0]
    );
    assert_eq!(
        r#"{"event":"subscribe","pair":["XBT/USD"],"subscription":{"name":"ticker"}}"#,
        commands[1]
    );
}

#[test]
fn kraken_channel_names() {
    assert_eq!("trade:XBT/USD", kraken::to_raw_channel("trade", "XBT/USD"));
}

#[test]
fn gate_one_command_per_channel() {
    let commands = gate::channels_to_commands(
        &strings(&["futures.trades:BTC_USD", "futures.tickers:ETH_USD"]),
        true,
    );
    assert_eq!(
        vec![
            r#"{"channel":"futures.trades","event":"subscribe","payload":["BTC_USD"]}"#,
            r#"{"channel":"futures.tickers","event":"subscribe","payload":["ETH_USD"]}"#,
        ],
        commands
    );
    let commands = gate::channels_to_commands(&strings(&["futures.trades:BTC_USD"]), false);
    assert_eq!(
        vec![r#"{"channel":"futures.trades","event":"unsubscribe","payload":["BTC_USD"]}"#],
        commands
    );
}

#[test]
fn gate_channel_names() {
    assert_eq!(
        "futures.trades:BTC_USD",
        gate::to_raw_channel("futures.trades", "BTC_USD")
    );
    assert_eq!(
        "futures.candlesticks:1m_BTC_USD",
        gate::to_candlestick_raw_channel("BTC_USD", 60)
    );
    assert_eq!(
        "futures.candlesticks:1d_BTC_USD",
        gate::to_candlestick_raw_channel("BTC_USD", 86400)
    );
}

#[test]
fn error_descriptions_are_nonempty() {
    assert!(!WsError::ConnectionError.describe().is_empty());
    assert!(!WsError::FrameSizeError.describe().is_empty());
    assert!(!WsError::ProtocolViolation.describe().is_empty());
    assert!(!WsError::Unsupported.describe().is_empty());
}

#[test]
fn empty_requests_produce_no_commands() {
    assert!(bitmex::channels_to_commands(&Vec::new(), true).is_empty());
    assert!(bitget::channels_to_commands(&Vec::new(), true).unwrap().is_empty());
    assert!(kraken::channels_to_commands(&Vec::new(), true).is_empty());
    assert!(gate::channels_to_commands(&Vec::new(), true).is_empty());
}

#[test]
fn kraken_channel_without_a_pair_gets_an_empty_pair() {
    let commands = kraken::channels_to_commands(&strings(&["justname"]), true);
    assert_eq!(
        vec![r#"{"event":"subscribe","pair":[""],"subscription":{"name":"justname"}}"#],
        commands
    );
}
