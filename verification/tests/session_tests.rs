use indexer::binance::{
    BinanceRequestMethod, BinanceTicker, BinanceWsCallback,
};
use indexer::coinbase::{CoinbaseRequestType, CoinbaseTicker, CoinbaseWsCallback};
use indexer::decimal::Dec;
use indexer::exchange::ExchangeConfig;
use indexer::kraken::{
    KrakenChannelData, KrakenChannelMessage, KrakenChannelType, KrakenDataType, KrakenMessage,
    KrakenRequest, KrakenTicker, KrakenWsCallback,
};
use indexer::models::{Source, TickerSymbol};
use indexer::wsframe::{frame_action, FrameAction, WsFrame};

const NOW_MS: i64 = 1_700_000_000_000;

fn dec(mantissa: i128, scale: u32) -> Dec {
    Dec { mantissa, scale }
}

fn binance_config(instruments: Vec<&str>) -> ExchangeConfig {
    ExchangeConfig::new(
        "wss://stream.binance.com:9443/ws".to_string(),
        vec!["ticker".to_string()],
        instruments.into_iter().map(|s| s.to_string()).collect(),
        3000,
    )
}

#[test]
fn test_live_reconfiguration() {
    // Session subscribed to BTCUSDT; the new config adds ETHUSDT.
    let mut callback = BinanceWsCallback::new(binance_config(vec!["BTCUSDT"]));
    let first = callback.subscribe();
    assert!(matches!(first.method, BinanceRequestMethod::Subscribe));
    assert_eq!(first.id, 1);
    assert_eq!(first.params, vec!["btcusdt@ticker".to_string()]);

    let frames = callback.handle_config_change(binance_config(vec!["BTCUSDT", "ETHUSDT"]));
    assert_eq!(frames.len(), 2);

    assert!(matches!(frames[0].method, BinanceRequestMethod::Unsubscribe));
    assert_eq!(frames[0].params, vec!["btcusdt@ticker".to_string()]);

    assert!(matches!(frames[1].method, BinanceRequestMethod::Subscribe));
    assert_eq!(
        frames[1].params,
        vec!["btcusdt@ticker".to_string(), "ethusdt@ticker".to_string()]
    );

    // Every frame draws a fresh id: ids increase strictly across the wire.
    assert!(first.id < frames[0].id);
    assert!(frames[0].id < frames[1].id);
    assert_eq!(frames[0].id, 2);
    assert_eq!(frames[1].id, 3);
}

#[test]
fn test_unchanged_config_sends_nothing() {
    let mut callback = BinanceWsCallback::new(binance_config(vec!["BTCUSDT"]));
    callback.subscribe();
    // The same instrument set in a different order is the same set.
    let frames = callback.handle_config_change(binance_config(vec!["BTCUSDT"]));
    assert!(frames.is_empty());
    assert!(!callback.has_config_changed(&binance_config(vec!["BTCUSDT"])));
}

#[test]
fn test_binance_ticker_normalization() {
    let frame = BinanceTicker {
        event_type: "24hrTicker".to_string(),
        event_time_ms: NOW_MS,
        symbol: "BTCUSDT".to_string(),
        last_price: dec(25, 3),
    };
    let ticker = frame.to_ticker().unwrap();
    assert_eq!(ticker.symbol, TickerSymbol::BTCUSD);
    assert_eq!(ticker.source, Source::Binance);
    assert_eq!(ticker.timestamp_ms, NOW_MS);
    assert!(ticker.price.eq_num(dec(25, 3)));

    let unknown = BinanceTicker {
        event_type: "24hrTicker".to_string(),
        event_time_ms: NOW_MS,
        symbol: "BNBBTC".to_string(),
        last_price: dec(1, 0),
    };
    assert!(unknown.to_ticker().is_none());
}

#[test]
fn test_kraken_subscribe_per_channel() {
    let config = ExchangeConfig::new(
        "wss://ws.kraken.com/v2".to_string(),
        vec!["ticker".to_string(), "heartbeat".to_string()],
        vec!["BTC/USD".to_string(), "ETH/USD".to_string()],
        3000,
    );
    let callback = KrakenWsCallback::new(config);
    let frames = callback.subscribe();
    assert_eq!(frames.len(), 2);
    match &frames[0] {
        KrakenRequest::Subscribe { params } => {
            assert_eq!(params.channel, "ticker");
            assert_eq!(
                params.symbol,
                vec!["BTC/USD".to_string(), "ETH/USD".to_string()]
            );
        }
        _ => panic!("Expected a subscribe frame"),
    }
    match &frames[1] {
        KrakenRequest::Subscribe { params } => {
            assert_eq!(params.channel, "heartbeat");
        }
        _ => panic!("Expected a subscribe frame"),
    }
}

#[test]
fn test_kraken_reconfiguration_order() {
    let old_config = ExchangeConfig::new(
        "wss://ws.kraken.com/v2".to_string(),
        vec!["ticker".to_string()],
        vec!["BTC/USD".to_string()],
        3000,
    );
    let new_config = ExchangeConfig::new(
        "wss://ws.kraken.com/v2".to_string(),
        vec!["ticker".to_string()],
        vec!["BTC/USD".to_string(), "ETH/USD".to_string()],
        3000,
    );
    let mut callback = KrakenWsCallback::new(old_config);
    let frames = callback.handle_config_change(new_config);
    assert_eq!(frames.len(), 2);
    assert!(matches!(frames[0], KrakenRequest::Unsubscribe { .. }));
    assert!(matches!(frames[1], KrakenRequest::Subscribe { .. }));
}

#[test]
fn test_kraken_ticker_normalization() {
    let message = KrakenMessage::ChannelMessage(KrakenChannelMessage {
        data_type: KrakenDataType::Update,
        channel: KrakenChannelType::Ticker,
        data: KrakenChannelData::Ticker(vec![
            KrakenTicker {
                symbol: "BTC/USD".to_string(),
                last: dec(10035, 5),
            },
            KrakenTicker {
                symbol: "ALGO/USD".to_string(),
                last: dec(10035, 5),
            },
        ]),
    });
    // Kraken frames carry no event time: tickers carry the receipt instant.
    let tickers = message.get_tickers_internal(NOW_MS);
    assert_eq!(tickers.len(), 1); // the unknown symbol is dropped
    assert_eq!(tickers[0].symbol, TickerSymbol::BTCUSD);
    assert_eq!(tickers[0].source, Source::Kraken);
    assert_eq!(tickers[0].timestamp_ms, NOW_MS);
    assert!(tickers[0].price.eq_num(dec(10035, 5)));
}

#[test]
fn test_coinbase_single_frame_reconfiguration() {
    let old_config = ExchangeConfig::new(
        "wss://ws-feed.exchange.coinbase.com".to_string(),
        vec!["ticker".to_string()],
        vec!["BTC-USD".to_string()],
        3000,
    );
    let new_config = ExchangeConfig::new(
        "wss://ws-feed.exchange.coinbase.com".to_string(),
        vec!["ticker".to_string()],
        vec!["BTC-USD".to_string(), "ETH-USD".to_string()],
        3000,
    );
    let mut callback = CoinbaseWsCallback::new(old_config);
    let frames = callback.handle_config_change(new_config);
    assert_eq!(frames.len(), 2);
    assert!(matches!(
        frames[0].request_type,
        CoinbaseRequestType::Unsubscribe
    ));
    assert_eq!(frames[0].product_ids, vec!["BTC-USD".to_string()]);
    assert!(matches!(
        frames[1].request_type,
        CoinbaseRequestType::Subscribe
    ));
    assert_eq!(
        frames[1].product_ids,
        vec!["BTC-USD".to_string(), "ETH-USD".to_string()]
    );
}

#[test]
fn test_coinbase_ticker_normalization() {
    let frame = CoinbaseTicker {
        product_id: "ETH-USD".to_string(),
        price: dec(2000, 0),
        time_ms: NOW_MS,
    };
    let ticker = frame.to_ticker().unwrap();
    assert_eq!(ticker.symbol, TickerSymbol::ETHUSD);
    assert_eq!(ticker.source, Source::Coinbase);
    assert_eq!(ticker.timestamp_ms, NOW_MS);
}

#[test]
fn test_ping_answered_by_pong_with_same_payload() {
    let payload = vec![1u8, 2, 3];
    match frame_action(&WsFrame::Ping(payload.clone())) {
        FrameAction::ReplyPong(reply) => assert_eq!(reply, payload),
        _ => panic!("Expected a pong reply"),
    }
    assert!(matches!(
        frame_action(&WsFrame::Close),
        FrameAction::CloseConnection
    ));
    assert!(matches!(
        frame_action(&WsFrame::Binary(vec![0u8])),
        FrameAction::Ignore
    ));
    assert!(matches!(
        frame_action(&WsFrame::Text("{}".to_string())),
        FrameAction::ProcessText
    ));
}

#[test]
fn test_exchange_config_dedups_sets() {
    let config = ExchangeConfig::new(
        "wss://example".to_string(),
        vec!["ticker".to_string(), "ticker".to_string()],
        vec!["BTCUSDT".to_string(), "BTCUSDT".to_string()],
        3000,
    );
    assert_eq!(config.get_channels().len(), 1);
    assert_eq!(config.get_instruments().len(), 1);
}
