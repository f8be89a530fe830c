use indexer::backoff::Backoff;
use indexer::config::{FeedConfig, IndexerConfig};
use indexer::decimal::Dec;
use indexer::exchange::{Exchange, ExchangeConfig};
use indexer::feed::flatten_messages;
use indexer::models::{AppInternalMessage, Source, Ticker, TickerSymbol};
use indexer::smoothing::{SmaParams, SmoothingConfig};

const NOW_MS: i64 = 1_700_000_000_000;

fn dec(mantissa: i128, scale: u32) -> Dec {
    Dec { mantissa, scale }
}

#[test]
fn test_backoff_default_schedule() {
    // 10 attempts, 1 s to 20 s, doubling: 1, 2, 4, 8, 16, then capped.
    let mut backoff = Backoff::default();
    let mut delays = Vec::new();
    while let Some(d) = backoff.next() {
        delays.push(d);
    }
    assert_eq!(delays, vec![1, 2, 4, 8, 16, 20, 20, 20, 20, 20]);
    assert_eq!(backoff.get_iteration_count(), 10);
    // Exhausted: no more delays.
    assert!(backoff.next().is_none());
}

#[test]
fn test_backoff_reset_restarts() {
    let mut backoff = Backoff::new(3, 2, 8, 2);
    assert_eq!(backoff.next(), Some(2));
    assert_eq!(backoff.next(), Some(4));
    assert_eq!(backoff.next(), Some(8));
    assert!(backoff.next().is_none());
    backoff.reset();
    assert_eq!(backoff.get_iteration_count(), 0);
    assert_eq!(backoff.next(), Some(2));
}

#[test]
fn test_backoff_delays_non_decreasing() {
    let mut backoff = Backoff::new(20, 1, 50, 3);
    let mut prev: u32 = 0;
    while let Some(d) = backoff.next() {
        assert!(d >= prev);
        assert!(d <= 50);
        prev = d;
    }
    assert_eq!(backoff.get_iteration_count(), 20);
}

#[test]
fn test_symbol_mappings() {
    assert_eq!(
        TickerSymbol::from_binance_symbol("BTCUSDT"),
        Some(TickerSymbol::BTCUSD)
    );
    assert_eq!(
        TickerSymbol::from_binance_symbol("ETHUSD"),
        Some(TickerSymbol::ETHUSD)
    );
    assert_eq!(TickerSymbol::from_binance_symbol("BTC/USD"), None);
    assert_eq!(
        TickerSymbol::from_kraken_symbol("BTC/USD"),
        Some(TickerSymbol::BTCUSD)
    );
    assert_eq!(TickerSymbol::from_kraken_symbol("BTCUSD"), None);
    assert_eq!(
        TickerSymbol::from_coinbase_symbol("ETH-USD"),
        Some(TickerSymbol::ETHUSD)
    );
    assert_eq!(TickerSymbol::from_coinbase_symbol("DOGE-USD"), None);
}

#[test]
fn test_exchange_from_source() {
    assert_eq!(
        Exchange::from_source(&Source::Binance),
        Some(Exchange::Binance)
    );
    assert_eq!(
        Exchange::from_source(&Source::Kraken),
        Some(Exchange::Kraken)
    );
    assert_eq!(
        Exchange::from_source(&Source::Coinbase),
        Some(Exchange::Coinbase)
    );
    assert_eq!(Exchange::from_source(&Source::IndexerSmoothing), None);
    assert_eq!(Exchange::from_source(&Source::IndexerWeightedAverage), None);
}

#[test]
fn test_decimal_exact_arithmetic() {
    // 0.1 + 0.2 is exactly 0.3 in decimal arithmetic.
    let sum = dec(1, 1).checked_add(dec(2, 1)).unwrap();
    assert!(sum.eq_num(dec(3, 1)));
    // 1.5 * 2.5 is exactly 3.75.
    let product = dec(15, 1).checked_mul(dec(25, 1)).unwrap();
    assert!(product.eq_num(dec(375, 2)));
    // 1 / 8 is exactly 0.125.
    let quotient = dec(1, 0).checked_div(dec(8, 0)).unwrap();
    assert!(quotient.eq_num(dec(125, 3)));
    // Subtraction is exact: 1 - 0.3 is exactly 0.7.
    let difference = dec(1, 0).checked_sub(dec(3, 1)).unwrap();
    assert!(difference.eq_num(dec(7, 1)));
    // Division by zero is refused.
    assert!(dec(1, 0).checked_div(dec(0, 0)).is_none());
    // Comparisons are numeric, not structural.
    assert!(dec(10, 0).eq_num(dec(100, 1)));
    assert!(!dec(10, 0).eq_num(dec(11, 0)));
    assert!(dec(1, 1).lt(dec(2, 1)));
    assert!(!dec(2, 1).lt(dec(1, 1)));
    assert!(dec(2, 1).le(dec(20, 2)));
    assert!(!dec(21, 2).le(dec(2, 1)));
}

#[test]
fn test_flatten_preserves_order() {
    let t = |price: i128| Ticker {
        symbol: TickerSymbol::BTCUSD,
        price: dec(price, 0),
        source: Source::Binance,
        timestamp_ms: NOW_MS,
    };
    let msgs = vec![
        AppInternalMessage::Tickers(vec![t(1), t(2)]),
        AppInternalMessage::Tickers(vec![t(3)]),
        AppInternalMessage::Tickers(vec![t(4), t(5)]),
    ];
    let flat = flatten_messages(&msgs);
    let prices: Vec<i128> = flat.iter().map(|t| t.price.mantissa).collect();
    assert_eq!(prices, vec![1, 2, 3, 4, 5]);
}

#[test]
fn test_collect_weights_skips_idle_entries() {
    let feed = |instruments: Vec<&str>, weight: i128| FeedConfig {
        exchange_config: ExchangeConfig::new(
            "wss://example".to_string(),
            vec!["ticker".to_string()],
            instruments.into_iter().map(|s| s.to_string()).collect(),
            3000,
        ),
        smoothing_config: SmoothingConfig::SimpleMovingAverage {
            params: SmaParams { window: 10 },
        },
        weight: dec(weight, 0),
    };
    let config = IndexerConfig {
        binance: Some(feed(vec!["BTCUSDT"], 40)),
        kraken: Some(feed(vec![], 30)),
        coinbase: Some(feed(vec!["BTC-USD"], 30)),
    };
    let weights = config.collect_weights();
    assert_eq!(weights.len(), 2);
    assert_eq!(weights[0].0, Source::Binance);
    assert_eq!(weights[1].0, Source::Coinbase);

    assert!(config.get_exchange_config(Exchange::Kraken).is_some());
    assert!(config
        .get_weight(Exchange::Binance)
        .unwrap()
        .eq_num(dec(40, 0)));
    assert!(matches!(
        config.get_smoothing_config(Exchange::Coinbase),
        Some(SmoothingConfig::SimpleMovingAverage { .. })
    ));
}
