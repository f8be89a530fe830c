use indexer::decimal::Dec;
use indexer::errors::AppError;
use indexer::models::{AppInternalMessage, Source, Ticker, TickerSymbol};
use indexer::weighted::{
    WeightedAverageConfig, WeightedAverageConfigChangeHandler, WeightedAverageProcessor,
};

const NOW_MS: i64 = 1_700_000_000_000;

fn dec(mantissa: i128, scale: u32) -> Dec {
    Dec { mantissa, scale }
}

fn create_test_ticker(source: Source, symbol: TickerSymbol, price: Dec, age_ms: i64) -> Ticker {
    Ticker {
        symbol,
        price,
        source,
        timestamp_ms: NOW_MS - age_ms,
    }
}

fn setup_processor() -> WeightedAverageProcessor {
    let config = WeightedAverageConfig {
        weights: vec![
            (Source::Binance, dec(40, 0)),
            (Source::Kraken, dec(30, 0)),
            (Source::Coinbase, dec(30, 0)),
        ],
        stale_threshold_ms: 5000, // 5 seconds
    };
    WeightedAverageProcessor::new(config).unwrap()
}

fn process(
    processor: &mut WeightedAverageProcessor,
    input: Vec<Ticker>,
) -> Option<AppInternalMessage> {
    processor.process_tickers(&input, NOW_MS).unwrap()
}

#[test]
fn test_basic_weighted_average() {
    let mut processor = setup_processor();

    let tickers = vec![
        create_test_ticker(Source::Binance, TickerSymbol::BTCUSD, dec(10000, 0), 0),
        create_test_ticker(Source::Kraken, TickerSymbol::BTCUSD, dec(10100, 0), 0),
        create_test_ticker(Source::Coinbase, TickerSymbol::BTCUSD, dec(10200, 0), 0),
    ];

    if let Some(AppInternalMessage::Tickers(output)) = process(&mut processor, tickers) {
        // (10000*40 + 10100*30 + 10200*30) / 100
        assert!(output[0].price.eq_num(dec(10090, 0)));
        assert_eq!(output[0].source, Source::IndexerWeightedAverage);
    } else {
        panic!("Expected weighted average output");
    }
}

#[test]
fn test_stale_prices() {
    let mut processor = setup_processor();

    let tickers = vec![
        create_test_ticker(Source::Binance, TickerSymbol::BTCUSD, dec(10000, 0), 0), // fresh
        create_test_ticker(Source::Kraken, TickerSymbol::BTCUSD, dec(10100, 0), 6000), // stale
        create_test_ticker(Source::Coinbase, TickerSymbol::BTCUSD, dec(10200, 0), 6000), // stale
    ];

    let result = process(&mut processor, tickers);
    assert!(result.is_none()); // Should not produce output with only 40% weight
}

#[test]
fn test_partial_updates() {
    let mut processor = setup_processor();

    // First update - Binance only (40% weight)
    let tickers = vec![create_test_ticker(
        Source::Binance,
        TickerSymbol::BTCUSD,
        dec(10000, 0),
        0,
    )];
    let result = process(&mut processor, tickers);
    assert!(result.is_none()); // Not enough weight

    // Second update - Kraken (now 70% total weight)
    let tickers = vec![create_test_ticker(
        Source::Kraken,
        TickerSymbol::BTCUSD,
        dec(10100, 0),
        0,
    )];
    if let Some(AppInternalMessage::Tickers(output)) = process(&mut processor, tickers) {
        // Expected: (10000*40 + 10100*30) / 70
        assert!(output[0]
            .price
            .eq_num(dec(10042857142857142857142857143, 24)));
    } else {
        panic!("Expected weighted average with 70% weight coverage");
    }
}

#[test]
fn weighted_average_test_multiple_symbols() {
    let mut processor = setup_processor();

    let tickers = vec![
        create_test_ticker(Source::Binance, TickerSymbol::BTCUSD, dec(10000, 0), 0),
        create_test_ticker(Source::Kraken, TickerSymbol::BTCUSD, dec(10100, 0), 0),
        create_test_ticker(Source::Binance, TickerSymbol::ETHUSD, dec(1000, 0), 0),
        create_test_ticker(Source::Kraken, TickerSymbol::ETHUSD, dec(1010, 0), 0),
    ];

    if let Some(AppInternalMessage::Tickers(output)) = process(&mut processor, tickers) {
        assert_eq!(output.len(), 2); // Should have both BTC and ETH

        let btc = output
            .iter()
            .find(|t| t.symbol == TickerSymbol::BTCUSD)
            .unwrap();
        let eth = output
            .iter()
            .find(|t| t.symbol == TickerSymbol::ETHUSD)
            .unwrap();

        // BTC: (10000*40 + 10100*30) / 70
        assert!(btc.price.eq_num(dec(10042857142857142857142857143, 24)));

        // ETH: (1000*40 + 1010*30) / 70
        assert!(eth.price.eq_num(dec(10042857142857142857142857143, 25)));
    } else {
        panic!("Expected weighted averages for both symbols");
    }
}

#[test]
fn test_price_updates() {
    let mut processor = setup_processor();

    // Initial prices
    let tickers = vec![
        create_test_ticker(Source::Binance, TickerSymbol::BTCUSD, dec(10000, 0), 0),
        create_test_ticker(Source::Kraken, TickerSymbol::BTCUSD, dec(10100, 0), 0),
    ];
    process(&mut processor, tickers);

    // Update Binance price
    let tickers = vec![create_test_ticker(
        Source::Binance,
        TickerSymbol::BTCUSD,
        dec(10500, 0),
        0,
    )];

    if let Some(AppInternalMessage::Tickers(output)) = process(&mut processor, tickers) {
        // Expected: (10500*40 + 10100*30) / 70
        assert!(output[0]
            .price
            .eq_num(dec(10328571428571428571428571429, 24)));
    } else {
        panic!("Expected updated weighted average");
    }
}

#[test]
fn test_invalid_config() {
    let config = WeightedAverageConfig {
        weights: vec![
            (Source::Binance, dec(40, 0)),
            (Source::Kraken, dec(40, 0)), // Total 110
            (Source::Coinbase, dec(30, 0)),
        ],
        stale_threshold_ms: 5000,
    };

    assert!(WeightedAverageProcessor::new(config).is_err());
}

#[test]
fn test_validate_empty_weights() {
    let config = WeightedAverageConfig {
        weights: Vec::new(),
        stale_threshold_ms: 5000,
    };
    match config.validate() {
        Err(AppError::Unrecoverable(m)) => assert_eq!(m, "weights cannot be empty"),
        _ => panic!("Expected rejection of empty weights"),
    }
}

#[test]
fn test_validate_small_weight() {
    let config = WeightedAverageConfig {
        weights: vec![(Source::Binance, dec(1, 0)), (Source::Kraken, dec(99, 0))],
        stale_threshold_ms: 5000,
    };
    match config.validate() {
        Err(AppError::Unrecoverable(m)) => assert_eq!(m, "weight must be greater than 1"),
        _ => panic!("Expected rejection of a weight at one"),
    }
}

#[test]
fn test_validate_wrong_sum() {
    let config = WeightedAverageConfig {
        weights: vec![(Source::Binance, dec(60, 0)), (Source::Kraken, dec(30, 0))],
        stale_threshold_ms: 5000,
    };
    match config.validate() {
        Err(AppError::Unrecoverable(m)) => assert_eq!(m, "weights must sum to 100"),
        _ => panic!("Expected rejection of a wrong total"),
    }
}

#[test]
fn test_validate_fractional_weights() {
    // Weights may be fractional as long as the exact sum is one hundred.
    let config = WeightedAverageConfig {
        weights: vec![
            (Source::Binance, dec(405, 1)),  // 40.5
            (Source::Kraken, dec(295, 1)),   // 29.5
            (Source::Coinbase, dec(30, 0)),  // 30
        ],
        stale_threshold_ms: 5000,
    };
    assert!(config.validate().unwrap());
}

#[test]
fn test_weight_config_change_evicts_dropped_source() {
    let mut processor = setup_processor();

    // Store one price per source.
    let tickers = vec![
        create_test_ticker(Source::Binance, TickerSymbol::BTCUSD, dec(10000, 0), 0),
        create_test_ticker(Source::Kraken, TickerSymbol::BTCUSD, dec(10100, 0), 0),
        create_test_ticker(Source::Coinbase, TickerSymbol::BTCUSD, dec(10200, 0), 0),
    ];
    process(&mut processor, tickers);
    assert_eq!(processor.latest_prices.len(), 3);

    // Drop Coinbase from the weights: its stored price must be evicted.
    let new_config = WeightedAverageConfig {
        weights: vec![(Source::Binance, dec(60, 0)), (Source::Kraken, dec(40, 0))],
        stale_threshold_ms: 5000,
    };
    processor.handle_config_change(new_config).unwrap();
    assert_eq!(processor.latest_prices.len(), 2);
    assert!(processor
        .latest_prices
        .iter()
        .all(|(k, _)| k.source != Source::Coinbase));

    // A rejected table leaves everything unchanged.
    let bad_config = WeightedAverageConfig {
        weights: vec![(Source::Binance, dec(10, 0))],
        stale_threshold_ms: 5000,
    };
    assert!(processor.handle_config_change(bad_config).is_err());
    assert_eq!(processor.latest_prices.len(), 2);
}

#[test]
fn test_unweighted_source_is_not_stored() {
    let mut processor = setup_processor();
    let tickers = vec![create_test_ticker(
        Source::IndexerSmoothing,
        TickerSymbol::BTCUSD,
        dec(9999, 0),
        0,
    )];
    let result = process(&mut processor, tickers);
    assert!(result.is_none());
    assert!(processor.latest_prices.is_empty());
}
