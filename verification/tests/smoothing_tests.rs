use indexer::decimal::Dec;
use indexer::exchange::Exchange;
use indexer::models::{AppInternalMessage, Source, Ticker, TickerSymbol};
use indexer::smoothing::{
    EmaParams, SmaParams, SmoothingConfig, SmoothingConfigChangeHandler, SmoothingProcessor,
};

const NOW_MS: i64 = 1_700_000_000_000;

fn dec(mantissa: i128, scale: u32) -> Dec {
    Dec { mantissa, scale }
}

fn create_test_ticker(symbol: TickerSymbol, price: Dec) -> Ticker {
    Ticker {
        symbol,
        price,
        source: Source::Binance,
        timestamp_ms: NOW_MS,
    }
}

fn process(
    processor: &mut SmoothingProcessor,
    input: Vec<Ticker>,
) -> Option<AppInternalMessage> {
    processor.process_tickers(&input, NOW_MS).unwrap()
}

#[test]
fn test_ema_first_value() {
    let config = SmoothingConfig::ExponentialMovingAverage {
        params: EmaParams::new(10, dec(2, 0)),
    };
    let mut processor = SmoothingProcessor::new(config);

    // First value should be returned as-is
    let input = vec![create_test_ticker(TickerSymbol::BTCUSD, dec(100, 0))];

    if let Some(AppInternalMessage::Tickers(output)) = process(&mut processor, input) {
        assert!(output[0].price.eq_num(dec(100, 0)));
    } else {
        panic!("Expected first EMA value");
    }
}

#[test]
fn test_ema_sequence() {
    let config = SmoothingConfig::ExponentialMovingAverage {
        params: EmaParams::new(10, dec(2, 0)),
    };
    let mut processor = SmoothingProcessor::new(config);

    // Test sequence: 100, 200, 150 with alpha = 2/(10+1)
    let alpha = dec(2, 0).checked_div(dec(11, 0)).unwrap();

    // First value: 100
    let input = vec![create_test_ticker(TickerSymbol::BTCUSD, dec(100, 0))];
    process(&mut processor, input);

    // Second value: 200
    let input = vec![create_test_ticker(TickerSymbol::BTCUSD, dec(200, 0))];
    let expected2 = dec(100, 0)
        .checked_add(dec(200, 0).checked_sub(dec(100, 0)).unwrap().checked_mul(alpha).unwrap())
        .unwrap();
    if let Some(AppInternalMessage::Tickers(output)) = process(&mut processor, input) {
        assert!(output[0].price.eq_num(expected2));
    } else {
        panic!("Expected second EMA value");
    }

    // Third value: 150
    let input = vec![create_test_ticker(TickerSymbol::BTCUSD, dec(150, 0))];
    if let Some(AppInternalMessage::Tickers(output)) = process(&mut processor, input) {
        let step = dec(150, 0).checked_sub(expected2).unwrap().checked_mul(alpha).unwrap();
        let expected3 = expected2.checked_add(step).unwrap();
        assert!(output[0].price.eq_num(expected3));
    } else {
        panic!("Expected third EMA value");
    }
}

#[test]
fn smoothing_test_multiple_symbols() {
    let config = SmoothingConfig::ExponentialMovingAverage {
        params: EmaParams::new(10, dec(2, 0)),
    };
    let mut processor = SmoothingProcessor::new(config);

    // Test two symbols simultaneously
    let input = vec![
        create_test_ticker(TickerSymbol::BTCUSD, dec(100, 0)),
        create_test_ticker(TickerSymbol::ETHUSD, dec(1000, 0)),
    ];

    if let Some(AppInternalMessage::Tickers(output)) = process(&mut processor, input) {
        assert_eq!(output.len(), 2);
        assert!(output[0].price.eq_num(dec(100, 0)));
        assert!(output[1].price.eq_num(dec(1000, 0)));
    } else {
        panic!("Expected seeds for both symbols");
    }

    // Update both symbols
    let input = vec![
        create_test_ticker(TickerSymbol::BTCUSD, dec(200, 0)),
        create_test_ticker(TickerSymbol::ETHUSD, dec(2000, 0)),
    ];

    if let Some(AppInternalMessage::Tickers(output)) = process(&mut processor, input) {
        assert_eq!(output.len(), 2);
        let alpha = dec(2, 0).checked_div(dec(11, 0)).unwrap();

        // Check BTC EMA
        let expected_btc = dec(100, 0)
            .checked_add(dec(100, 0).checked_mul(alpha).unwrap())
            .unwrap();
        let btc = output
            .iter()
            .find(|t| t.symbol == TickerSymbol::BTCUSD)
            .unwrap();
        assert!(btc.price.eq_num(expected_btc));

        // Check ETH EMA
        let expected_eth = dec(1000, 0)
            .checked_add(dec(1000, 0).checked_mul(alpha).unwrap())
            .unwrap();
        let eth = output
            .iter()
            .find(|t| t.symbol == TickerSymbol::ETHUSD)
            .unwrap();
        assert!(eth.price.eq_num(expected_eth));
    } else {
        panic!("Expected updates for both symbols");
    }
}

#[test]
fn test_ema_smoothing_factors() {
    // Test different smoothing factors
    let test_cases = vec![
        (dec(2, 0), dec(10, 0)), // Traditional EMA
        (dec(1, 0), dec(10, 0)), // Slower response
        (dec(3, 0), dec(10, 0)), // Faster response
    ];

    for (smoothing, price_change) in test_cases {
        let config = SmoothingConfig::ExponentialMovingAverage {
            params: EmaParams::new(10, smoothing),
        };
        let mut processor = SmoothingProcessor::new(config);

        // Initial price
        let input = vec![create_test_ticker(TickerSymbol::BTCUSD, dec(100, 0))];
        process(&mut processor, input);

        // Price change
        let input = vec![create_test_ticker(
            TickerSymbol::BTCUSD,
            dec(100, 0).checked_add(price_change).unwrap(),
        )];
        if let Some(AppInternalMessage::Tickers(output)) = process(&mut processor, input) {
            let alpha = smoothing.checked_div(dec(11, 0)).unwrap();
            let expected = dec(100, 0)
                .checked_add(price_change.checked_mul(alpha).unwrap())
                .unwrap();
            assert!(output[0].price.eq_num(expected));
        } else {
            panic!("Expected EMA output");
        }
    }
}

#[test]
fn test_sma_window_filling() {
    let config = SmoothingConfig::SimpleMovingAverage {
        params: SmaParams { window: 3 },
    };
    let mut processor = SmoothingProcessor::new(config);

    // First value - no output yet
    let input = vec![create_test_ticker(TickerSymbol::BTCUSD, dec(100, 0))];
    let result = process(&mut processor, input);
    assert!(result.is_none());

    // Second value - still no output
    let input = vec![create_test_ticker(TickerSymbol::BTCUSD, dec(200, 0))];
    let result = process(&mut processor, input);
    assert!(result.is_none());

    // Third value - now we should get output
    let input = vec![create_test_ticker(TickerSymbol::BTCUSD, dec(300, 0))];
    if let Some(AppInternalMessage::Tickers(output)) = process(&mut processor, input) {
        assert!(output[0].price.eq_num(dec(200, 0))); // (100 + 200 + 300) / 3
    } else {
        panic!("Expected SMA output with full window");
    }
}

#[test]
fn test_sma_sliding_window() {
    let config = SmoothingConfig::SimpleMovingAverage {
        params: SmaParams { window: 3 },
    };
    let mut processor = SmoothingProcessor::new(config);

    // Fill window
    let inputs = vec![
        create_test_ticker(TickerSymbol::BTCUSD, dec(100, 0)),
        create_test_ticker(TickerSymbol::BTCUSD, dec(200, 0)),
        create_test_ticker(TickerSymbol::BTCUSD, dec(300, 0)),
    ];
    for input in inputs {
        process(&mut processor, vec![input]);
    }

    // Add new value, should slide window
    let input = vec![create_test_ticker(TickerSymbol::BTCUSD, dec(400, 0))];
    if let Some(AppInternalMessage::Tickers(output)) = process(&mut processor, input) {
        assert!(output[0].price.eq_num(dec(300, 0))); // (200 + 300 + 400) / 3
    } else {
        panic!("Expected SMA output after slide");
    }
}

#[test]
fn test_multiple_symbols_sma() {
    let config = SmoothingConfig::SimpleMovingAverage {
        params: SmaParams { window: 2 },
    };
    let mut processor = SmoothingProcessor::new(config);

    // First update
    let input = vec![
        create_test_ticker(TickerSymbol::BTCUSD, dec(100, 0)),
        create_test_ticker(TickerSymbol::ETHUSD, dec(1000, 0)),
    ];
    let result = process(&mut processor, input);
    assert!(result.is_none()); // Window not full yet

    // Second update
    let input = vec![
        create_test_ticker(TickerSymbol::BTCUSD, dec(200, 0)),
        create_test_ticker(TickerSymbol::ETHUSD, dec(2000, 0)),
    ];
    if let Some(AppInternalMessage::Tickers(output)) = process(&mut processor, input) {
        assert_eq!(output.len(), 2);

        let btc = output
            .iter()
            .find(|t| t.symbol == TickerSymbol::BTCUSD)
            .unwrap();
        let eth = output
            .iter()
            .find(|t| t.symbol == TickerSymbol::ETHUSD)
            .unwrap();

        assert!(btc.price.eq_num(dec(150, 0))); // (100 + 200) / 2
        assert!(eth.price.eq_num(dec(1500, 0))); // (1000 + 2000) / 2
    } else {
        panic!("Expected SMA output for both symbols");
    }
}

#[test]
fn test_partial_updates_sma() {
    let config = SmoothingConfig::SimpleMovingAverage {
        params: SmaParams { window: 3 },
    };
    let mut processor = SmoothingProcessor::new(config);

    // Fill BTC window
    let inputs = vec![
        create_test_ticker(TickerSymbol::BTCUSD, dec(100, 0)),
        create_test_ticker(TickerSymbol::BTCUSD, dec(200, 0)),
        create_test_ticker(TickerSymbol::BTCUSD, dec(300, 0)),
    ];
    for input in inputs {
        process(&mut processor, vec![input]);
    }

    // Add ETH prices (partial window)
    let input = vec![
        create_test_ticker(TickerSymbol::BTCUSD, dec(400, 0)),
        create_test_ticker(TickerSymbol::ETHUSD, dec(1000, 0)),
    ];
    if let Some(AppInternalMessage::Tickers(output)) = process(&mut processor, input) {
        assert_eq!(output.len(), 1); // Only BTC has full window
        assert_eq!(output[0].symbol, TickerSymbol::BTCUSD);
        assert!(output[0].price.eq_num(dec(300, 0))); // (200 + 300 + 400) / 3
    } else {
        panic!("Expected SMA output for the full window only");
    }
}

#[test]
fn test_smoothing_source_propagated() {
    let config = SmoothingConfig::PassThru;
    let mut processor = SmoothingProcessor::new(config);
    let input = vec![Ticker {
        symbol: TickerSymbol::BTCUSD,
        price: dec(42, 0),
        source: Source::Kraken,
        timestamp_ms: NOW_MS,
    }];
    if let Some(AppInternalMessage::Tickers(output)) = process(&mut processor, input) {
        assert_eq!(output.len(), 1);
        assert_eq!(output[0].source, Source::Kraken);
        assert!(output[0].price.eq_num(dec(42, 0)));
    } else {
        panic!("Expected pass-through output");
    }
}

#[test]
fn test_smoothing_empty_batch_emits_nothing() {
    let mut processor = SmoothingProcessor::new(SmoothingConfig::PassThru);
    let result = process(&mut processor, Vec::new());
    assert!(result.is_none());
}

#[test]
fn test_config_change_same_family_keeps_windows() {
    let config = SmoothingConfig::SimpleMovingAverage {
        params: SmaParams { window: 3 },
    };
    let mut processor = SmoothingProcessor::new(config);

    // Two prices: window not yet full under w=3.
    process(
        &mut processor,
        vec![create_test_ticker(TickerSymbol::BTCUSD, dec(100, 0))],
    );
    process(
        &mut processor,
        vec![create_test_ticker(TickerSymbol::BTCUSD, dec(200, 0))],
    );

    // Shrink the window to 2: the stored prices must be kept.
    let new_config = SmoothingConfig::SimpleMovingAverage {
        params: SmaParams { window: 2 },
    };
    processor
        .handle_config_change(&Exchange::Binance, new_config)
        .unwrap();

    // The next tick truncates to the last two prices and emits (200+300)/2.
    let input = vec![create_test_ticker(TickerSymbol::BTCUSD, dec(300, 0))];
    if let Some(AppInternalMessage::Tickers(output)) = process(&mut processor, input) {
        assert!(output[0].price.eq_num(dec(250, 0)));
    } else {
        panic!("Expected SMA output after window shrink");
    }
}

#[test]
fn test_config_change_cross_family_resets() {
    let config = SmoothingConfig::ExponentialMovingAverage {
        params: EmaParams::new(10, dec(2, 0)),
    };
    let mut processor = SmoothingProcessor::new(config);

    // Seed the EMA.
    process(
        &mut processor,
        vec![create_test_ticker(TickerSymbol::BTCUSD, dec(100, 0))],
    );
    assert!(processor.btc_ema.is_some());

    // Switch to SMA: the seed must be cleared and the window starts empty.
    let new_config = SmoothingConfig::SimpleMovingAverage {
        params: SmaParams { window: 2 },
    };
    processor
        .handle_config_change(&Exchange::Binance, new_config)
        .unwrap();
    assert!(processor.btc_ema.is_none());
    assert!(processor.btc_window.is_empty());

    // One price is not enough for the fresh window.
    let result = process(
        &mut processor,
        vec![create_test_ticker(TickerSymbol::BTCUSD, dec(500, 0))],
    );
    assert!(result.is_none());
}

#[test]
fn test_config_change_noop_keeps_state() {
    let config = SmoothingConfig::ExponentialMovingAverage {
        params: EmaParams::new(10, dec(2, 0)),
    };
    let mut processor = SmoothingProcessor::new(config);
    process(
        &mut processor,
        vec![create_test_ticker(TickerSymbol::BTCUSD, dec(100, 0))],
    );
    let seed = processor.btc_ema.unwrap();

    processor
        .handle_config_change(&Exchange::Binance, config)
        .unwrap();
    assert_eq!(processor.btc_ema.unwrap(), seed);
}
