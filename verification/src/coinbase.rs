//! The Coinbase session logic: single-frame subscriptions, ticker model,
//! and normalization to the canonical form.

use vstd::prelude::*;

use crate::decimal::Dec;
use crate::exchange::{clone_strings, same_subscription, vec_same_str_set, ExchangeConfig};
use crate::models::{spec_from_coinbase_symbol, Source, Ticker, TickerSymbol};

verus! {

/// The verb of a Coinbase websocket request.
#[derive(Debug, Clone, Copy, PartialEq, Eq, Structural)]
pub enum CoinbaseRequestType {
    Subscribe,
    Unsubscribe,
}

/// A Coinbase websocket request: a verb, the products it concerns and the
/// channels it (un)subscribes.
#[derive(Debug, Clone)]
pub struct CoinbaseRequest {
    pub request_type: CoinbaseRequestType,
    pub product_ids: Vec<String>,
    pub channels: Vec<String>,
}

/// The acknowledgement Coinbase answers a subscription change with.
#[derive(Debug, Clone)]
pub struct CoinbaseResponse {
    pub channels: Vec<String>,
}

/// The fields of a Coinbase ticker frame the indexer reads: the product,
/// the last price and the exchange-provided event time.
#[derive(Debug, Clone)]
pub struct CoinbaseTicker {
    pub product_id: String,
    pub price: Dec,
    pub time_ms: i64,
}

/// A parsed Coinbase channel message.
#[derive(Debug, Clone)]
pub enum CoinbaseChannelMessage {
    Ticker(CoinbaseTicker),
    Heartbeat,
}

/// What a Coinbase ticker frame normalizes to: its canonical symbol with
/// the last price, tagged with the exchange-provided event time; an
/// unknown product is dropped.
pub open spec fn spec_coinbase_ticker(t: CoinbaseTicker) -> Option<Ticker> {
    match spec_from_coinbase_symbol(t.product_id@) {
        Option::Some(sym) => Some(
            Ticker {
                symbol: sym,
                price: t.price,
                source: Source::Coinbase,
                timestamp_ms: t.time_ms,
            },
        ),
        Option::None => None,
    }
}

impl CoinbaseTicker {
    /// Normalizes the frame to a canonical ticker, dropping unknown products.
    pub fn to_ticker(&self) -> (r: Option<Ticker>)
        ensures
            r == spec_coinbase_ticker(*self),
    {
        match TickerSymbol::from_coinbase_symbol(self.product_id.as_str()) {
            Some(sym) => Some(
                Ticker {
                    symbol: sym,
                    price: self.price,
                    source: Source::Coinbase,
                    timestamp_ms: self.time_ms,
                },
            ),
            None => None,
        }
    }
}

/// The request carries this verb and exactly the products and channels of `cfg`.
pub open spec fn spec_coinbase_frame(
    r: CoinbaseRequest,
    sub: bool,
    cfg: ExchangeConfig,
) -> bool {
    &&& (r.request_type is Subscribe <==> sub)
    &&& r.product_ids@ == cfg.instruments@
    &&& r.channels@ == cfg.channels@
}

/// The Coinbase session state the callbacks read and update.
#[derive(Debug, Clone)]
pub struct CoinbaseWsCallback {
    pub exchange_config: ExchangeConfig,
}

impl CoinbaseWsCallback {
    pub fn new(exchange_config: ExchangeConfig) -> (r: CoinbaseWsCallback)
        ensures
            r.exchange_config == exchange_config,
    {
        CoinbaseWsCallback { exchange_config }
    }

    /// The single subscribe frame for the current configuration.
    pub fn subscribe(&self) -> (r: CoinbaseRequest)
        ensures
            spec_coinbase_frame(r, true, self.exchange_config),
    {
        CoinbaseRequest {
            request_type: CoinbaseRequestType::Subscribe,
            product_ids: clone_strings(self.exchange_config.get_instruments()),
            channels: clone_strings(self.exchange_config.get_channels()),
        }
    }

    /// The single unsubscribe frame for a configuration.
    pub fn unsubscribe(&self, config: &ExchangeConfig) -> (r: CoinbaseRequest)
        ensures
            spec_coinbase_frame(r, false, *config),
    {
        CoinbaseRequest {
            request_type: CoinbaseRequestType::Unsubscribe,
            product_ids: clone_strings(config.get_instruments()),
            channels: clone_strings(config.get_channels()),
        }
    }

    /// Whether the offered configuration changes the subscribed sets.
    pub fn has_config_changed(&self, config: &ExchangeConfig) -> (r: bool)
        ensures
            r == !same_subscription(self.exchange_config, *config),
    {
        let insts_same = vec_same_str_set(
            self.exchange_config.get_instruments(),
            config.get_instruments(),
        );
        let chans_same = vec_same_str_set(
            self.exchange_config.get_channels(),
            config.get_channels(),
        );
        !insts_same || !chans_same
    }

    /// Consumes a live subscription change: an unchanged instrument and
    /// channel set produces no frame; a changed one produces exactly one
    /// unsubscribe for the old set followed by one subscribe for the new
    /// set, and installs the new configuration.
    pub fn handle_config_change(&mut self, config: ExchangeConfig) -> (r: Vec<CoinbaseRequest>)
        ensures
            same_subscription(old(self).exchange_config, config) ==> r@.len() == 0 && *final(self)
                == *old(self),
            !same_subscription(old(self).exchange_config, config) ==> {
                &&& r@.len() == 2
                &&& spec_coinbase_frame(r@[0], false, old(self).exchange_config)
                &&& spec_coinbase_frame(r@[1], true, config)
                &&& final(self).exchange_config == config
            },
    {
        if self.has_config_changed(&config) {
            let unsub = self.unsubscribe(&self.exchange_config);
            self.exchange_config = config;
            let sub = self.subscribe();
            let mut frames: Vec<CoinbaseRequest> = Vec::new();
            frames.push(unsub);
            frames.push(sub);
            frames
        } else {
            Vec::new()
        }
    }
}

} // verus!
