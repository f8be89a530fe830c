//! The full indexer configuration document and how a new one is routed:
//! per-exchange subscription and smoothing settings, and the weight table
//! the aggregator is rebuilt from.

use vstd::prelude::*;

use crate::decimal::{dec_wf, Dec};
use crate::exchange::{Exchange, ExchangeConfig};
use crate::models::Source;
use crate::smoothing::{smoothing_config_wf, SmoothingConfig};
use crate::weighted::{distinct_sources, weights_wf};

verus! {

/// A static application setting the runtime shell reads.
pub trait AppConfig {
    /// The name of the application.
    fn get_app_name(&self) -> String;
}

/// How a consumer receives each full configuration document the external
/// watcher delivers.
pub trait EtcdWatcherHandler<C> {
    fn handle_config_change(&mut self, config: C);
}

/// One exchange's slice of the configuration document.
#[derive(Debug, Clone)]
pub struct FeedConfig {
    pub exchange_config: ExchangeConfig,
    pub smoothing_config: SmoothingConfig,
    pub weight: Dec,
}

/// The whole configuration document: one optional entry per exchange.
#[derive(Debug, Clone)]
pub struct IndexerConfig {
    pub binance: Option<FeedConfig>,
    pub kraken: Option<FeedConfig>,
    pub coinbase: Option<FeedConfig>,
}

/// The entry a document holds for an exchange.
pub open spec fn spec_feed_of(c: IndexerConfig, exchange: Exchange) -> Option<FeedConfig> {
    match exchange {
        Exchange::Binance => c.binance,
        Exchange::Kraken => c.kraken,
        Exchange::Coinbase => c.coinbase,
    }
}

/// A feed entry the processors can run: a runnable smoothing setting and a
/// valid weight.
pub open spec fn feed_config_wf(f: FeedConfig) -> bool {
    smoothing_config_wf(f.smoothing_config) && dec_wf(f.weight)
}

/// A document whose present entries are all runnable.
pub open spec fn indexer_config_wf(c: IndexerConfig) -> bool {
    &&& (c.binance is Some ==> feed_config_wf(c.binance->0))
    &&& (c.kraken is Some ==> feed_config_wf(c.kraken->0))
    &&& (c.coinbase is Some ==> feed_config_wf(c.coinbase->0))
}

/// The weight an exchange's entry contributes: present entries with at
/// least one instrument feed the aggregator, idle entries do not.
pub open spec fn spec_contributes(entry: Option<FeedConfig>) -> bool {
    entry is Some && entry->0.exchange_config.instruments@.len() > 0
}

/// The weight table a document builds: one entry per exchange that
/// subscribes at least one instrument, in a fixed exchange order.
pub open spec fn spec_collect_weights(c: IndexerConfig) -> Seq<(Source, Dec)> {
    let first = if spec_contributes(c.binance) {
        seq![(Source::Binance, c.binance->0.weight)]
    } else {
        Seq::<(Source, Dec)>::empty()
    };
    let second = if spec_contributes(c.kraken) {
        first.push((Source::Kraken, c.kraken->0.weight))
    } else {
        first
    };
    if spec_contributes(c.coinbase) {
        second.push((Source::Coinbase, c.coinbase->0.weight))
    } else {
        second
    }
}

impl IndexerConfig {
    /// The subscription settings held for an exchange.
    pub fn get_exchange_config(&self, exchange: Exchange) -> (r: Option<&ExchangeConfig>)
        ensures
            r is Some <==> spec_feed_of(*self, exchange) is Some,
            r is Some ==> *r->0 == spec_feed_of(*self, exchange)->0.exchange_config,
    {
        match exchange {
            Exchange::Binance => match &self.binance {
                Some(f) => Some(&f.exchange_config),
                None => None,
            },
            Exchange::Kraken => match &self.kraken {
                Some(f) => Some(&f.exchange_config),
                None => None,
            },
            Exchange::Coinbase => match &self.coinbase {
                Some(f) => Some(&f.exchange_config),
                None => None,
            },
        }
    }

    /// The smoothing settings held for an exchange.
    pub fn get_smoothing_config(&self, exchange: Exchange) -> (r: Option<&SmoothingConfig>)
        ensures
            r is Some <==> spec_feed_of(*self, exchange) is Some,
            r is Some ==> *r->0 == spec_feed_of(*self, exchange)->0.smoothing_config,
    {
        match exchange {
            Exchange::Binance => match &self.binance {
                Some(f) => Some(&f.smoothing_config),
                None => None,
            },
            Exchange::Kraken => match &self.kraken {
                Some(f) => Some(&f.smoothing_config),
                None => None,
            },
            Exchange::Coinbase => match &self.coinbase {
                Some(f) => Some(&f.smoothing_config),
                None => None,
            },
        }
    }

    /// The index weight held for an exchange.
    pub fn get_weight(&self, exchange: Exchange) -> (r: Option<&Dec>)
        ensures
            r is Some <==> spec_feed_of(*self, exchange) is Some,
            r is Some ==> *r->0 == spec_feed_of(*self, exchange)->0.weight,
    {
        match exchange {
            Exchange::Binance => match &self.binance {
                Some(f) => Some(&f.weight),
                None => None,
            },
            Exchange::Kraken => match &self.kraken {
                Some(f) => Some(&f.weight),
                None => None,
            },
            Exchange::Coinbase => match &self.coinbase {
                Some(f) => Some(&f.weight),
                None => None,
            },
        }
    }

    /// Collects the aggregator's weight table from the document: one entry
    /// per exchange that subscribes at least one instrument. The result
    /// carries one weight per source and is ready for validation.
    pub fn collect_weights(&self) -> (r: Vec<(Source, Dec)>)
        requires
            indexer_config_wf(*self),
        ensures
            r@ == spec_collect_weights(*self),
            distinct_sources(r@),
            weights_wf(r@),
    {
        let mut weights: Vec<(Source, Dec)> = Vec::new();
        match &self.binance {
            Some(f) => {
                if f.exchange_config.instruments.len() > 0 {
                    weights.push((Source::Binance, f.weight));
                }
            },
            None => {},
        }
        match &self.kraken {
            Some(f) => {
                if f.exchange_config.instruments.len() > 0 {
                    weights.push((Source::Kraken, f.weight));
                }
            },
            None => {},
        }
        match &self.coinbase {
            Some(f) => {
                if f.exchange_config.instruments.len() > 0 {
                    weights.push((Source::Coinbase, f.weight));
                }
            },
            None => {},
        }
        proof {
            assert(weights@ =~= spec_collect_weights(*self));
        }
        weights
    }
}

} // verus!
