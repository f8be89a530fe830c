//! The canonical data model: symbols, sources, tickers and internal messages.

use vstd::prelude::*;
use vstd::string::StrSliceExecFns;

use crate::decimal::Dec;

verus! {

/// The exchange-independent instrument identifier.
#[derive(Clone, Copy, Debug, PartialEq, Eq, Hash, Structural)]
pub enum TickerSymbol {
    BTCUSD,
    ETHUSD,
}

/// Who produced a price observation.
#[derive(Clone, Copy, Debug, PartialEq, Eq, Hash, Structural)]
pub enum Source {
    Binance,
    Kraken,
    Coinbase,
    IndexerSmoothing,
    IndexerWeightedAverage,
}

/// A single price observation for a symbol from a source at an instant,
/// the instant held as UTC milliseconds.
#[derive(Clone, Copy, Debug, PartialEq, Eq, Structural)]
pub struct Ticker {
    pub symbol: TickerSymbol,
    pub price: Dec,
    pub source: Source,
    pub timestamp_ms: i64,
}

/// Some ticker in the batch carries this symbol.
pub open spec fn batch_has_symbol(tickers: Seq<Ticker>, sym: TickerSymbol) -> bool {
    exists|i: int| 0 <= i < tickers.len() && (#[trigger] tickers[i]).symbol == sym
}

/// The message exchanged between the tasks: a non-empty ordered batch of tickers.
#[derive(Clone, Debug)]
pub enum AppInternalMessage {
    Tickers(Vec<Ticker>),
}

/// The process-wide control signal every long-lived task listens for.
#[derive(Clone, Copy, Debug, Default)]
pub enum AppMessage {
    /// Clean exit.
    #[default]
    Exit,
    /// Exit after a failure.
    ExitOnFailure,
}

/// Character-for-character string equality.
pub fn str_eq(a: &str, b: &str) -> (r: bool)
    ensures
        r == (a@ == b@),
{
    let a_len = a.unicode_len();
    let b_len = b.unicode_len();
    if a_len != b_len {
        proof {
            assert(a@ != b@) by {
                assert(a@.len() != b@.len());
            }
        }
        return false;
    }
    let mut i: usize = 0;
    while i < a_len
        invariant
            i <= a_len,
            a_len == a@.len(),
            b_len == b@.len(),
            a_len == b_len,
            forall|j: int| 0 <= j < i ==> a@[j] == b@[j],
        decreases a_len - i,
    {
        if a.get_char(i) != b.get_char(i) {
            return false;
        }
        i += 1;
    }
    proof {
        assert(a@ =~= b@);
    }
    true
}

/// What `TickerSymbol::from_binance_symbol` maps a native name to.
pub open spec fn spec_from_binance_symbol(s: Seq<char>) -> Option<TickerSymbol> {
    if s == "BTCUSDT"@ || s == "BTCUSD"@ {
        Some(TickerSymbol::BTCUSD)
    } else if s == "ETHUSDT"@ || s == "ETHUSD"@ {
        Some(TickerSymbol::ETHUSD)
    } else {
        None
    }
}

/// What `TickerSymbol::from_kraken_symbol` maps a native name to.
pub open spec fn spec_from_kraken_symbol(s: Seq<char>) -> Option<TickerSymbol> {
    if s == "BTC/USD"@ {
        Some(TickerSymbol::BTCUSD)
    } else if s == "ETH/USD"@ {
        Some(TickerSymbol::ETHUSD)
    } else {
        None
    }
}

/// What `TickerSymbol::from_coinbase_symbol` maps a native name to.
pub open spec fn spec_from_coinbase_symbol(s: Seq<char>) -> Option<TickerSymbol> {
    if s == "BTC-USD"@ {
        Some(TickerSymbol::BTCUSD)
    } else if s == "ETH-USD"@ {
        Some(TickerSymbol::ETHUSD)
    } else {
        None
    }
}

impl TickerSymbol {
    /// The canonical symbol behind a Binance-native instrument name.
    pub fn from_binance_symbol(symbol: &str) -> (r: Option<TickerSymbol>)
        ensures
            r == spec_from_binance_symbol(symbol@),
    {
        if str_eq(symbol, "BTCUSDT") || str_eq(symbol, "BTCUSD") {
            Some(TickerSymbol::BTCUSD)
        } else if str_eq(symbol, "ETHUSDT") || str_eq(symbol, "ETHUSD") {
            Some(TickerSymbol::ETHUSD)
        } else {
            None
        }
    }

    /// The canonical symbol behind a Kraken-native instrument name.
    pub fn from_kraken_symbol(symbol: &str) -> (r: Option<TickerSymbol>)
        ensures
            r == spec_from_kraken_symbol(symbol@),
    {
        if str_eq(symbol, "BTC/USD") {
            Some(TickerSymbol::BTCUSD)
        } else if str_eq(symbol, "ETH/USD") {
            Some(TickerSymbol::ETHUSD)
        } else {
            None
        }
    }

    /// The canonical symbol behind a Coinbase-native product id.
    pub fn from_coinbase_symbol(symbol: &str) -> (r: Option<TickerSymbol>)
        ensures
            r == spec_from_coinbase_symbol(symbol@),
    {
        if str_eq(symbol, "BTC-USD") {
            Some(TickerSymbol::BTCUSD)
        } else if str_eq(symbol, "ETH-USD") {
            Some(TickerSymbol::ETHUSD)
        } else {
            None
        }
    }
}

} // verus!
