//! The Kraken session logic: per-channel subscription frames, message
//! models, and normalization to the canonical form. Kraken frames carry
//! no event time, so tickers are stamped with the receipt instant.

use vstd::prelude::*;

use crate::decimal::Dec;
use crate::exchange::{clone_strings, same_subscription, vec_same_str_set, ExchangeConfig};
use crate::models::{spec_from_kraken_symbol, Source, Ticker, TickerSymbol};

verus! {

/// The parameters of a Kraken (un)subscribe request: one channel and the
/// instruments it covers.
#[derive(Debug, Clone)]
pub struct KrakenRequestParams {
    pub channel: String,
    pub symbol: Vec<String>,
}

/// A Kraken websocket request.
#[derive(Debug, Clone)]
pub enum KrakenRequest {
    Subscribe { params: KrakenRequestParams },
    Unsubscribe { params: KrakenRequestParams },
}

/// What a Kraken (un)subscribe acknowledgement reports.
#[derive(Debug, Clone)]
pub struct KrakenResponseResult {
    pub channel: String,
    pub symbol: String,
    pub event_trigger: KrakenEventTrigger,
    pub snapshot: Option<bool>,
}

/// Which event drives a subscribed channel.
#[derive(Debug, Clone, Copy, PartialEq, Eq, Structural)]
pub enum KrakenEventTrigger {
    Bbo,
    Trades,
}

/// The verb a Kraken acknowledgement answers.
#[derive(Debug, Clone)]
pub enum KrakenResponseData {
    Subscribe { result: KrakenResponseResult },
    Unsubscribe { result: KrakenResponseResult },
}

/// A Kraken acknowledgement, with its server timestamps in UTC milliseconds.
#[derive(Debug, Clone)]
pub struct KrakenResponse {
    pub response_data: KrakenResponseData,
    pub success: bool,
    pub time_in_ms: i64,
    pub time_out_ms: i64,
}

/// The channel a Kraken message belongs to.
#[derive(Debug, Clone, Copy, PartialEq, Eq, Structural)]
pub enum KrakenChannelType {
    Ticker,
    Heartbeat,
    Status,
}

/// Whether a channel message is a snapshot or an update.
#[derive(Debug, Clone, Copy, PartialEq, Eq, Structural)]
pub enum KrakenDataType {
    Snapshot,
    Update,
}

/// A Kraken heartbeat frame.
#[derive(Debug, Clone)]
pub struct KrakenHeartbeat {
    pub channel: KrakenChannelType,
}

/// The fields of a Kraken ticker entry the indexer reads: the native
/// symbol and the last trade price.
#[derive(Debug, Clone)]
pub struct KrakenTicker {
    pub symbol: String,
    pub last: Dec,
}

/// The connection details a Kraken status frame reports.
#[derive(Debug, Clone)]
pub struct KrakenConnection {
    pub version: String,
    pub system: String,
    pub api_version: String,
    pub connection_id: u64,
}

/// The payload of a Kraken channel message.
#[derive(Debug, Clone)]
pub enum KrakenChannelData {
    Ticker(Vec<KrakenTicker>),
    Connection(Vec<KrakenConnection>),
}

/// A Kraken channel message.
#[derive(Debug, Clone)]
pub struct KrakenChannelMessage {
    pub data_type: KrakenDataType,
    pub channel: KrakenChannelType,
    pub data: KrakenChannelData,
}

/// Any data-bearing Kraken frame.
#[derive(Debug, Clone)]
pub enum KrakenMessage {
    ChannelMessage(KrakenChannelMessage),
    Heartbeat(KrakenHeartbeat),
}

/// What one Kraken ticker entry normalizes to at receipt instant
/// `now_ms`: its canonical symbol with the last price, stamped with the
/// receipt instant; an unknown symbol is dropped.
pub open spec fn spec_kraken_ticker(t: KrakenTicker, now_ms: i64) -> Option<Ticker> {
    match spec_from_kraken_symbol(t.symbol@) {
        Option::Some(sym) => Some(
            Ticker { symbol: sym, price: t.last, source: Source::Kraken, timestamp_ms: now_ms },
        ),
        Option::None => None,
    }
}

/// The canonical tickers of a run of Kraken ticker entries, in order,
/// unknown symbols dropped.
pub open spec fn spec_kraken_tickers(ts: Seq<KrakenTicker>, now_ms: i64) -> Seq<Ticker>
    decreases ts.len(),
{
    if ts.len() == 0 {
        Seq::<Ticker>::empty()
    } else {
        let prev = spec_kraken_tickers(ts.drop_last(), now_ms);
        match spec_kraken_ticker(ts.last(), now_ms) {
            Option::Some(t) => prev.push(t),
            Option::None => prev,
        }
    }
}

/// What a whole Kraken message yields: the normalized tickers of a ticker
/// channel message, nothing for anything else.
pub open spec fn spec_kraken_message_tickers(m: KrakenMessage, now_ms: i64) -> Seq<Ticker> {
    match m {
        KrakenMessage::ChannelMessage(cm) => match cm.data {
            KrakenChannelData::Ticker(ts) => spec_kraken_tickers(ts@, now_ms),
            KrakenChannelData::Connection(_) => Seq::<Ticker>::empty(),
        },
        KrakenMessage::Heartbeat(_) => Seq::<Ticker>::empty(),
    }
}

impl KrakenMessage {
    /// The canonical tickers this message carries, stamped with the
    /// receipt instant; unknown symbols are dropped.
    pub fn get_tickers_internal(&self, now_ms: i64) -> (r: Vec<Ticker>)
        ensures
            r@ == spec_kraken_message_tickers(*self, now_ms),
    {
        let mut out: Vec<Ticker> = Vec::new();
        match self {
            KrakenMessage::ChannelMessage(cm) => {
                match &cm.data {
                    KrakenChannelData::Ticker(tickers) => {
                        let mut i: usize = 0;
                        while i < tickers.len()
                            invariant
                                i <= tickers@.len(),
                                out@ == spec_kraken_tickers(
                                    tickers@.subrange(0, i as int),
                                    now_ms,
                                ),
                            decreases tickers@.len() - i,
                        {
                            proof {
                                assert(tickers@.subrange(0, i + 1).drop_last()
                                    =~= tickers@.subrange(0, i as int));
                                assert(tickers@.subrange(0, i + 1).last() == tickers@[i as int]);
                            }
                            match TickerSymbol::from_kraken_symbol(tickers[i].symbol.as_str()) {
                                Some(sym) => {
                                    out.push(
                                        Ticker {
                                            symbol: sym,
                                            price: tickers[i].last,
                                            source: Source::Kraken,
                                            timestamp_ms: now_ms,
                                        },
                                    );
                                },
                                None => {},
                            }
                            i += 1;
                        }
                        proof {
                            assert(tickers@.subrange(0, tickers@.len() as int) =~= tickers@);
                        }
                    },
                    KrakenChannelData::Connection(_) => {},
                }
            },
            KrakenMessage::Heartbeat(_) => {},
        }
        out
    }
}

/// The request (un)subscribes one channel for exactly these instruments.
pub open spec fn spec_kraken_frame(
    r: KrakenRequest,
    sub: bool,
    chan: String,
    insts: Seq<String>,
) -> bool {
    match r {
        KrakenRequest::Subscribe { params } => sub && params.channel == chan && params.symbol@
            == insts,
        KrakenRequest::Unsubscribe { params } => !sub && params.channel == chan && params.symbol@
            == insts,
    }
}

/// One frame per channel of `cfg`, in channel order, each covering all of
/// its instruments.
pub open spec fn spec_kraken_frames(r: Seq<KrakenRequest>, sub: bool, cfg: ExchangeConfig) -> bool {
    &&& r.len() == cfg.channels@.len()
    &&& forall|k: int| 0 <= k < r.len() ==> spec_kraken_frame(
        #[trigger] r[k],
        sub,
        cfg.channels@[k],
        cfg.instruments@,
    )
}

/// The Kraken session state the callbacks read and update.
#[derive(Debug, Clone)]
pub struct KrakenWsCallback {
    pub exchange_config: ExchangeConfig,
}

impl KrakenWsCallback {
    pub fn new(exchange_config: ExchangeConfig) -> (r: KrakenWsCallback)
        ensures
            r.exchange_config == exchange_config,
    {
        KrakenWsCallback { exchange_config }
    }

    /// The subscribe frames for the current configuration: one per channel.
    pub fn subscribe(&self) -> (r: Vec<KrakenRequest>)
        ensures
            spec_kraken_frames(r@, true, self.exchange_config),
    {
        Self::build_frames(&self.exchange_config, true)
    }

    /// The unsubscribe frames for a configuration: one per channel.
    pub fn unsubscribe(&self, config: &ExchangeConfig) -> (r: Vec<KrakenRequest>)
        ensures
            spec_kraken_frames(r@, false, *config),
    {
        Self::build_frames(config, false)
    }

    fn build_frames(config: &ExchangeConfig, sub: bool) -> (r: Vec<KrakenRequest>)
        ensures
            spec_kraken_frames(r@, sub, *config),
    {
        let mut frames: Vec<KrakenRequest> = Vec::new();
        let mut i: usize = 0;
        while i < config.channels.len()
            invariant
                i <= config.channels@.len(),
                frames@.len() == i,
                forall|k: int| 0 <= k < i ==> spec_kraken_frame(
                    #[trigger] frames@[k],
                    sub,
                    config.channels@[k],
                    config.instruments@,
                ),
            decreases config.channels@.len() - i,
        {
            let params = KrakenRequestParams {
                channel: config.channels[i].clone(),
                symbol: clone_strings(&config.instruments),
            };
            if sub {
                frames.push(KrakenRequest::Subscribe { params });
            } else {
                frames.push(KrakenRequest::Unsubscribe { params });
            }
            i += 1;
        }
        frames
    }

    /// Whether the offered configuration changes the subscribed sets.
    pub fn has_config_changed(&self, config: &ExchangeConfig) -> (r: bool)
        ensures
            r == !same_subscription(self.exchange_config, *config),
    {
        let insts_same = vec_same_str_set(
            self.exchange_config.get_instruments(),
            config.get_instruments(),
        );
        let chans_same = vec_same_str_set(
            self.exchange_config.get_channels(),
            config.get_channels(),
        );
        !insts_same || !chans_same
    }

    /// Consumes a live subscription change: an unchanged instrument and
    /// channel set produces no frame; a changed one produces the
    /// unsubscribe frames for the old set followed by the subscribe
    /// frames for the new set, and installs the new configuration.
    pub fn handle_config_change(&mut self, config: ExchangeConfig) -> (r: Vec<KrakenRequest>)
        ensures
            same_subscription(old(self).exchange_config, config) ==> r@.len() == 0 && *final(self)
                == *old(self),
            !same_subscription(old(self).exchange_config, config) ==> {
                &&& r@.len() == old(self).exchange_config.channels@.len()
                    + config.channels@.len()
                &&& spec_kraken_frames(
                    r@.subrange(0, old(self).exchange_config.channels@.len() as int),
                    false,
                    old(self).exchange_config,
                )
                &&& spec_kraken_frames(
                    r@.subrange(
                        old(self).exchange_config.channels@.len() as int,
                        r@.len() as int,
                    ),
                    true,
                    config,
                )
                &&& final(self).exchange_config == config
            },
    {
        if self.has_config_changed(&config) {
            let mut frames = self.unsubscribe(&self.exchange_config);
            self.exchange_config = config;
            let mut subs = self.subscribe();
            let ghost unsub_part = frames@;
            let ghost sub_part = subs@;
            frames.append(&mut subs);
            proof {
                assert(frames@.subrange(0, unsub_part.len() as int) =~= unsub_part);
                assert(frames@.subrange(unsub_part.len() as int, frames@.len() as int)
                    =~= sub_part);
            }
            frames
        } else {
            Vec::new()
        }
    }
}

} // verus!
