//! The Binance session logic: subscription frames, acknowledgement and
//! ticker models, and normalization to the canonical form.

use vstd::prelude::*;
use vstd::string::StringExecFns;

use crate::decimal::Dec;
use crate::exchange::{same_subscription, ExchangeConfig};
use crate::models::{spec_from_binance_symbol, Source, Ticker, TickerSymbol};

verus! {

/// What `str::to_lowercase` returns for a string.
pub uninterp spec fn lower_of(s: Seq<char>) -> Seq<char>;

/// Relies on str::to_lowercase: the result depends on the characters alone.
#[verifier::external_body]
fn lowercase(s: &str) -> (r: String)
    ensures
        r@ == lower_of(s@),
{
    s.to_lowercase()
}

/// The verb of a Binance websocket request.
#[derive(Debug, Clone, Copy, PartialEq, Eq, Structural)]
pub enum BinanceRequestMethod {
    Subscribe,
    Unsubscribe,
}

/// A Binance websocket request: a verb, the `<instrument>@<channel>`
/// streams it concerns, and a session-wide monotonic id.
#[derive(Debug, Clone)]
pub struct BinanceRequest {
    pub method: BinanceRequestMethod,
    pub params: Vec<String>,
    pub id: u64,
}

/// A Binance acknowledgement to a request.
#[derive(Debug, Clone)]
pub struct BinanceResponse {
    pub id: u64,
    pub result: Option<String>,
}

/// The fields of a Binance ticker frame the indexer reads: the event
/// time, the native symbol and the last price.
#[derive(Debug, Clone)]
pub struct BinanceTicker {
    pub event_type: String,
    pub event_time_ms: i64,
    pub symbol: String,
    pub last_price: Dec,
}

/// What a Binance ticker frame normalizes to: its canonical symbol with
/// the last price, tagged with the exchange-provided event time; an
/// unknown symbol is dropped.
pub open spec fn spec_binance_ticker(t: BinanceTicker) -> Option<Ticker> {
    match spec_from_binance_symbol(t.symbol@) {
        Option::Some(sym) => Some(
            Ticker {
                symbol: sym,
                price: t.last_price,
                source: Source::Binance,
                timestamp_ms: t.event_time_ms,
            },
        ),
        Option::None => None,
    }
}

impl BinanceTicker {
    /// Normalizes the frame to a canonical ticker, dropping unknown symbols.
    pub fn to_ticker(&self) -> (r: Option<Ticker>)
        ensures
            r == spec_binance_ticker(*self),
    {
        match TickerSymbol::from_binance_symbol(self.symbol.as_str()) {
            Some(sym) => Some(
                Ticker {
                    symbol: sym,
                    price: self.last_price,
                    source: Source::Binance,
                    timestamp_ms: self.event_time_ms,
                },
            ),
            None => None,
        }
    }
}

/// One subscription stream name: the lowercased instrument and channel
/// joined by `@`.
pub open spec fn spec_stream_name(inst: Seq<char>, chan: Seq<char>) -> Seq<char> {
    lower_of(inst) + "@"@ + lower_of(chan)
}

/// The stream names of one instrument across all channels, in channel order.
pub open spec fn spec_stream_row(inst: Seq<char>, chans: Seq<String>) -> Seq<Seq<char>> {
    Seq::new(chans.len(), |j: int| spec_stream_name(inst, chans[j]@))
}

/// The stream names of a whole subscription: instrument-major order.
pub open spec fn spec_stream_params(insts: Seq<String>, chans: Seq<String>) -> Seq<Seq<char>>
    decreases insts.len(),
{
    if insts.len() == 0 {
        Seq::<Seq<char>>::empty()
    } else {
        spec_stream_params(insts.drop_last(), chans) + spec_stream_row(insts.last()@, chans)
    }
}

/// The characters of each string, in order.
pub open spec fn str_views(v: Seq<String>) -> Seq<Seq<char>> {
    v.map_values(|s: String| s@)
}

/// Builds the `<instrument>@<channel>` stream names for a subscription,
/// one per instrument and channel pair, instrument-major, lowercased.
fn stream_params(instruments: &Vec<String>, channels: &Vec<String>) -> (r: Vec<String>)
    ensures
        str_views(r@) == spec_stream_params(instruments@, channels@),
{
    let mut params: Vec<String> = Vec::new();
    let mut i: usize = 0;
    while i < instruments.len()
        invariant
            i <= instruments@.len(),
            str_views(params@) == spec_stream_params(instruments@.subrange(0, i as int), channels@),
        decreases instruments@.len() - i,
    {
        let mut j: usize = 0;
        while j < channels.len()
            invariant
                j <= channels@.len(),
                i < instruments@.len(),
                str_views(params@) == spec_stream_params(
                    instruments@.subrange(0, i as int),
                    channels@,
                ) + spec_stream_row(instruments@[i as int]@, channels@.subrange(0, j as int)),
            decreases channels@.len() - j,
        {
            let low_inst = lowercase(instruments[i].as_str());
            let low_chan = lowercase(channels[j].as_str());
            let name = low_inst.concat("@").concat(low_chan.as_str());
            let ghost before = params@;
            proof {
                assert(name@ == spec_stream_name(
                    instruments@[i as int]@,
                    channels@[j as int]@,
                ));
            }
            params.push(name);
            proof {
                assert(str_views(params@) =~= str_views(before).push(name@));
                assert(spec_stream_row(instruments@[i as int]@, channels@.subrange(0, j + 1))
                    =~= spec_stream_row(
                    instruments@[i as int]@,
                    channels@.subrange(0, j as int),
                ).push(name@));
                assert(str_views(params@) =~= spec_stream_params(
                    instruments@.subrange(0, i as int),
                    channels@,
                ) + spec_stream_row(instruments@[i as int]@, channels@.subrange(0, j + 1)));
            }
            j += 1;
        }
        proof {
            assert(channels@.subrange(0, channels@.len() as int) =~= channels@);
            assert(instruments@.subrange(0, i + 1).drop_last() =~= instruments@.subrange(
                0,
                i as int,
            ));
            assert(instruments@.subrange(0, i + 1).last() == instruments@[i as int]);
            assert(str_views(params@) =~= spec_stream_params(
                instruments@.subrange(0, i + 1),
                channels@,
            ));
        }
        i += 1;
    }
    proof {
        assert(instruments@.subrange(0, instruments@.len() as int) =~= instruments@);
    }
    params
}

/// The request unsubscribes exactly the streams of `cfg` under this id.
pub open spec fn spec_is_unsubscribe(r: BinanceRequest, cfg: ExchangeConfig, id: int) -> bool {
    &&& r.method is Unsubscribe
    &&& r.id == id
    &&& str_views(r.params@) == spec_stream_params(cfg.instruments@, cfg.channels@)
}

/// The request subscribes exactly the streams of `cfg` under this id.
pub open spec fn spec_is_subscribe(r: BinanceRequest, cfg: ExchangeConfig, id: int) -> bool {
    &&& r.method is Subscribe
    &&& r.id == id
    &&& str_views(r.params@) == spec_stream_params(cfg.instruments@, cfg.channels@)
}

/// The Binance session state the callbacks read and update: the current
/// subscription and the monotonic request id.
#[derive(Debug, Clone)]
pub struct BinanceWsCallback {
    pub exchange_config: ExchangeConfig,
    pub next_request_id: u64,
}

impl BinanceWsCallback {
    pub fn new(exchange_config: ExchangeConfig) -> (r: BinanceWsCallback)
        ensures
            r.exchange_config == exchange_config,
            r.next_request_id == 0,
    {
        BinanceWsCallback { exchange_config, next_request_id: 0 }
    }

    /// The subscribe frame for the current configuration, under a fresh id.
    pub fn subscribe(&mut self) -> (r: BinanceRequest)
        requires
            old(self).next_request_id < u64::MAX,
        ensures
            final(self).exchange_config == old(self).exchange_config,
            final(self).next_request_id == old(self).next_request_id + 1,
            spec_is_subscribe(r, old(self).exchange_config, final(self).next_request_id as int),
    {
        let params = stream_params(
            self.exchange_config.get_instruments(),
            self.exchange_config.get_channels(),
        );
        self.next_request_id = self.next_request_id + 1;
        BinanceRequest { method: BinanceRequestMethod::Subscribe, params, id: self.next_request_id }
    }

    /// The unsubscribe frame for a configuration, under a fresh id: request
    /// ids increase monotonically across the whole session.
    pub fn unsubscribe(&mut self, config: &ExchangeConfig) -> (r: BinanceRequest)
        requires
            old(self).next_request_id < u64::MAX,
        ensures
            final(self).exchange_config == old(self).exchange_config,
            final(self).next_request_id == old(self).next_request_id + 1,
            spec_is_unsubscribe(r, *config, final(self).next_request_id as int),
    {
        let params = stream_params(config.get_instruments(), config.get_channels());
        self.next_request_id = self.next_request_id + 1;
        BinanceRequest {
            method: BinanceRequestMethod::Unsubscribe,
            params,
            id: self.next_request_id,
        }
    }

    /// Whether the offered configuration changes the subscribed sets.
    pub fn has_config_changed(&self, config: &ExchangeConfig) -> (r: bool)
        ensures
            r == !same_subscription(self.exchange_config, *config),
    {
        let insts_same = crate::exchange::vec_same_str_set(
            self.exchange_config.get_instruments(),
            config.get_instruments(),
        );
        let chans_same = crate::exchange::vec_same_str_set(
            self.exchange_config.get_channels(),
            config.get_channels(),
        );
        !insts_same || !chans_same
    }

    /// Consumes a live subscription change: an unchanged instrument and
    /// channel set produces no frame; a changed one produces exactly one
    /// unsubscribe for the old set followed by one subscribe for the new
    /// set, under strictly increasing fresh ids, and installs the new
    /// configuration.
    pub fn handle_config_change(&mut self, config: ExchangeConfig) -> (r: Vec<BinanceRequest>)
        requires
            old(self).next_request_id < u64::MAX - 1,
        ensures
            same_subscription(old(self).exchange_config, config) ==> r@.len() == 0 && *final(self)
                == *old(self),
            !same_subscription(old(self).exchange_config, config) ==> {
                &&& r@.len() == 2
                &&& spec_is_unsubscribe(
                    r@[0],
                    old(self).exchange_config,
                    old(self).next_request_id + 1,
                )
                &&& spec_is_subscribe(r@[1], config, old(self).next_request_id + 2)
                &&& final(self).exchange_config == config
                &&& final(self).next_request_id == old(self).next_request_id + 2
            },
    {
        if self.has_config_changed(&config) {
            let mut outgoing = config;
            core::mem::swap(&mut self.exchange_config, &mut outgoing);
            let unsub = self.unsubscribe(&outgoing);
            let sub = self.subscribe();
            let mut frames: Vec<BinanceRequest> = Vec::new();
            frames.push(unsub);
            frames.push(sub);
            frames
        } else {
            Vec::new()
        }
    }
}

} // verus!
