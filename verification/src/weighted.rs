//! The cross-source weighted aggregator: a freshness-gated weighted index
//! per symbol over the latest price seen from each configured source.

use vstd::prelude::*;

use crate::decimal::{
    add_fits, dec_num_eq, dec_num_lt, dec_seq_sum, dec_wf, exact_quot_cond, mul_fits, pow10,
    prod_of, quot_of, sum_chain_fits, sum_of, Dec,
};
use crate::errors::{AppError, AppResult};
use crate::models::{batch_has_symbol, AppInternalMessage, Source, Ticker, TickerSymbol};
use crate::smoothing::tickers_wf;

verus! {

/// Which source and symbol a stored price belongs to.
#[derive(Debug, Clone, Copy, PartialEq, Eq, Hash, Structural)]
pub struct PriceKey {
    pub source: Source,
    pub symbol: TickerSymbol,
}

/// The latest price seen for a key, with its observation instant.
#[derive(Debug, Clone, Copy, PartialEq, Eq, Structural)]
pub struct PriceEntry {
    pub price: Dec,
    pub timestamp_ms: i64,
}

/// The aggregator's configuration: one weight per source, and how old an
/// observation may be before it is discarded.
#[derive(Debug, Clone)]
pub struct WeightedAverageConfig {
    pub weights: Vec<(Source, Dec)>,
    pub stale_threshold_ms: u64,
}

/// The decimal denoting one hundred.
pub open spec fn dec_hundred() -> Dec {
    Dec { mantissa: 100, scale: 0 }
}

/// The decimal denoting fifty.
pub open spec fn dec_fifty() -> Dec {
    Dec { mantissa: 50, scale: 0 }
}

/// No source appears twice in a weight table.
pub open spec fn distinct_sources(ws: Seq<(Source, Dec)>) -> bool {
    forall|i: int, j: int| 0 <= i < j < ws.len() ==> (#[trigger] ws[i]).0 != (#[trigger] ws[j]).0
}

/// Every weight in the table is a valid decimal.
pub open spec fn weights_wf(ws: Seq<(Source, Dec)>) -> bool {
    forall|i: int| 0 <= i < ws.len() ==> dec_wf((#[trigger] ws[i]).1)
}

/// Every weight is strictly greater than one.
pub open spec fn weights_above_one(ws: Seq<(Source, Dec)>) -> bool {
    forall|i: int| 0 <= i < ws.len() ==> dec_num_lt(
        Dec { mantissa: 1, scale: 0 },
        (#[trigger] ws[i]).1,
    )
}

/// The weight values alone, in table order.
pub open spec fn weight_values(ws: Seq<(Source, Dec)>) -> Seq<Dec> {
    ws.map_values(|p: (Source, Dec)| p.1)
}

/// The source `src` carries a weight.
pub open spec fn weights_contain(ws: Seq<(Source, Dec)>, src: Source) -> bool {
    exists|i: int| 0 <= i < ws.len() && (#[trigger] ws[i]).0 == src
}

/// A weight table the validator accepts: non-empty, every weight above
/// one, and the exact decimal sum equal to one hundred.
pub open spec fn weights_valid(ws: Seq<(Source, Dec)>) -> bool {
    &&& ws.len() > 0
    &&& weights_above_one(ws)
    &&& dec_num_eq(dec_seq_sum(weight_values(ws)), dec_hundred())
}

impl WeightedAverageConfig {
    /// Builds and validates a configuration.
    pub fn new(weights: Vec<(Source, Dec)>, stale_threshold_ms: u64) -> (r: AppResult<
        WeightedAverageConfig,
    >)
        requires
            distinct_sources(weights@),
            weights_wf(weights@),
        ensures
            r is Ok ==> r->Ok_0.weights@ == weights@ && r->Ok_0.stale_threshold_ms
                == stale_threshold_ms && weights_valid(weights@),
            r is Err ==> r->Err_0 is Unrecoverable,
            weights@.len() == 0 ==> r is Err,
            weights@.len() > 0 && !weights_above_one(weights@) ==> r is Err,
            weights@.len() > 0 && weights_above_one(weights@) && sum_chain_fits(
                weight_values(weights@),
            ) && !dec_num_eq(dec_seq_sum(weight_values(weights@)), dec_hundred()) ==> r is Err,
            weights@.len() > 0 && weights_above_one(weights@) && sum_chain_fits(
                weight_values(weights@),
            ) && dec_num_eq(dec_seq_sum(weight_values(weights@)), dec_hundred()) ==> r is Ok,
    {
        let config = WeightedAverageConfig { weights, stale_threshold_ms };
        match config.validate() {
            Ok(_) => Ok(config),
            Err(e) => Err(e),
        }
    }

    /// Accepts the weight table iff it is non-empty, every weight is
    /// strictly greater than one, and the exact decimal sum is one hundred.
    /// Every rejection is an unrecoverable error naming the violated rule.
    pub fn validate(&self) -> (r: AppResult<bool>)
        requires
            weights_wf(self.weights@),
        ensures
            r is Ok ==> r->Ok_0 == true && weights_valid(self.weights@),
            r is Err ==> r->Err_0 is Unrecoverable,
            self.weights@.len() == 0 ==> r is Err && r->Err_0->Unrecoverable_0@
                == "weights cannot be empty"@,
            self.weights@.len() > 0 && weights_above_one(self.weights@) && sum_chain_fits(
                weight_values(self.weights@),
            ) && !dec_num_eq(dec_seq_sum(weight_values(self.weights@)), dec_hundred()) ==> r is Err
                && r->Err_0->Unrecoverable_0@ == "weights must sum to 100"@,
            self.weights@.len() == 0 ==> r is Err,
            self.weights@.len() > 0 && !weights_above_one(self.weights@) ==> r is Err,
            self.weights@.len() > 0 && weights_above_one(self.weights@) && sum_chain_fits(
                weight_values(self.weights@),
            ) && !dec_num_eq(dec_seq_sum(weight_values(self.weights@)), dec_hundred()) ==> r
                is Err,
            self.weights@.len() > 0 && weights_above_one(self.weights@) && sum_chain_fits(
                weight_values(self.weights@),
            ) && dec_num_eq(dec_seq_sum(weight_values(self.weights@)), dec_hundred()) ==> r is Ok,
    {
        if self.weights.len() == 0 {
            return Err(AppError::Unrecoverable("weights cannot be empty".to_string()));
        }
        let mut total = Dec::zero();
        let mut i: usize = 0;
        let ghost values = weight_values(self.weights@);
        while i < self.weights.len()
            invariant
                i <= self.weights@.len(),
                weights_wf(self.weights@),
                values == weight_values(self.weights@),
                dec_wf(total),
                total == dec_seq_sum(values.subrange(0, i as int)),
                forall|j: int| 0 <= j < i ==> dec_num_lt(
                    Dec { mantissa: 1, scale: 0 },
                    (#[trigger] self.weights@[j]).1,
                ),
            decreases self.weights@.len() - i,
        {
            let (_, weight) = self.weights[i];
            let one = Dec { mantissa: 1, scale: 0 };
            if weight.le(one) {
                return Err(AppError::Unrecoverable("weight must be greater than 1".to_string()));
            }
            proof {
                assert(values.subrange(0, i + 1).drop_last() =~= values.subrange(0, i as int));
                assert(values.subrange(0, i + 1).last() == weight);
            }
            total = match total.checked_add(weight) {
                Some(v) => v,
                None => {
                    proof {
                        assert(!sum_chain_fits(values.subrange(0, i + 1)));
                        if sum_chain_fits(values) {
                            crate::decimal::lemma_sum_chain_fits_prefix(values, i + 1);
                        }
                    }
                    return Err(AppError::Unrecoverable("weights must sum to 100".to_string()));
                },
            };
            i += 1;
        }
        proof {
            assert(values.subrange(0, values.len() as int) =~= values);
        }
        let hundred = Dec { mantissa: 100, scale: 0 };
        if !total.eq_num(hundred) {
            return Err(AppError::Unrecoverable("weights must sum to 100".to_string()));
        }
        Ok(true)
    }
}

/// The price stored for a key, if one is stored.
pub open spec fn spec_lookup(s: Seq<(PriceKey, PriceEntry)>, k: PriceKey) -> Option<PriceEntry> {
    if exists|i: int| 0 <= i < s.len() && (#[trigger] s[i]).0 == k {
        let i = choose|i: int| 0 <= i < s.len() && (#[trigger] s[i]).0 == k;
        Some(s[i].1)
    } else {
        None
    }
}

/// An observation is fresh at `now_ms` when it is younger than the threshold.
pub open spec fn spec_fresh(e: PriceEntry, now_ms: i64, stale_threshold_ms: u64) -> bool {
    (now_ms as int) - (e.timestamp_ms as int) < (stale_threshold_ms as int)
}

/// The weighted sum and the fresh-weight total for one symbol: each
/// configured source with a fresh stored price contributes
/// `price * weight` to the first and `weight` to the second.
pub open spec fn spec_accumulate(
    ws: Seq<(Source, Dec)>,
    latest: Seq<(PriceKey, PriceEntry)>,
    symbol: TickerSymbol,
    now_ms: i64,
    stale_threshold_ms: u64,
) -> (Dec, Dec)
    decreases ws.len(),
{
    if ws.len() == 0 {
        (Dec { mantissa: 0, scale: 0 }, Dec { mantissa: 0, scale: 0 })
    } else {
        let (acc, tot) = spec_accumulate(
            ws.drop_last(),
            latest,
            symbol,
            now_ms,
            stale_threshold_ms,
        );
        let source = ws.last().0;
        let weight = ws.last().1;
        match spec_lookup(latest, PriceKey { source, symbol }) {
            Option::Some(e) => {
                if spec_fresh(e, now_ms, stale_threshold_ms) {
                    (sum_of(acc, prod_of(e.price, weight)), sum_of(tot, weight))
                } else {
                    (acc, tot)
                }
            },
            Option::None => (acc, tot),
        }
    }
}

/// The accumulation for one symbol stays within what the decimals can
/// represent without rounding: every fresh contribution's product and both
/// running sums are exact.
pub open spec fn spec_accumulate_ok(
    ws: Seq<(Source, Dec)>,
    latest: Seq<(PriceKey, PriceEntry)>,
    symbol: TickerSymbol,
    now_ms: i64,
    stale_threshold_ms: u64,
) -> bool
    decreases ws.len(),
{
    if ws.len() == 0 {
        true
    } else {
        let ok_prev = spec_accumulate_ok(
            ws.drop_last(),
            latest,
            symbol,
            now_ms,
            stale_threshold_ms,
        );
        let (acc, tot) = spec_accumulate(
            ws.drop_last(),
            latest,
            symbol,
            now_ms,
            stale_threshold_ms,
        );
        let source = ws.last().0;
        let weight = ws.last().1;
        match spec_lookup(latest, PriceKey { source, symbol }) {
            Option::Some(e) => {
                if spec_fresh(e, now_ms, stale_threshold_ms) {
                    ok_prev && mul_fits(e.price, weight) && add_fits(
                        acc,
                        prod_of(e.price, weight),
                    ) && add_fits(tot, weight)
                } else {
                    ok_prev
                }
            },
            Option::None => ok_prev,
        }
    }
}

/// Every prefix of a representable accumulation is representable.
proof fn lemma_accumulate_ok_prefix(
    ws: Seq<(Source, Dec)>,
    latest: Seq<(PriceKey, PriceEntry)>,
    symbol: TickerSymbol,
    now_ms: i64,
    stale_threshold_ms: u64,
    k: int,
)
    requires
        spec_accumulate_ok(ws, latest, symbol, now_ms, stale_threshold_ms),
        0 <= k <= ws.len(),
    ensures
        spec_accumulate_ok(ws.subrange(0, k), latest, symbol, now_ms, stale_threshold_ms),
    decreases ws.len() - k,
{
    if k == ws.len() {
        assert(ws.subrange(0, k) =~= ws);
    } else {
        lemma_accumulate_ok_prefix(ws, latest, symbol, now_ms, stale_threshold_ms, k + 1);
        assert(ws.subrange(0, k + 1).drop_last() =~= ws.subrange(0, k));
    }
}

/// The aggregator: its validated configuration and the latest price per
/// (source, symbol), kept only for sources that carry a weight.
pub struct WeightedAverageProcessor {
    pub config: WeightedAverageConfig,
    pub latest_prices: Vec<(PriceKey, PriceEntry)>,
}

/// Stored keys are unique, every stored source carries a weight, and every
/// stored price is a valid decimal.
pub open spec fn latest_wf(
    latest: Seq<(PriceKey, PriceEntry)>,
    ws: Seq<(Source, Dec)>,
) -> bool {
    &&& forall|i: int, j: int|
        0 <= i < j < latest.len() ==> (#[trigger] latest[i]).0 != (#[trigger] latest[j]).0
    &&& forall|i: int| 0 <= i < latest.len() ==> weights_contain(ws, (#[trigger] latest[i]).0.source)
    &&& forall|i: int| 0 <= i < latest.len() ==> dec_wf((#[trigger] latest[i]).1.price)
}

/// The aggregator's invariant.
pub open spec fn weighted_wf(p: WeightedAverageProcessor) -> bool {
    &&& distinct_sources(p.config.weights@)
    &&& weights_wf(p.config.weights@)
    &&& latest_wf(p.latest_prices@, p.config.weights@)
}

impl WeightedAverageProcessor {
    /// Builds an aggregator over a validated configuration.
    pub fn new(config: WeightedAverageConfig) -> (r: AppResult<WeightedAverageProcessor>)
        requires
            distinct_sources(config.weights@),
            weights_wf(config.weights@),
        ensures
            r is Ok ==> weighted_wf(r->Ok_0) && r->Ok_0.config.weights@ == config.weights@
                && r->Ok_0.config.stale_threshold_ms == config.stale_threshold_ms
                && r->Ok_0.latest_prices@.len() == 0 && weights_valid(config.weights@),
            r is Err ==> r->Err_0 is Unrecoverable,
            config.weights@.len() == 0 ==> r is Err,
            weights_valid(config.weights@) && sum_chain_fits(weight_values(config.weights@)) ==> r
                is Ok,
    {
        match config.validate() {
            Ok(_) => Ok(WeightedAverageProcessor { config, latest_prices: Vec::new() }),
            Err(e) => Err(e),
        }
    }

    /// The weighted index for one symbol at instant `now_ms`: emitted iff
    /// the fresh sources hold a strict majority of the configured weight,
    /// and then equal to the weighted sum divided by the fresh-weight total.
    /// The call succeeds whenever the accumulation is representable.
    pub fn calculate_weighted_average(&self, symbol: TickerSymbol, now_ms: i64) -> (r: AppResult<
        Option<Dec>,
    >)
        requires
            weighted_wf(*self),
        ensures
            spec_accumulate_ok(
                self.config.weights@,
                self.latest_prices@,
                symbol,
                now_ms,
                self.config.stale_threshold_ms,
            ) ==> r is Ok,
            r is Err ==> r->Err_0 is Unrecoverable,
            r is Ok ==> {
                let (acc, tot) = spec_accumulate(
                    self.config.weights@,
                    self.latest_prices@,
                    symbol,
                    now_ms,
                    self.config.stale_threshold_ms,
                );
                &&& (r->Ok_0 is Some <==> dec_num_lt(dec_fifty(), tot))
                &&& (r->Ok_0 is Some ==> r->Ok_0->0 == quot_of(acc, tot) && dec_wf(r->Ok_0->0))
            },
    {
        let mut weighted_sum = Dec::zero();
        let mut total_weight = Dec::zero();
        let mut i: usize = 0;
        while i < self.config.weights.len()
            invariant
                i <= self.config.weights@.len(),
                weighted_wf(*self),
                dec_wf(weighted_sum),
                dec_wf(total_weight),
                (weighted_sum, total_weight) == spec_accumulate(
                    self.config.weights@.subrange(0, i as int),
                    self.latest_prices@,
                    symbol,
                    now_ms,
                    self.config.stale_threshold_ms,
                ),
            decreases self.config.weights@.len() - i,
        {
            let (source, weight) = self.config.weights[i];
            proof {
                assert(self.config.weights@.subrange(0, i + 1).drop_last()
                    =~= self.config.weights@.subrange(0, i as int));
                assert(self.config.weights@.subrange(0, i + 1).last()
                    == self.config.weights@[i as int]);
            }
            let key = PriceKey { source, symbol };
            let ghost whole = self.config.weights@;
            let ghost stale = self.config.stale_threshold_ms;
            match self.find_entry(key) {
                Some(entry) => {
                    let age_fresh = (now_ms as i128 - entry.timestamp_ms as i128) < (
                    self.config.stale_threshold_ms as i128);
                    if age_fresh {
                        let contribution = match entry.price.checked_mul(weight) {
                            Some(v) => v,
                            None => {
                                proof {
                                    assert(!spec_accumulate_ok(
                                        whole.subrange(0, i + 1),
                                        self.latest_prices@,
                                        symbol,
                                        now_ms,
                                        stale,
                                    ));
                                    if spec_accumulate_ok(
                                        whole,
                                        self.latest_prices@,
                                        symbol,
                                        now_ms,
                                        stale,
                                    ) {
                                        lemma_accumulate_ok_prefix(
                                            whole,
                                            self.latest_prices@,
                                            symbol,
                                            now_ms,
                                            stale,
                                            i + 1,
                                        );
                                    }
                                }
                                return Err(
                                    AppError::Unrecoverable("weighted term overflowed".to_string()),
                                );
                            },
                        };
                        weighted_sum = match weighted_sum.checked_add(contribution) {
                            Some(v) => v,
                            None => {
                                proof {
                                    assert(!spec_accumulate_ok(
                                        whole.subrange(0, i + 1),
                                        self.latest_prices@,
                                        symbol,
                                        now_ms,
                                        stale,
                                    ));
                                    if spec_accumulate_ok(
                                        whole,
                                        self.latest_prices@,
                                        symbol,
                                        now_ms,
                                        stale,
                                    ) {
                                        lemma_accumulate_ok_prefix(
                                            whole,
                                            self.latest_prices@,
                                            symbol,
                                            now_ms,
                                            stale,
                                            i + 1,
                                        );
                                    }
                                }
                                return Err(
                                    AppError::Unrecoverable("weighted sum overflowed".to_string()),
                                );
                            },
                        };
                        total_weight = match total_weight.checked_add(weight) {
                            Some(v) => v,
                            None => {
                                proof {
                                    assert(!spec_accumulate_ok(
                                        whole.subrange(0, i + 1),
                                        self.latest_prices@,
                                        symbol,
                                        now_ms,
                                        stale,
                                    ));
                                    if spec_accumulate_ok(
                                        whole,
                                        self.latest_prices@,
                                        symbol,
                                        now_ms,
                                        stale,
                                    ) {
                                        lemma_accumulate_ok_prefix(
                                            whole,
                                            self.latest_prices@,
                                            symbol,
                                            now_ms,
                                            stale,
                                            i + 1,
                                        );
                                    }
                                }
                                return Err(
                                    AppError::Unrecoverable("weight total overflowed".to_string()),
                                );
                            },
                        };
                    }
                },
                None => {},
            }
            i += 1;
        }
        proof {
            assert(self.config.weights@.subrange(0, self.config.weights@.len() as int)
                =~= self.config.weights@);
        }
        let fifty = Dec { mantissa: 50, scale: 0 };
        if fifty.lt(total_weight) {
            proof {
                crate::decimal::lemma_pow10_pos(total_weight.scale as nat);
            }
            match weighted_sum.checked_div(total_weight) {
                Some(q) => Ok(Some(q)),
                None => {
                    proof {
                        assert(50 * pow10(total_weight.scale as nat) < total_weight.mantissa as int);
                        assert(pow10(total_weight.scale as nat) <= total_weight.mantissa as int);
                    }
                    Err(AppError::Unrecoverable("weighted average overflowed".to_string()))
                },
            }
        } else {
            Ok(None)
        }
    }

    /// The stored entry for a key.
    fn find_entry(&self, key: PriceKey) -> (r: Option<PriceEntry>)
        requires
            weighted_wf(*self),
        ensures
            r == spec_lookup(self.latest_prices@, key),
    {
        let mut i: usize = 0;
        while i < self.latest_prices.len()
            invariant
                i <= self.latest_prices@.len(),
                weighted_wf(*self),
                forall|j: int| 0 <= j < i ==> (#[trigger] self.latest_prices@[j]).0 != key,
            decreases self.latest_prices@.len() - i,
        {
            let (k, e) = self.latest_prices[i];
            if k == key {
                proof {
                    let w = choose|w: int|
                        0 <= w < self.latest_prices@.len() && (#[trigger] self.latest_prices@[w]).0
                            == key;
                    assert(w == i);
                }
                return Some(e);
            }
            i += 1;
        }
        None
    }
}


/// The stored table after one observation: an existing key is overwritten
/// in place, a new key is appended.
pub open spec fn spec_upsert(
    latest: Seq<(PriceKey, PriceEntry)>,
    key: PriceKey,
    entry: PriceEntry,
) -> Seq<(PriceKey, PriceEntry)> {
    if exists|i: int| 0 <= i < latest.len() && (#[trigger] latest[i]).0 == key {
        let i = choose|i: int| 0 <= i < latest.len() && (#[trigger] latest[i]).0 == key;
        latest.update(i, (key, entry))
    } else {
        latest.push((key, entry))
    }
}

/// The stored table after a batch: each ticker whose source carries a
/// weight overwrites or creates its key's entry, in batch order.
pub open spec fn spec_ingest(
    latest: Seq<(PriceKey, PriceEntry)>,
    ws: Seq<(Source, Dec)>,
    tickers: Seq<Ticker>,
) -> Seq<(PriceKey, PriceEntry)>
    decreases tickers.len(),
{
    if tickers.len() == 0 {
        latest
    } else {
        let prev = spec_ingest(latest, ws, tickers.drop_last());
        let t = tickers.last();
        if weights_contain(ws, t.source) {
            spec_upsert(
                prev,
                PriceKey { source: t.source, symbol: t.symbol },
                PriceEntry { price: t.price, timestamp_ms: t.timestamp_ms },
            )
        } else {
            prev
        }
    }
}

/// The index ticker emitted for one symbol, if its fresh sources hold a
/// strict weight majority.
pub open spec fn spec_symbol_output(
    ws: Seq<(Source, Dec)>,
    latest: Seq<(PriceKey, PriceEntry)>,
    sym: TickerSymbol,
    now_ms: i64,
    stale_threshold_ms: u64,
) -> Option<Ticker> {
    let (acc, tot) = spec_accumulate(ws, latest, sym, now_ms, stale_threshold_ms);
    if dec_num_lt(dec_fifty(), tot) {
        Some(
            Ticker {
                symbol: sym,
                price: quot_of(acc, tot),
                source: Source::IndexerWeightedAverage,
                timestamp_ms: now_ms,
            },
        )
    } else {
        None
    }
}

/// The whole output of one batch: the per-symbol index for each symbol the
/// batch mentions, BTCUSD first.
pub open spec fn spec_batch_output(
    ws: Seq<(Source, Dec)>,
    latest: Seq<(PriceKey, PriceEntry)>,
    tickers: Seq<Ticker>,
    now_ms: i64,
    stale_threshold_ms: u64,
) -> Seq<Ticker> {
    let btc = if batch_has_symbol(tickers, TickerSymbol::BTCUSD) {
        spec_symbol_output(ws, latest, TickerSymbol::BTCUSD, now_ms, stale_threshold_ms)
    } else {
        None
    };
    let eth = if batch_has_symbol(tickers, TickerSymbol::ETHUSD) {
        spec_symbol_output(ws, latest, TickerSymbol::ETHUSD, now_ms, stale_threshold_ms)
    } else {
        None
    };
    let first = match btc {
        Option::Some(t) => seq![t],
        Option::None => Seq::<Ticker>::empty(),
    };
    match eth {
        Option::Some(t) => first.push(t),
        Option::None => first,
    }
}



impl WeightedAverageProcessor {
    /// Whether a source carries a weight.
    fn source_has_weight(&self, source: Source) -> (r: bool)
        ensures
            r == weights_contain(self.config.weights@, source),
    {
        let mut i: usize = 0;
        while i < self.config.weights.len()
            invariant
                i <= self.config.weights@.len(),
                forall|j: int| 0 <= j < i ==> (#[trigger] self.config.weights@[j]).0 != source,
            decreases self.config.weights@.len() - i,
        {
            let (src, _) = self.config.weights[i];
            if src == source {
                proof {
                    assert(self.config.weights@[i as int].0 == source);
                }
                return true;
            }
            i += 1;
        }
        false
    }

    /// Overwrites or creates the entry stored for a key.
    fn upsert_entry(&mut self, key: PriceKey, entry: PriceEntry)
        requires
            weighted_wf(*old(self)),
            weights_contain(old(self).config.weights@, key.source),
            dec_wf(entry.price),
        ensures
            weighted_wf(*final(self)),
            final(self).config == old(self).config,
            final(self).latest_prices@ == spec_upsert(old(self).latest_prices@, key, entry),
    {
        let ghost prev = self.latest_prices@;
        let ghost ws = self.config.weights@;
        let mut i: usize = 0;
        while i < self.latest_prices.len()
            invariant
                i <= self.latest_prices@.len(),
                weighted_wf(*self),
                self.config == old(self).config,
                ws == self.config.weights@,
                weights_contain(ws, key.source),
                dec_wf(entry.price),
                prev == old(self).latest_prices@,
                self.latest_prices@ == prev,
                forall|j: int| 0 <= j < i ==> (#[trigger] self.latest_prices@[j]).0 != key,
            decreases self.latest_prices@.len() - i,
        {
            let (k, _) = self.latest_prices[i];
            if k == key {
                proof {
                    assert(prev[i as int].0 == key);
                }
                self.latest_prices[i] = (key, entry);
                proof {
                    let w = choose|w: int| 0 <= w < prev.len() && (#[trigger] prev[w]).0 == key;
                    if w != i {
                        assert(prev[w].0 != prev[i as int].0);
                    }
                    assert(self.latest_prices@ =~= prev.update(w, (key, entry)));
                    assert(self.latest_prices@ == spec_upsert(prev, key, entry));
                    assert forall|a: int, b: int|
                        0 <= a < b < self.latest_prices@.len() implies (
                    #[trigger] self.latest_prices@[a]).0 != (
                    #[trigger] self.latest_prices@[b]).0 by {
                        assert(prev[a].0 != prev[b].0);
                    }
                    assert forall|a: int|
                        0 <= a < self.latest_prices@.len() implies weights_contain(
                        ws,
                        (#[trigger] self.latest_prices@[a]).0.source,
                    ) && dec_wf(self.latest_prices@[a].1.price) by {
                        if a != i {
                            assert(self.latest_prices@[a] == prev[a]);
                        }
                    }
                }
                return ;
            }
            i += 1;
        }
        self.latest_prices.push((key, entry));
        proof {
            assert(forall|w: int| 0 <= w < prev.len() ==> (#[trigger] prev[w]).0 != key);
            assert(self.latest_prices@ =~= spec_upsert(prev, key, entry));
            assert forall|a: int, b: int|
                0 <= a < b < self.latest_prices@.len() implies (
            #[trigger] self.latest_prices@[a]).0 != (#[trigger] self.latest_prices@[b]).0 by {
                if b < prev.len() {
                    assert(prev[a].0 != prev[b].0);
                } else {
                    assert(self.latest_prices@[a] == prev[a]);
                }
            }
            assert forall|a: int|
                0 <= a < self.latest_prices@.len() implies weights_contain(
                ws,
                (#[trigger] self.latest_prices@[a]).0.source,
            ) && dec_wf(self.latest_prices@[a].1.price) by {
                if a < prev.len() {
                    assert(self.latest_prices@[a] == prev[a]);
                }
            }
        }
    }

    /// Stores each ticker whose source carries a weight as its key's
    /// latest observation, then emits one index ticker per symbol the
    /// batch mentions whose fresh sources hold a strict weight majority.
    /// Emitted tickers carry the receipt instant and the aggregator's own
    /// source tag; an empty output emits nothing. The whole batch is
    /// ingested whatever the outcome, and the call succeeds whenever both
    /// symbols' accumulations are representable.
    pub fn process_tickers(&mut self, tickers: &Vec<Ticker>, now_ms: i64) -> (r: AppResult<
        Option<AppInternalMessage>,
    >)
        requires
            weighted_wf(*old(self)),
            tickers_wf(tickers@),
        ensures
            weighted_wf(*final(self)),
            final(self).config == old(self).config,
            final(self).latest_prices@ == spec_ingest(
                old(self).latest_prices@,
                old(self).config.weights@,
                tickers@,
            ),
            r is Err ==> r->Err_0 is Unrecoverable,
            (batch_has_symbol(tickers@, TickerSymbol::BTCUSD) ==> spec_accumulate_ok(
                old(self).config.weights@,
                final(self).latest_prices@,
                TickerSymbol::BTCUSD,
                now_ms,
                old(self).config.stale_threshold_ms,
            )) && (batch_has_symbol(tickers@, TickerSymbol::ETHUSD) ==> spec_accumulate_ok(
                old(self).config.weights@,
                final(self).latest_prices@,
                TickerSymbol::ETHUSD,
                now_ms,
                old(self).config.stale_threshold_ms,
            )) ==> r is Ok,
            r is Ok ==> crate::smoothing::batch_matches(
                r->Ok_0,
                spec_batch_output(
                    old(self).config.weights@,
                    final(self).latest_prices@,
                    tickers@,
                    now_ms,
                    old(self).config.stale_threshold_ms,
                ),
            ),
    {
        let ghost ws = self.config.weights@;
        let ghost latest0 = self.latest_prices@;
        let mut saw_btc = false;
        let mut saw_eth = false;
        let mut i: usize = 0;
        while i < tickers.len()
            invariant
                i <= tickers@.len(),
                tickers_wf(tickers@),
                weighted_wf(*self),
                self.config == old(self).config,
                ws == old(self).config.weights@,
                latest0 == old(self).latest_prices@,
                self.latest_prices@ == spec_ingest(latest0, ws, tickers@.subrange(0, i as int)),
                saw_btc == batch_has_symbol(
                    tickers@.subrange(0, i as int),
                    TickerSymbol::BTCUSD,
                ),
                saw_eth == batch_has_symbol(
                    tickers@.subrange(0, i as int),
                    TickerSymbol::ETHUSD,
                ),
            decreases tickers@.len() - i,
        {
            let t = tickers[i];
            proof {
                assert(tickers@.subrange(0, i + 1).drop_last() =~= tickers@.subrange(0, i as int));
                assert(tickers@.subrange(0, i + 1).last() == t);
            }
            if self.source_has_weight(t.source) {
                self.upsert_entry(
                    PriceKey { source: t.source, symbol: t.symbol },
                    PriceEntry { price: t.price, timestamp_ms: t.timestamp_ms },
                );
            }
            match t.symbol {
                TickerSymbol::BTCUSD => {
                    saw_btc = true;
                },
                TickerSymbol::ETHUSD => {
                    saw_eth = true;
                },
            }
            proof {
                let sub = tickers@.subrange(0, i + 1);
                assert(sub[i as int] == t);
                if !saw_btc {
                    assert forall|j: int|
                        0 <= j < sub.len() implies (#[trigger] sub[j]).symbol
                        != TickerSymbol::BTCUSD by {
                        if j < i {
                            assert(sub[j] == tickers@.subrange(0, i as int)[j]);
                        }
                    }
                }
                if !saw_eth {
                    assert forall|j: int|
                        0 <= j < sub.len() implies (#[trigger] sub[j]).symbol
                        != TickerSymbol::ETHUSD by {
                        if j < i {
                            assert(sub[j] == tickers@.subrange(0, i as int)[j]);
                        }
                    }
                }
            }
            i += 1;
        }
        proof {
            assert(tickers@.subrange(0, tickers@.len() as int) =~= tickers@);
        }
        let mut out: Vec<Ticker> = Vec::new();
        if saw_btc {
            match self.calculate_weighted_average(TickerSymbol::BTCUSD, now_ms) {
                Ok(Some(price)) => {
                    out.push(
                        Ticker {
                            symbol: TickerSymbol::BTCUSD,
                            price,
                            source: Source::IndexerWeightedAverage,
                            timestamp_ms: now_ms,
                        },
                    );
                },
                Ok(None) => {},
                Err(e) => {
                    return Err(e);
                },
            }
        }
        if saw_eth {
            match self.calculate_weighted_average(TickerSymbol::ETHUSD, now_ms) {
                Ok(Some(price)) => {
                    out.push(
                        Ticker {
                            symbol: TickerSymbol::ETHUSD,
                            price,
                            source: Source::IndexerWeightedAverage,
                            timestamp_ms: now_ms,
                        },
                    );
                },
                Ok(None) => {},
                Err(e) => {
                    return Err(e);
                },
            }
        }
        proof {
            assert(out@ =~= spec_batch_output(
                ws,
                self.latest_prices@,
                tickers@,
                now_ms,
                self.config.stale_threshold_ms,
            ));
        }
        if out.len() == 0 {
            Ok(None)
        } else {
            Ok(Some(AppInternalMessage::Tickers(out)))
        }
    }
}

/// The stored table filtered to the sources a new weight table keeps.
pub open spec fn spec_keep_weighted(
    latest: Seq<(PriceKey, PriceEntry)>,
    ws: Seq<(Source, Dec)>,
) -> Seq<(PriceKey, PriceEntry)>
    decreases latest.len(),
{
    if latest.len() == 0 {
        latest
    } else {
        let prev = spec_keep_weighted(latest.drop_last(), ws);
        if weights_contain(ws, latest.last().0.source) {
            prev.push(latest.last())
        } else {
            prev
        }
    }
}

/// How the aggregator consumes a live configuration change.
pub trait WeightedAverageConfigChangeHandler {
    /// The state the handler keeps across configuration changes.
    spec fn handler_wf(&self) -> bool;

    /// The configurations the handler can be offered.
    spec fn config_ok(config: &WeightedAverageConfig) -> bool;

    fn handle_config_change(&mut self, config: WeightedAverageConfig) -> (r: AppResult<()>)
        requires
            old(self).handler_wf(),
            Self::config_ok(&config),
        ensures
            final(self).handler_wf(),
    ;
}

impl WeightedAverageConfigChangeHandler for WeightedAverageProcessor {
    open spec fn handler_wf(&self) -> bool {
        weighted_wf(*self)
    }

    open spec fn config_ok(config: &WeightedAverageConfig) -> bool {
        distinct_sources(config.weights@) && weights_wf(config.weights@)
    }

    /// Validates the offered weight table. A rejected table leaves the
    /// aggregator untouched; an accepted one replaces the configuration
    /// and evicts the stored prices of sources that lost their weight.
    fn handle_config_change(&mut self, config: WeightedAverageConfig) -> (r: AppResult<()>)
        ensures
            r is Err ==> *final(self) == *old(self) && r->Err_0 is Unrecoverable,
            r is Ok ==> weights_valid(config.weights@) && final(self).config.weights@
                == config.weights@ && final(self).config.stale_threshold_ms
                == config.stale_threshold_ms && final(self).latest_prices@ == spec_keep_weighted(
                old(self).latest_prices@,
                config.weights@,
            ),
            weights_valid(config.weights@) && sum_chain_fits(weight_values(config.weights@))
                ==> r is Ok,
    {
        match config.validate() {
            Ok(_) => {},
            Err(e) => {
                return Err(e);
            },
        }
        let ghost prev = self.latest_prices@;
        let ghost ws = config.weights@;
        let mut kept: Vec<(PriceKey, PriceEntry)> = Vec::new();
        let mut i: usize = 0;
        while i < self.latest_prices.len()
            invariant
                i <= self.latest_prices@.len(),
                weighted_wf(*self),
                prev == self.latest_prices@,
                ws == config.weights@,
                distinct_sources(ws),
                weights_wf(ws),
                kept@ == spec_keep_weighted(prev.subrange(0, i as int), ws),
                latest_wf(kept@, ws),
                forall|a: int, b: int| 0 <= a < kept@.len() && 0 <= b < prev.len() ==> (
                (#[trigger] kept@[a]).0 == (#[trigger] prev[b]).0 ==> exists|c: int|
                    0 <= c < i && prev[c] == kept@[a]),
            decreases self.latest_prices@.len() - i,
        {
            let (k, e) = self.latest_prices[i];
            proof {
                assert(prev.subrange(0, i + 1).drop_last() =~= prev.subrange(0, i as int));
                assert(prev.subrange(0, i + 1).last() == prev[i as int]);
            }
            let ghost kept_before = kept@;
            if self.keeps_source(&config, k.source) {
                kept.push((k, e));
                proof {
                    assert forall|a: int, b: int|
                        0 <= a < b < kept@.len() implies (#[trigger] kept@[a]).0 != (
                    #[trigger] kept@[b]).0 by {
                        if b == kept@.len() - 1 {
                            assert(kept@[a] == kept_before[a]);
                            if exists|c: int| 0 <= c < i && prev[c] == kept_before[a] {
                                let c = choose|c: int|
                                    0 <= c < i && prev[c] == kept_before[a];
                                assert(prev[c].0 != prev[i as int].0);
                            }
                        } else {
                            assert(kept@[a] == kept_before[a] && kept@[b] == kept_before[b]);
                        }
                    }
                    assert forall|a: int, b: int|
                        0 <= a < kept@.len() && 0 <= b < prev.len() && (#[trigger] kept@[a]).0
                            == (#[trigger] prev[b]).0 implies exists|c: int|
                        0 <= c < i + 1 && prev[c] == kept@[a] by {
                        if a < kept_before.len() {
                            assert(kept@[a] == kept_before[a]);
                            let c = choose|c: int| 0 <= c < i && prev[c] == kept_before[a];
                            assert(0 <= c < i + 1 && prev[c] == kept@[a]);
                        } else {
                            assert(kept@[a] == prev[i as int]);
                        }
                    }
                }
            } else {
                proof {
                    assert forall|a: int, b: int|
                        0 <= a < kept@.len() && 0 <= b < prev.len() && (#[trigger] kept@[a]).0
                            == (#[trigger] prev[b]).0 implies exists|c: int|
                        0 <= c < i + 1 && prev[c] == kept@[a] by {
                        let c = choose|c: int| 0 <= c < i && prev[c] == kept@[a];
                        assert(0 <= c < i + 1 && prev[c] == kept@[a]);
                    }
                }
            }
            i += 1;
        }
        proof {
            assert(prev.subrange(0, prev.len() as int) =~= prev);
        }
        self.config = config;
        self.latest_prices = kept;
        Ok(())
    }
}

impl WeightedAverageProcessor {
    /// Whether a source keeps a weight under the offered configuration.
    fn keeps_source(&self, config: &WeightedAverageConfig, source: Source) -> (r: bool)
        ensures
            r == weights_contain(config.weights@, source),
    {
        let mut i: usize = 0;
        while i < config.weights.len()
            invariant
                i <= config.weights@.len(),
                forall|j: int| 0 <= j < i ==> (#[trigger] config.weights@[j]).0 != source,
            decreases config.weights@.len() - i,
        {
            let (src, _) = config.weights[i];
            if src == source {
                proof {
                    assert(config.weights@[i as int].0 == source);
                }
                return true;
            }
            i += 1;
        }
        false
    }
}


} // verus!
