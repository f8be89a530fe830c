//! The processing interface the dataflow workers drive, and batch helpers
//! shared by the sinks.

use vstd::prelude::*;

use crate::errors::AppResult;
use crate::models::{AppInternalMessage, Ticker};
use crate::models::batch_has_symbol;
use crate::models::TickerSymbol;
use crate::smoothing::{
    smoothing_wf, spec_ema_batch_ok, spec_process_result, spec_sma_batch_ok,
    spec_smoothing_factor, tickers_wf, SmoothingConfig, SmoothingProcessor,
};
use crate::weighted::{
    spec_accumulate_ok, spec_batch_output, spec_ingest, weighted_wf, WeightedAverageProcessor,
};

verus! {

/// A stage of the dataflow: consumes one input message at a receipt
/// instant and produces at most one output message.
pub trait FeedProcessor<I, O> {
    /// The state the processor keeps between messages.
    spec fn proc_wf(&self) -> bool;

    /// The inputs the processor can consume.
    spec fn input_ok(input: &I) -> bool;

    fn process(&mut self, input: &I, now_ms: i64) -> (r: AppResult<Option<O>>)
        requires
            old(self).proc_wf(),
            Self::input_ok(input),
        ensures
            final(self).proc_wf(),
    ;
}

impl FeedProcessor<AppInternalMessage, AppInternalMessage> for SmoothingProcessor {
    open spec fn proc_wf(&self) -> bool {
        smoothing_wf(*self)
    }

    open spec fn input_ok(input: &AppInternalMessage) -> bool {
        tickers_wf(input->0@)
    }

    fn process(&mut self, input: &AppInternalMessage, now_ms: i64) -> (r: AppResult<
        Option<AppInternalMessage>,
    >)
        ensures
            final(self).config == old(self).config,
            r is Err ==> r->Err_0 is Unrecoverable,
            old(self).config is PassThru ==> r is Ok && *final(self) == *old(self),
            old(self).config matches SmoothingConfig::SimpleMovingAverage { params }
                && spec_sma_batch_ok(
                old(self).btc_window@,
                old(self).eth_window@,
                input->0@,
                params.window as nat,
                now_ms,
            ) ==> r is Ok,
            old(self).config matches SmoothingConfig::ExponentialMovingAverage { params }
                && spec_ema_batch_ok(
                old(self).btc_ema,
                old(self).eth_ema,
                input->0@,
                spec_smoothing_factor(params),
                now_ms,
            ) ==> r is Ok,
            r is Ok ==> spec_process_result(
                *old(self),
                *final(self),
                input->0@,
                now_ms,
                r->Ok_0,
            ),
    {
        let AppInternalMessage::Tickers(tickers) = input;
        self.process_tickers(tickers, now_ms)
    }
}

impl FeedProcessor<AppInternalMessage, AppInternalMessage> for WeightedAverageProcessor {
    open spec fn proc_wf(&self) -> bool {
        weighted_wf(*self)
    }

    open spec fn input_ok(input: &AppInternalMessage) -> bool {
        tickers_wf(input->0@)
    }

    fn process(&mut self, input: &AppInternalMessage, now_ms: i64) -> (r: AppResult<
        Option<AppInternalMessage>,
    >)
        ensures
            final(self).config == old(self).config,
            r is Err ==> r->Err_0 is Unrecoverable,
            final(self).latest_prices@ == spec_ingest(
                old(self).latest_prices@,
                old(self).config.weights@,
                input->0@,
            ),
            (batch_has_symbol(input->0@, TickerSymbol::BTCUSD) ==> spec_accumulate_ok(
                old(self).config.weights@,
                final(self).latest_prices@,
                TickerSymbol::BTCUSD,
                now_ms,
                old(self).config.stale_threshold_ms,
            )) && (batch_has_symbol(input->0@, TickerSymbol::ETHUSD) ==> spec_accumulate_ok(
                old(self).config.weights@,
                final(self).latest_prices@,
                TickerSymbol::ETHUSD,
                now_ms,
                old(self).config.stale_threshold_ms,
            )) ==> r is Ok,
            r is Ok ==> crate::smoothing::batch_matches(
                r->Ok_0,
                spec_batch_output(
                    old(self).config.weights@,
                    final(self).latest_prices@,
                    input->0@,
                    now_ms,
                    old(self).config.stale_threshold_ms,
                ),
            ),
    {
        let AppInternalMessage::Tickers(tickers) = input;
        self.process_tickers(tickers, now_ms)
    }
}

/// The tickers of a run of messages, flattened in order: message order
/// first, then each batch's own order, nothing reordered or dropped.
pub open spec fn spec_flatten(msgs: Seq<AppInternalMessage>) -> Seq<Ticker>
    decreases msgs.len(),
{
    if msgs.len() == 0 {
        Seq::<Ticker>::empty()
    } else {
        spec_flatten(msgs.drop_last()) + msgs.last()->0@
    }
}

/// Flattens buffered messages into one ordered row of tickers, as the
/// sinks write them out.
pub fn flatten_messages(msgs: &Vec<AppInternalMessage>) -> (r: Vec<Ticker>)
    ensures
        r@ == spec_flatten(msgs@),
{
    let mut out: Vec<Ticker> = Vec::new();
    let mut i: usize = 0;
    while i < msgs.len()
        invariant
            i <= msgs@.len(),
            out@ == spec_flatten(msgs@.subrange(0, i as int)),
        decreases msgs@.len() - i,
    {
        proof {
            assert(msgs@.subrange(0, i + 1).drop_last() =~= msgs@.subrange(0, i as int));
            assert(msgs@.subrange(0, i + 1).last() == msgs@[i as int]);
        }
        let AppInternalMessage::Tickers(tickers) = &msgs[i];
        let mut j: usize = 0;
        while j < tickers.len()
            invariant
                j <= tickers@.len(),
                tickers@ == msgs@[i as int]->0@,
                i < msgs@.len(),
                out@ == spec_flatten(msgs@.subrange(0, i as int)) + tickers@.subrange(
                    0,
                    j as int,
                ),
            decreases tickers@.len() - j,
        {
            out.push(tickers[j]);
            proof {
                assert(out@ =~= spec_flatten(msgs@.subrange(0, i as int)) + tickers@.subrange(
                    0,
                    j + 1,
                ));
            }
            j += 1;
        }
        proof {
            assert(tickers@.subrange(0, tickers@.len() as int) =~= tickers@);
        }
        i += 1;
    }
    proof {
        assert(msgs@.subrange(0, msgs@.len() as int) =~= msgs@);
    }
    out
}

} // verus!
