//! The per-source smoothing processor: pass-through, simple moving average
//! or exponential moving average, applied independently per canonical symbol.

use vstd::prelude::*;

use crate::decimal::{
    add_fits, dec_seq_sum, dec_wf, diff_of, mul_fits, prod_of, quot_of, sub_fits, sum_chain_fits,
    sum_of, Dec,
};
use crate::errors::{AppError, AppResult};
use crate::exchange::Exchange;
use crate::models::{batch_has_symbol, AppInternalMessage, Ticker, TickerSymbol};

verus! {

/// The window of a simple moving average.
#[derive(Debug, Clone, Copy, PartialEq, Eq, Structural)]
pub struct SmaParams {
    pub window: u32,
}

/// The window and smoothing constant of an exponential moving average;
/// the smoothing factor is `smoothing / (window + 1)`.
#[derive(Debug, Clone, Copy, PartialEq, Eq, Structural)]
pub struct EmaParams {
    pub window: u32,
    pub smoothing: Dec,
}

/// Which smoothing function a processor applies.
#[derive(Debug, Clone, Copy, PartialEq, Eq, Structural, Default)]
pub enum SmoothingConfig {
    #[default]
    PassThru,
    SimpleMovingAverage { params: SmaParams },
    ExponentialMovingAverage { params: EmaParams },
}

/// A smoothing configuration the processor can run: an SMA window is at
/// least one (the average divides by it), an EMA window leaves room for
/// the `window + 1` divisor, and the smoothing constant is a valid decimal.
pub open spec fn smoothing_config_wf(c: SmoothingConfig) -> bool {
    match c {
        SmoothingConfig::PassThru => true,
        SmoothingConfig::SimpleMovingAverage { params } => params.window >= 1,
        SmoothingConfig::ExponentialMovingAverage { params } => params.window < u32::MAX && dec_wf(
            params.smoothing,
        ),
    }
}

/// The decimal denoting one.
pub open spec fn dec_one() -> Dec {
    Dec { mantissa: 1, scale: 0 }
}

/// The smoothing factor an EMA with these parameters uses.
pub open spec fn spec_smoothing_factor(params: EmaParams) -> Dec {
    quot_of(params.smoothing, Dec { mantissa: (params.window + 1) as i128, scale: 0 })
}

impl SmoothingConfig {
    /// Whether the processor can run this configuration.
    pub fn is_runnable(&self) -> (r: bool)
        ensures
            r == smoothing_config_wf(*self),
    {
        match self {
            SmoothingConfig::PassThru => true,
            SmoothingConfig::SimpleMovingAverage { params } => params.window >= 1,
            SmoothingConfig::ExponentialMovingAverage { params } => params.window < u32::MAX
                && params.smoothing.is_valid(),
        }
    }
}

impl EmaParams {
    pub fn new(window: u32, smoothing: Dec) -> (r: EmaParams)
        ensures
            r == (EmaParams { window, smoothing }),
    {
        EmaParams { window, smoothing }
    }

    /// `smoothing / (window + 1)`.
    pub fn smoothing_factor(&self) -> (r: Dec)
        requires
            self.window < u32::MAX,
            dec_wf(self.smoothing),
        ensures
            r == spec_smoothing_factor(*self),
            dec_wf(r),
    {
        let divisor = Dec { mantissa: (self.window + 1) as i128, scale: 0 };
        match self.smoothing.checked_div(divisor) {
            Some(q) => q,
            None => {
                proof {
                    assert(false);
                }
                Dec::zero()
            },
        }
    }
}

/// The SMA window after a price arrives: the price is appended and the
/// window is trimmed from the front to at most `w` entries.
pub open spec fn sma_new_window(win: Seq<Dec>, price: Dec, w: nat) -> Seq<Dec> {
    let pushed = win.push(price);
    if pushed.len() > w {
        pushed.subrange(pushed.len() - w, pushed.len() as int)
    } else {
        pushed
    }
}

/// The value an EMA step emits: the price itself on the first observation,
/// `price * alpha + prev * (1 - alpha)` afterwards.
pub open spec fn spec_ema_next(prev: Option<Dec>, price: Dec, alpha: Dec) -> Dec {
    match prev {
        Option::None => price,
        Option::Some(e) => sum_of(prod_of(price, alpha), prod_of(e, diff_of(dec_one(), alpha))),
    }
}

/// One EMA step stays within what the decimals can represent without
/// rounding: both products, the complement and the final sum are exact.
pub open spec fn spec_ema_fits(prev: Dec, price: Dec, alpha: Dec) -> bool {
    &&& mul_fits(price, alpha)
    &&& sub_fits(dec_one(), alpha)
    &&& mul_fits(prev, diff_of(dec_one(), alpha))
    &&& add_fits(prod_of(price, alpha), prod_of(prev, diff_of(dec_one(), alpha)))
}

/// Every decimal in the sequence is valid.
pub open spec fn decs_wf(s: Seq<Dec>) -> bool {
    forall|i: int| 0 <= i < s.len() ==> dec_wf(#[trigger] s[i])
}

/// Every decimal in the sequence is an integer held at scale zero.
pub open spec fn all_int_scale(s: Seq<Dec>) -> bool {
    forall|i: int| 0 <= i < s.len() ==> (#[trigger] s[i]).scale == 0
}

/// The plain integer sum of the mantissas.
pub open spec fn mant_sum(s: Seq<Dec>) -> int
    decreases s.len(),
{
    if s.len() == 0 {
        0
    } else {
        mant_sum(s.drop_last()) + s.last().mantissa as int
    }
}

/// Every running mantissa sum stays within the representable range.
pub open spec fn int_sum_fits(s: Seq<Dec>) -> bool
    decreases s.len(),
{
    if s.len() == 0 {
        true
    } else {
        int_sum_fits(s.drop_last()) && -(crate::decimal::MAX_MANTISSA as int) <= mant_sum(s)
            <= crate::decimal::MAX_MANTISSA as int
    }
}

/// A prefix of a sequence whose running sums fit also has fitting running sums.
proof fn lemma_int_sum_fits_prefix(s: Seq<Dec>, k: int)
    requires
        int_sum_fits(s),
        0 <= k <= s.len(),
    ensures
        int_sum_fits(s.subrange(0, k)),
    decreases s.len() - k,
{
    if k == s.len() {
        assert(s.subrange(0, k) =~= s);
    } else {
        lemma_int_sum_fits_prefix(s, k + 1);
        assert(s.subrange(0, k + 1).drop_last() =~= s.subrange(0, k));
    }
}

/// Appends `price` to the window, trims it to the last `w` entries, and
/// returns the average over the window once it holds exactly `w` prices:
/// an average is emitted exactly when the window has reached `w`, and with
/// integer prices whose sum the window can represent and divide evenly,
/// the emitted average is exactly that integer quotient.
pub fn sma_step(win: &mut Vec<Dec>, price: Dec, w: u32) -> (r: AppResult<Option<Dec>>)
    requires
        dec_wf(price),
        decs_wf(old(win)@),
        w >= 1,
    ensures
        final(win)@ == sma_new_window(old(win)@, price, w as nat),
        final(win)@.len() <= w as nat,
        decs_wf(final(win)@),
        r is Err ==> r->Err_0 is Unrecoverable,
        final(win)@.len() < w as nat ==> r is Ok,
        sum_chain_fits(final(win)@) ==> r is Ok,
        r is Ok ==> (r->Ok_0 is Some <==> final(win)@.len() == w as nat),
        r is Ok && r->Ok_0 is Some ==> r->Ok_0->0 == quot_of(
            dec_seq_sum(final(win)@),
            Dec { mantissa: w as i128, scale: 0 },
        ) && dec_wf(r->Ok_0->0),
        all_int_scale(final(win)@) && int_sum_fits(final(win)@) ==> r is Ok,
        all_int_scale(final(win)@) && int_sum_fits(final(win)@) && r->Ok_0 is Some && mant_sum(
            final(win)@,
        ) % (w as int) == 0 ==> crate::decimal::quot_matches(
            mant_sum(final(win)@) / (w as int),
            0,
            r->Ok_0->0,
        ),
{
    win.push(price);
    let ghost pushed = win@;
    while win.len() > w as usize
        invariant
            decs_wf(pushed),
            win@.len() <= pushed.len(),
            win@.len() >= w as nat || win@.len() == pushed.len(),
            forall|j: int| 0 <= j < win@.len() ==> win@[j] == pushed[pushed.len() - win@.len()
                + j],
        decreases win@.len(),
    {
        win.remove(0);
    }
    proof {
        if pushed.len() > w as nat {
            assert(win@ =~= pushed.subrange(pushed.len() - w as nat, pushed.len() as int));
        } else {
            assert(win@ =~= pushed);
        }
        assert(win@ == sma_new_window(old(win)@, price, w as nat));
        assert(decs_wf(win@));
    }
    if win.len() == w as usize {
        let mut acc = Dec::zero();
        let mut i: usize = 0;
        while i < win.len()
            invariant
                i <= win@.len(),
                win@ == sma_new_window(old(win)@, price, w as nat),
                win@.len() == w as nat,
                w >= 1,
                decs_wf(win@),
                dec_wf(acc),
                acc == dec_seq_sum(win@.subrange(0, i as int)),
                all_int_scale(win@) && int_sum_fits(win@) ==> acc.scale == 0
                    && acc.mantissa as int == mant_sum(win@.subrange(0, i as int)),
            decreases win@.len() - i,
        {
            proof {
                assert(win@.subrange(0, i + 1).drop_last() =~= win@.subrange(0, i as int));
                assert(win@.subrange(0, i + 1).last() == win@[i as int]);
                if all_int_scale(win@) && int_sum_fits(win@) {
                    lemma_int_sum_fits_prefix(win@, i + 1);
                    assert(crate::decimal::pow10(0) == 1);
                    assert(win@[i as int].scale == 0);
                    assert(mant_sum(win@.subrange(0, i + 1)) == mant_sum(win@.subrange(0, i as int))
                        + win@[i as int].mantissa as int);
                    assert(crate::decimal::rescaled_sum(acc, win@[i as int]) == acc.mantissa as int
                        + win@[i as int].mantissa as int);
                    assert(crate::decimal::add_fits(acc, win@[i as int]));
                }
            }
            let next_acc = match acc.checked_add(win[i]) {
                Some(v) => v,
                None => {
                    proof {
                        if sum_chain_fits(win@) {
                            crate::decimal::lemma_sum_chain_fits_prefix(win@, i + 1);
                        }
                    }
                    return Err(AppError::Unrecoverable("price sum overflowed".to_string()));
                },
            };
            proof {
                if all_int_scale(win@) && int_sum_fits(win@) {
                    assert(crate::decimal::pow10(0) == 1);
                    assert(crate::decimal::is_num_sum(next_acc, acc, win@[i as int]));
                    assert(next_acc.scale == 0);
                    assert(next_acc.mantissa as int * crate::decimal::pow10(0) == (
                    acc.mantissa as int * crate::decimal::pow10(0) + win@[i as int].mantissa as int
                        * crate::decimal::pow10(0)) * crate::decimal::pow10(0));
                    assert(next_acc.mantissa as int == mant_sum(win@.subrange(0, i + 1)));
                }
            }
            acc = next_acc;
            i += 1;
        }
        proof {
            assert(win@.subrange(0, win@.len() as int) =~= win@);
        }
        let divisor = Dec { mantissa: w as i128, scale: 0 };
        match acc.checked_div(divisor) {
            Some(q) => {
                proof {
                    if all_int_scale(win@) && int_sum_fits(win@) && mant_sum(win@) % (w as int)
                        == 0 {
                        let total = mant_sum(win@);
                        let quotient = total / (w as int);
                        vstd::arithmetic::div_mod::lemma_fundamental_div_mod(total, w as int);
                        assert(quotient * (w as int) == total);
                        assert(-(crate::decimal::MAX_MANTISSA as int) <= quotient
                            && quotient <= crate::decimal::MAX_MANTISSA as int) by (nonlinear_arith)
                            requires
                                quotient * (w as int) == total,
                                w as int >= 1,
                                -(crate::decimal::MAX_MANTISSA as int) <= total
                                    <= crate::decimal::MAX_MANTISSA as int,
                        ;
                        assert(crate::decimal::pow10(0) == 1);
                        assert(crate::decimal::exact_quot_cond(quotient, 0, acc, divisor));
                    }
                }
                Ok(Some(q))
            },
            None => {
                proof {
                    assert(false);
                }
                Err(AppError::Unrecoverable("window average overflowed".to_string()))
            },
        }
    } else {
        Ok(None)
    }
}

/// Seeds or advances one symbol's EMA and returns the emitted value: the
/// first observation emits the input price itself and cannot fail, every
/// later one emits exactly `price * alpha + prev * (1 - alpha)` in decimal
/// arithmetic and succeeds whenever that step is representable.
pub fn ema_step(ema: &mut Option<Dec>, price: Dec, alpha: Dec) -> (r: AppResult<Dec>)
    requires
        dec_wf(price),
        dec_wf(alpha),
        (*old(ema)) is Some ==> dec_wf((*old(ema))->0),
    ensures
        (*old(ema)) is None ==> r is Ok,
        (*old(ema)) is Some && spec_ema_fits((*old(ema))->0, price, alpha) ==> r is Ok,
        r is Err ==> r->Err_0 is Unrecoverable,
        r is Ok ==> r->Ok_0 == spec_ema_next(*old(ema), price, alpha) && *final(ema) == Some(
            r->Ok_0,
        ) && dec_wf(r->Ok_0),
        r is Err ==> *final(ema) == *old(ema),
{
    let next = match *ema {
        None => price,
        Some(prev) => {
            let one = Dec { mantissa: 1, scale: 0 };
            let weighted_price = match price.checked_mul(alpha) {
                Some(v) => v,
                None => {
                    return Err(AppError::Unrecoverable("ema term overflowed".to_string()));
                },
            };
            let remainder = match one.checked_sub(alpha) {
                Some(v) => v,
                None => {
                    return Err(AppError::Unrecoverable("ema term overflowed".to_string()));
                },
            };
            let weighted_prev = match prev.checked_mul(remainder) {
                Some(v) => v,
                None => {
                    return Err(AppError::Unrecoverable("ema term overflowed".to_string()));
                },
            };
            match weighted_price.checked_add(weighted_prev) {
                Some(v) => v,
                None => {
                    return Err(AppError::Unrecoverable("ema sum overflowed".to_string()));
                },
            }
        },
    };
    *ema = Some(next);
    Ok(next)
}

/// The full smoothing state: the configured function, one SMA window per
/// symbol and one EMA seed per symbol.
#[derive(Debug, Clone)]
pub struct SmoothingProcessor {
    pub config: SmoothingConfig,
    pub btc_window: Vec<Dec>,
    pub eth_window: Vec<Dec>,
    pub btc_ema: Option<Dec>,
    pub eth_ema: Option<Dec>,
}

/// The SMA window held for a symbol.
pub open spec fn window_of(p: SmoothingProcessor, sym: TickerSymbol) -> Seq<Dec> {
    match sym {
        TickerSymbol::BTCUSD => p.btc_window@,
        TickerSymbol::ETHUSD => p.eth_window@,
    }
}

/// The EMA seed held for a symbol.
pub open spec fn ema_of(p: SmoothingProcessor, sym: TickerSymbol) -> Option<Dec> {
    match sym {
        TickerSymbol::BTCUSD => p.btc_ema,
        TickerSymbol::ETHUSD => p.eth_ema,
    }
}

/// Every value the processor holds is a valid decimal and its
/// configuration can be run.
pub open spec fn smoothing_wf(p: SmoothingProcessor) -> bool {
    &&& smoothing_config_wf(p.config)
    &&& decs_wf(p.btc_window@)
    &&& decs_wf(p.eth_window@)
    &&& (p.btc_ema is Some ==> dec_wf(p.btc_ema->0))
    &&& (p.eth_ema is Some ==> dec_wf(p.eth_ema->0))
}

/// One SMA step on the processor state: the windows after the ticker and
/// the value it emits, if any.
pub open spec fn spec_sma_step(
    btc: Seq<Dec>,
    eth: Seq<Dec>,
    t: Ticker,
    w: nat,
) -> (Seq<Dec>, Seq<Dec>, Option<Dec>) {
    let win = if t.symbol is BTCUSD {
        btc
    } else {
        eth
    };
    let new_win = sma_new_window(win, t.price, w);
    let emitted = if new_win.len() == w {
        Some(quot_of(dec_seq_sum(new_win), Dec { mantissa: w as i128, scale: 0 }))
    } else {
        Option::<Dec>::None
    };
    if t.symbol is BTCUSD {
        (new_win, eth, emitted)
    } else {
        (btc, new_win, emitted)
    }
}

/// The SMA outputs for a batch, threading the two windows through the
/// tickers in order: final windows and the emitted tickers, in input order.
pub open spec fn spec_sma_batch(
    btc: Seq<Dec>,
    eth: Seq<Dec>,
    tickers: Seq<Ticker>,
    w: nat,
    now_ms: i64,
) -> (Seq<Dec>, Seq<Dec>, Seq<Ticker>)
    decreases tickers.len(),
{
    if tickers.len() == 0 {
        (btc, eth, Seq::<Ticker>::empty())
    } else {
        let (b1, e1, out1) = spec_sma_batch(btc, eth, tickers.drop_last(), w, now_ms);
        let t = tickers.last();
        let (b2, e2, emitted) = spec_sma_step(b1, e1, t, w);
        let out2 = match emitted {
            Option::Some(price) => out1.push(
                Ticker { symbol: t.symbol, price, source: t.source, timestamp_ms: now_ms },
            ),
            Option::None => out1,
        };
        (b2, e2, out2)
    }
}

/// One EMA step on the processor state: the seeds after the ticker and the
/// value it emits. An EMA step always emits.
pub open spec fn spec_ema_step(
    btc: Option<Dec>,
    eth: Option<Dec>,
    t: Ticker,
    alpha: Dec,
) -> (Option<Dec>, Option<Dec>, Dec) {
    let prev = if t.symbol is BTCUSD {
        btc
    } else {
        eth
    };
    let next = spec_ema_next(prev, t.price, alpha);
    if t.symbol is BTCUSD {
        (Some(next), eth, next)
    } else {
        (btc, Some(next), next)
    }
}

/// The EMA outputs for a batch, threading the two seeds through the
/// tickers in order: final seeds and the emitted tickers, in input order.
pub open spec fn spec_ema_batch(
    btc: Option<Dec>,
    eth: Option<Dec>,
    tickers: Seq<Ticker>,
    alpha: Dec,
    now_ms: i64,
) -> (Option<Dec>, Option<Dec>, Seq<Ticker>)
    decreases tickers.len(),
{
    if tickers.len() == 0 {
        (btc, eth, Seq::<Ticker>::empty())
    } else {
        let (b1, e1, out1) = spec_ema_batch(btc, eth, tickers.drop_last(), alpha, now_ms);
        let t = tickers.last();
        let (b2, e2, emitted) = spec_ema_step(b1, e1, t, alpha);
        (
            b2,
            e2,
            out1.push(Ticker { symbol: t.symbol, price: emitted, source: t.source, timestamp_ms: now_ms }),
        )
    }
}

/// Every ticker in the batch carries a valid price.
pub open spec fn tickers_wf(s: Seq<Ticker>) -> bool {
    forall|i: int| 0 <= i < s.len() ==> dec_wf((#[trigger] s[i]).price)
}

/// Every SMA step of the batch is representable: whenever a window fills,
/// its running sum never leaves the exactly representable range.
pub open spec fn spec_sma_batch_ok(
    btc: Seq<Dec>,
    eth: Seq<Dec>,
    tickers: Seq<Ticker>,
    w: nat,
    now_ms: i64,
) -> bool
    decreases tickers.len(),
{
    if tickers.len() == 0 {
        true
    } else {
        let head = tickers.drop_last();
        let (b1, e1, _) = spec_sma_batch(btc, eth, head, w, now_ms);
        let t = tickers.last();
        let win = if t.symbol is BTCUSD {
            b1
        } else {
            e1
        };
        let new_win = sma_new_window(win, t.price, w);
        spec_sma_batch_ok(btc, eth, head, w, now_ms) && (new_win.len() == w ==> sum_chain_fits(
            new_win,
        ))
    }
}

/// Every prefix of a representable SMA batch is representable.
proof fn lemma_sma_batch_ok_prefix(
    btc: Seq<Dec>,
    eth: Seq<Dec>,
    tickers: Seq<Ticker>,
    w: nat,
    now_ms: i64,
    k: int,
)
    requires
        spec_sma_batch_ok(btc, eth, tickers, w, now_ms),
        0 <= k <= tickers.len(),
    ensures
        spec_sma_batch_ok(btc, eth, tickers.subrange(0, k), w, now_ms),
    decreases tickers.len() - k,
{
    if k == tickers.len() {
        assert(tickers.subrange(0, k) =~= tickers);
    } else {
        lemma_sma_batch_ok_prefix(btc, eth, tickers, w, now_ms, k + 1);
        assert(tickers.subrange(0, k + 1).drop_last() =~= tickers.subrange(0, k));
    }
}

/// Every EMA step of the batch is representable: each advance of an
/// already seeded symbol stays within the exactly representable range.
pub open spec fn spec_ema_batch_ok(
    btc: Option<Dec>,
    eth: Option<Dec>,
    tickers: Seq<Ticker>,
    alpha: Dec,
    now_ms: i64,
) -> bool
    decreases tickers.len(),
{
    if tickers.len() == 0 {
        true
    } else {
        let head = tickers.drop_last();
        let (b1, e1, _) = spec_ema_batch(btc, eth, head, alpha, now_ms);
        let t = tickers.last();
        let prev = if t.symbol is BTCUSD {
            b1
        } else {
            e1
        };
        spec_ema_batch_ok(btc, eth, head, alpha, now_ms) && (prev is Some ==> spec_ema_fits(
            prev->0,
            t.price,
            alpha,
        ))
    }
}

/// Every prefix of a representable EMA batch is representable.
proof fn lemma_ema_batch_ok_prefix(
    btc: Option<Dec>,
    eth: Option<Dec>,
    tickers: Seq<Ticker>,
    alpha: Dec,
    now_ms: i64,
    k: int,
)
    requires
        spec_ema_batch_ok(btc, eth, tickers, alpha, now_ms),
        0 <= k <= tickers.len(),
    ensures
        spec_ema_batch_ok(btc, eth, tickers.subrange(0, k), alpha, now_ms),
    decreases tickers.len() - k,
{
    if k == tickers.len() {
        assert(tickers.subrange(0, k) =~= tickers);
    } else {
        lemma_ema_batch_ok_prefix(btc, eth, tickers, alpha, now_ms, k + 1);
        assert(tickers.subrange(0, k + 1).drop_last() =~= tickers.subrange(0, k));
    }
}

impl SmoothingProcessor {
    pub fn new(config: SmoothingConfig) -> (r: SmoothingProcessor)
        requires
            smoothing_config_wf(config),
        ensures
            r.config == config,
            r.btc_window@ == Seq::<Dec>::empty(),
            r.eth_window@ == Seq::<Dec>::empty(),
            r.btc_ema is None,
            r.eth_ema is None,
            smoothing_wf(r),
    {
        SmoothingProcessor {
            config,
            btc_window: Vec::new(),
            eth_window: Vec::new(),
            btc_ema: None,
            eth_ema: None,
        }
    }

    /// Applies the configured smoothing to one input batch at receipt
    /// instant `now_ms`. Pass-through repeats the batch and cannot fail;
    /// SMA emits a ticker per input once its symbol's window is full; EMA
    /// emits a ticker per input. The source of each input is propagated
    /// unchanged, outputs carry the receipt instant, and an empty output
    /// produces no batch at all. SMA and EMA succeed whenever every step
    /// of the batch is representable; whatever the outcome, SMA keeps the
    /// windows within their bound and the seeds untouched, and EMA keeps
    /// the windows untouched and holds a seed for exactly the symbols
    /// observed so far.
    pub fn process_tickers(&mut self, tickers: &Vec<Ticker>, now_ms: i64) -> (r: AppResult<
        Option<AppInternalMessage>,
    >)
        requires
            smoothing_wf(*old(self)),
            tickers_wf(tickers@),
        ensures
            smoothing_wf(*final(self)),
            final(self).config == old(self).config,
            r is Err ==> r->Err_0 is Unrecoverable,
            old(self).config is PassThru ==> r is Ok && *final(self) == *old(self),
            old(self).config matches SmoothingConfig::SimpleMovingAverage { params } ==> {
                &&& final(self).btc_ema == old(self).btc_ema
                &&& final(self).eth_ema == old(self).eth_ema
                &&& (old(self).btc_window@.len() <= params.window as nat
                    ==> final(self).btc_window@.len() <= params.window as nat)
                &&& (old(self).eth_window@.len() <= params.window as nat
                    ==> final(self).eth_window@.len() <= params.window as nat)
            },
            old(self).config matches SmoothingConfig::SimpleMovingAverage { params }
                && spec_sma_batch_ok(
                old(self).btc_window@,
                old(self).eth_window@,
                tickers@,
                params.window as nat,
                now_ms,
            ) ==> r is Ok,
            old(self).config matches SmoothingConfig::ExponentialMovingAverage { .. } ==> {
                &&& final(self).btc_window == old(self).btc_window
                &&& final(self).eth_window == old(self).eth_window
                &&& (old(self).btc_ema is Some ==> final(self).btc_ema is Some)
                &&& (old(self).eth_ema is Some ==> final(self).eth_ema is Some)
                &&& (final(self).btc_ema is Some ==> old(self).btc_ema is Some
                    || batch_has_symbol(tickers@, TickerSymbol::BTCUSD))
                &&& (final(self).eth_ema is Some ==> old(self).eth_ema is Some
                    || batch_has_symbol(tickers@, TickerSymbol::ETHUSD))
            },
            old(self).config matches SmoothingConfig::ExponentialMovingAverage { params }
                && spec_ema_batch_ok(
                old(self).btc_ema,
                old(self).eth_ema,
                tickers@,
                spec_smoothing_factor(params),
                now_ms,
            ) ==> r is Ok,
            r is Ok ==> spec_process_result(*old(self), *final(self), tickers@, now_ms, r->Ok_0),
    {
        match self.config {
            SmoothingConfig::PassThru => {
                let mut out: Vec<Ticker> = Vec::new();
                let mut i: usize = 0;
                while i < tickers.len()
                    invariant
                        i <= tickers@.len(),
                        out@ == tickers@.subrange(0, i as int),
                    decreases tickers@.len() - i,
                {
                    out.push(tickers[i]);
                    proof {
                        assert(out@ =~= tickers@.subrange(0, i + 1));
                    }
                    i += 1;
                }
                proof {
                    assert(tickers@.subrange(0, tickers@.len() as int) =~= tickers@);
                }
                if out.len() == 0 {
                    Ok(None)
                } else {
                    Ok(Some(AppInternalMessage::Tickers(out)))
                }
            },
            SmoothingConfig::SimpleMovingAverage { params } => {
                let w = params.window;
                let mut out: Vec<Ticker> = Vec::new();
                let mut i: usize = 0;
                while i < tickers.len()
                    invariant
                        i <= tickers@.len(),
                        tickers_wf(tickers@),
                        w >= 1,
                        self.config == old(self).config,
                        self.config == (SmoothingConfig::SimpleMovingAverage { params }),
                        w == params.window,
                        self.btc_ema == old(self).btc_ema,
                        self.eth_ema == old(self).eth_ema,
                        old(self).btc_window@.len() <= w as nat ==> self.btc_window@.len() <= w
                            as nat,
                        old(self).eth_window@.len() <= w as nat ==> self.eth_window@.len() <= w
                            as nat,
                        smoothing_wf(*self),
                        (self.btc_window@, self.eth_window@, out@) == spec_sma_batch(
                            old(self).btc_window@,
                            old(self).eth_window@,
                            tickers@.subrange(0, i as int),
                            w as nat,
                            now_ms,
                        ),
                    decreases tickers@.len() - i,
                {
                    let t = tickers[i];
                    proof {
                        assert(tickers@.subrange(0, i + 1).drop_last() =~= tickers@.subrange(
                            0,
                            i as int,
                        ));
                        assert(tickers@.subrange(0, i + 1).last() == t);
                    }
                    let ghost pre_b = self.btc_window@;
                    let ghost pre_e = self.eth_window@;
                    let emitted = match t.symbol {
                        TickerSymbol::BTCUSD => sma_step(&mut self.btc_window, t.price, w),
                        TickerSymbol::ETHUSD => sma_step(&mut self.eth_window, t.price, w),
                    };
                    match emitted {
                        Ok(Some(price)) => {
                            out.push(
                                Ticker {
                                    symbol: t.symbol,
                                    price,
                                    source: t.source,
                                    timestamp_ms: now_ms,
                                },
                            );
                        },
                        Ok(None) => {},
                        Err(e) => {
                            proof {
                                let sub = tickers@.subrange(0, i + 1);
                                assert(!spec_sma_batch_ok(
                                    old(self).btc_window@,
                                    old(self).eth_window@,
                                    sub,
                                    w as nat,
                                    now_ms,
                                ));
                                if spec_sma_batch_ok(
                                    old(self).btc_window@,
                                    old(self).eth_window@,
                                    tickers@,
                                    w as nat,
                                    now_ms,
                                ) {
                                    lemma_sma_batch_ok_prefix(
                                        old(self).btc_window@,
                                        old(self).eth_window@,
                                        tickers@,
                                        w as nat,
                                        now_ms,
                                        i + 1,
                                    );
                                }
                            }
                            return Err(e);
                        },
                    }
                    i += 1;
                }
                proof {
                    assert(tickers@.subrange(0, tickers@.len() as int) =~= tickers@);
                }
                if out.len() == 0 {
                    Ok(None)
                } else {
                    Ok(Some(AppInternalMessage::Tickers(out)))
                }
            },
            SmoothingConfig::ExponentialMovingAverage { params } => {
                let alpha = params.smoothing_factor();
                let mut out: Vec<Ticker> = Vec::new();
                let mut i: usize = 0;
                while i < tickers.len()
                    invariant
                        i <= tickers@.len(),
                        tickers_wf(tickers@),
                        dec_wf(alpha),
                        self.config == old(self).config,
                        self.config == (SmoothingConfig::ExponentialMovingAverage { params }),
                        alpha == spec_smoothing_factor(params),
                        self.btc_window == old(self).btc_window,
                        self.eth_window == old(self).eth_window,
                        old(self).btc_ema is Some ==> self.btc_ema is Some,
                        old(self).eth_ema is Some ==> self.eth_ema is Some,
                        self.btc_ema is Some ==> old(self).btc_ema is Some || batch_has_symbol(
                            tickers@,
                            TickerSymbol::BTCUSD,
                        ),
                        self.eth_ema is Some ==> old(self).eth_ema is Some || batch_has_symbol(
                            tickers@,
                            TickerSymbol::ETHUSD,
                        ),
                        smoothing_wf(*self),
                        (self.btc_ema, self.eth_ema, out@) == spec_ema_batch(
                            old(self).btc_ema,
                            old(self).eth_ema,
                            tickers@.subrange(0, i as int),
                            alpha,
                            now_ms,
                        ),
                    decreases tickers@.len() - i,
                {
                    let t = tickers[i];
                    proof {
                        assert(tickers@.subrange(0, i + 1).drop_last() =~= tickers@.subrange(
                            0,
                            i as int,
                        ));
                        assert(tickers@.subrange(0, i + 1).last() == t);
                        assert(batch_has_symbol(tickers@, t.symbol)) by {
                            assert(tickers@[i as int].symbol == t.symbol);
                        }
                    }
                    let ghost pre_b = self.btc_ema;
                    let ghost pre_e = self.eth_ema;
                    let emitted = match t.symbol {
                        TickerSymbol::BTCUSD => ema_step(&mut self.btc_ema, t.price, alpha),
                        TickerSymbol::ETHUSD => ema_step(&mut self.eth_ema, t.price, alpha),
                    };
                    match emitted {
                        Ok(price) => {
                            out.push(
                                Ticker {
                                    symbol: t.symbol,
                                    price,
                                    source: t.source,
                                    timestamp_ms: now_ms,
                                },
                            );
                        },
                        Err(e) => {
                            proof {
                                let sub = tickers@.subrange(0, i + 1);
                                assert(!spec_ema_batch_ok(
                                    old(self).btc_ema,
                                    old(self).eth_ema,
                                    sub,
                                    alpha,
                                    now_ms,
                                ));
                                if spec_ema_batch_ok(
                                    old(self).btc_ema,
                                    old(self).eth_ema,
                                    tickers@,
                                    alpha,
                                    now_ms,
                                ) {
                                    lemma_ema_batch_ok_prefix(
                                        old(self).btc_ema,
                                        old(self).eth_ema,
                                        tickers@,
                                        alpha,
                                        now_ms,
                                        i + 1,
                                    );
                                }
                            }
                            return Err(e);
                        },
                    }
                    i += 1;
                }
                proof {
                    assert(tickers@.subrange(0, tickers@.len() as int) =~= tickers@);
                }
                if out.len() == 0 {
                    Ok(None)
                } else {
                    Ok(Some(AppInternalMessage::Tickers(out)))
                }
            },
        }
    }
}

/// What a successful `process_tickers` call did, by configured mode: the
/// state moved and the emitted batch holds exactly the computed outputs,
/// in input order; an empty output emits nothing.
pub open spec fn spec_process_result(
    pre: SmoothingProcessor,
    post: SmoothingProcessor,
    tickers: Seq<Ticker>,
    now_ms: i64,
    out: Option<AppInternalMessage>,
) -> bool {
    match pre.config {
        SmoothingConfig::PassThru => {
            &&& post == pre
            &&& batch_matches(out, tickers)
        },
        SmoothingConfig::SimpleMovingAverage { params } => {
            let (b2, e2, outs) = spec_sma_batch(
                pre.btc_window@,
                pre.eth_window@,
                tickers,
                params.window as nat,
                now_ms,
            );
            &&& post.btc_window@ == b2
            &&& post.eth_window@ == e2
            &&& post.btc_ema == pre.btc_ema
            &&& post.eth_ema == pre.eth_ema
            &&& batch_matches(out, outs)
        },
        SmoothingConfig::ExponentialMovingAverage { params } => {
            let (b2, e2, outs) = spec_ema_batch(
                pre.btc_ema,
                pre.eth_ema,
                tickers,
                spec_smoothing_factor(params),
                now_ms,
            );
            &&& post.btc_ema == b2
            &&& post.eth_ema == e2
            &&& post.btc_window == pre.btc_window
            &&& post.eth_window == pre.eth_window
            &&& batch_matches(out, outs)
        },
    }
}

/// An emitted batch holds exactly `outs`: nothing when `outs` is empty,
/// one `Tickers` message with `outs` in order otherwise.
pub open spec fn batch_matches(out: Option<AppInternalMessage>, outs: Seq<Ticker>) -> bool {
    if outs.len() == 0 {
        out is None
    } else {
        out is Some && out->0->0@ == outs
    }
}

/// How a smoothing processor consumes a live configuration change.
pub trait SmoothingConfigChangeHandler {
    /// The state the handler keeps across configuration changes.
    spec fn handler_wf(&self) -> bool;

    /// The configurations the handler can install.
    spec fn config_ok(config: SmoothingConfig) -> bool;

    fn handle_config_change(&mut self, exchange: &Exchange, config: SmoothingConfig) -> (r:
        AppResult<()>)
        requires
            old(self).handler_wf(),
            Self::config_ok(config),
        ensures
            final(self).handler_wf(),
    ;
}

impl SmoothingConfigChangeHandler for SmoothingProcessor {
    open spec fn handler_wf(&self) -> bool {
        smoothing_wf(*self)
    }

    open spec fn config_ok(config: SmoothingConfig) -> bool {
        smoothing_config_wf(config)
    }

    /// Installs a new smoothing configuration. An unchanged configuration
    /// is a no-op; a window or smoothing change within the same family
    /// keeps the compatible state; a change of family resets all state.
    fn handle_config_change(&mut self, _exchange: &Exchange, config: SmoothingConfig) -> (r:
        AppResult<()>)
        ensures
            r is Ok,
            config == old(self).config ==> *final(self) == *old(self),
            config != old(self).config ==> final(self).config == config,
            config != old(self).config && (config matches SmoothingConfig::SimpleMovingAverage {
                ..
            }) && (old(self).config matches SmoothingConfig::SimpleMovingAverage { .. }) ==> {
                &&& final(self).btc_window == old(self).btc_window
                &&& final(self).eth_window == old(self).eth_window
                &&& final(self).btc_ema is None
                &&& final(self).eth_ema is None
            },
            config != old(self).config && (config
                matches SmoothingConfig::ExponentialMovingAverage { .. }) && (old(self).config
                matches SmoothingConfig::ExponentialMovingAverage { .. }) ==> {
                &&& final(self).btc_ema == old(self).btc_ema
                &&& final(self).eth_ema == old(self).eth_ema
                &&& final(self).btc_window@ == Seq::<Dec>::empty()
                &&& final(self).eth_window@ == Seq::<Dec>::empty()
            },
            config != old(self).config && !((config
                matches SmoothingConfig::SimpleMovingAverage { .. }) && (old(self).config
                matches SmoothingConfig::SimpleMovingAverage { .. })) && !((config
                matches SmoothingConfig::ExponentialMovingAverage { .. }) && (old(self).config
                matches SmoothingConfig::ExponentialMovingAverage { .. })) ==> {
                &&& final(self).btc_window@ == Seq::<Dec>::empty()
                &&& final(self).eth_window@ == Seq::<Dec>::empty()
                &&& final(self).btc_ema is None
                &&& final(self).eth_ema is None
            },
    {
        if config == self.config {
            return Ok(());
        }
        let is_sma_to_sma = match (&config, &self.config) {
            (
                SmoothingConfig::SimpleMovingAverage { params: _ },
                SmoothingConfig::SimpleMovingAverage { params: _ },
            ) => true,
            _ => false,
        };
        let is_ema_to_ema = match (&config, &self.config) {
            (
                SmoothingConfig::ExponentialMovingAverage { params: _ },
                SmoothingConfig::ExponentialMovingAverage { params: _ },
            ) => true,
            _ => false,
        };
        self.config = config;
        if is_sma_to_sma {
            self.btc_ema = None;
            self.eth_ema = None;
        } else if is_ema_to_ema {
            self.btc_window = Vec::new();
            self.eth_window = Vec::new();
        } else {
            self.btc_window = Vec::new();
            self.eth_window = Vec::new();
            self.btc_ema = None;
            self.eth_ema = None;
        }
        Ok(())
    }
}



} // verus!
