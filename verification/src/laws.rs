//! Ordering laws of the smoothing processor: what it emits is the input
//! stream's order, never a reordering, within one batch and across batches.

use vstd::prelude::*;

use crate::decimal::Dec;
use crate::models::Ticker;
use crate::smoothing::{spec_ema_batch, spec_sma_batch};

verus! {

/// `idx` names, in strictly increasing input order, the input each output
/// came from: output `k` carries the symbol and source of input `idx[k]`.
pub open spec fn order_witness(outs: Seq<Ticker>, ins: Seq<Ticker>, idx: Seq<int>) -> bool {
    &&& idx.len() == outs.len()
    &&& forall|k: int| 0 <= k < idx.len() ==> 0 <= #[trigger] idx[k] < ins.len()
    &&& forall|k1: int, k2: int| 0 <= k1 < k2 < idx.len() ==> #[trigger] idx[k1] < #[trigger] idx[k2]
    &&& forall|k: int| 0 <= k < idx.len() ==> (#[trigger] outs[k]).symbol == ins[idx[k]].symbol
        && outs[k].source == ins[idx[k]].source
}

/// A simple-moving-average batch preserves input order: its outputs are
/// the emitting inputs' symbols and sources, in input order.
pub proof fn lemma_sma_batch_preserves_order(
    btc: Seq<Dec>,
    eth: Seq<Dec>,
    ins: Seq<Ticker>,
    w: nat,
    now_ms: i64,
)
    ensures
        exists|idx: Seq<int>| #[trigger] order_witness(
            spec_sma_batch(btc, eth, ins, w, now_ms).2,
            ins,
            idx,
        ),
    decreases ins.len(),
{
    if ins.len() == 0 {
        assert(order_witness(
            spec_sma_batch(btc, eth, ins, w, now_ms).2,
            ins,
            Seq::<int>::empty(),
        ));
    } else {
        let head = ins.drop_last();
        lemma_sma_batch_preserves_order(btc, eth, head, w, now_ms);
        let (b1, e1, out1) = spec_sma_batch(btc, eth, head, w, now_ms);
        let idx0 = choose|idx: Seq<int>| #[trigger] order_witness(out1, head, idx);
        let outs = spec_sma_batch(btc, eth, ins, w, now_ms).2;
        if outs.len() == out1.len() {
            assert(outs == out1);
            assert(order_witness(outs, ins, idx0));
        } else {
            let idx1 = idx0.push(ins.len() - 1);
            assert forall|k: int| 0 <= k < idx1.len() implies (#[trigger] outs[k]).symbol
                == ins[idx1[k]].symbol && outs[k].source == ins[idx1[k]].source by {
                if k < idx0.len() {
                    assert(outs[k] == out1[k]);
                    assert(ins[idx0[k]] == head[idx0[k]]);
                }
            }
            assert(order_witness(outs, ins, idx1));
        }
    }
}

/// An exponential-moving-average batch preserves input order exactly: it
/// emits one output per input, carrying that input's symbol and source,
/// in input order.
pub proof fn lemma_ema_batch_preserves_order(
    btc: Option<Dec>,
    eth: Option<Dec>,
    ins: Seq<Ticker>,
    alpha: Dec,
    now_ms: i64,
)
    ensures
        spec_ema_batch(btc, eth, ins, alpha, now_ms).2.len() == ins.len(),
        forall|k: int| 0 <= k < ins.len() ==> (#[trigger] spec_ema_batch(
            btc,
            eth,
            ins,
            alpha,
            now_ms,
        ).2[k]).symbol == ins[k].symbol && spec_ema_batch(
            btc,
            eth,
            ins,
            alpha,
            now_ms,
        ).2[k].source == ins[k].source,
    decreases ins.len(),
{
    if ins.len() > 0 {
        let head = ins.drop_last();
        lemma_ema_batch_preserves_order(btc, eth, head, alpha, now_ms);
        let out1 = spec_ema_batch(btc, eth, head, alpha, now_ms).2;
        let outs = spec_ema_batch(btc, eth, ins, alpha, now_ms).2;
        assert forall|k: int| 0 <= k < ins.len() implies (#[trigger] outs[k]).symbol
            == ins[k].symbol && outs[k].source == ins[k].source by {
            if k < ins.len() - 1 {
                assert(outs[k] == out1[k]);
                assert(ins[k] == head[k]);
            }
        }
    }
}

/// Order is preserved across batches: two order-preserving batches,
/// emitted one after the other, preserve the order of their concatenated
/// inputs.
pub proof fn lemma_order_witness_concat(
    out1: Seq<Ticker>,
    ins1: Seq<Ticker>,
    idx1: Seq<int>,
    out2: Seq<Ticker>,
    ins2: Seq<Ticker>,
    idx2: Seq<int>,
)
    requires
        order_witness(out1, ins1, idx1),
        order_witness(out2, ins2, idx2),
    ensures
        order_witness(
            out1 + out2,
            ins1 + ins2,
            idx1 + Seq::new(idx2.len(), |k: int| idx2[k] + ins1.len()),
        ),
{
    let shifted = Seq::new(idx2.len(), |k: int| idx2[k] + ins1.len());
    let idx = idx1 + shifted;
    let outs = out1 + out2;
    let ins = ins1 + ins2;
    assert forall|k: int| 0 <= k < idx.len() implies 0 <= #[trigger] idx[k] < ins.len() by {
        if k < idx1.len() {
            assert(idx[k] == idx1[k]);
        } else {
            assert(idx[k] == idx2[k - idx1.len()] + ins1.len());
        }
    }
    assert forall|k1: int, k2: int| 0 <= k1 < k2 < idx.len() implies #[trigger] idx[k1]
        < #[trigger] idx[k2] by {
        if k1 < idx1.len() && k2 >= idx1.len() {
            assert(idx[k1] == idx1[k1] && idx1[k1] < ins1.len());
            assert(idx[k2] == idx2[k2 - idx1.len()] + ins1.len());
        } else if k2 < idx1.len() {
            assert(idx[k1] == idx1[k1] && idx[k2] == idx1[k2]);
        } else {
            assert(idx[k1] == idx2[k1 - idx1.len()] + ins1.len());
            assert(idx[k2] == idx2[k2 - idx1.len()] + ins1.len());
        }
    }
    assert forall|k: int| 0 <= k < idx.len() implies (#[trigger] outs[k]).symbol
        == ins[idx[k]].symbol && outs[k].source == ins[idx[k]].source by {
        if k < idx1.len() {
            assert(outs[k] == out1[k] && idx[k] == idx1[k]);
            assert(ins[idx1[k]] == ins1[idx1[k]]);
        } else {
            assert(outs[k] == out2[k - idx1.len()]);
            assert(idx[k] == idx2[k - idx1.len()] + ins1.len());
            assert(ins[idx[k]] == ins2[idx2[k - idx1.len()]]);
        }
    }
}

} // verus!
