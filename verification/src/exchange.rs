//! Exchange identities and per-exchange subscription configuration.
//!
//! Instruments and channels are sets of exchange-native strings; the library
//! keeps each as a duplicate-free vector and compares them as sets.

use vstd::prelude::*;
use vstd::string::StringExecFns;

use crate::models::{str_eq, Source};

verus! {

/// One of the exchanges a session can attach to.
#[derive(Debug, Clone, Copy, PartialEq, Eq, Hash, Structural)]
pub enum Exchange {
    Kraken,
    Coinbase,
    Binance,
}

impl Exchange {
    /// The exchange behind a ticker source, None for the indexer's own sources.
    pub fn from_source(source: &Source) -> (r: Option<Exchange>)
        ensures
            r == spec_exchange_from_source(*source),
    {
        match source {
            Source::Binance => Some(Exchange::Binance),
            Source::Kraken => Some(Exchange::Kraken),
            Source::Coinbase => Some(Exchange::Coinbase),
            _ => None,
        }
    }
}

/// What `Exchange::from_source` returns.
pub open spec fn spec_exchange_from_source(source: Source) -> Option<Exchange> {
    match source {
        Source::Binance => Some(Exchange::Binance),
        Source::Kraken => Some(Exchange::Kraken),
        Source::Coinbase => Some(Exchange::Coinbase),
        _ => None,
    }
}

/// The string `x` occurs in `v`.
pub open spec fn contains_str(v: Seq<String>, x: Seq<char>) -> bool {
    exists|i: int| 0 <= i < v.len() && (#[trigger] v[i])@ == x
}

/// `a` and `b` hold the same strings, read as sets.
pub open spec fn same_str_set(a: Seq<String>, b: Seq<String>) -> bool {
    &&& forall|i: int| 0 <= i < a.len() ==> contains_str(b, a[i]@)
    &&& forall|i: int| 0 <= i < b.len() ==> contains_str(a, b[i]@)
}

/// No string occurs twice in `v`.
pub open spec fn distinct_strs(v: Seq<String>) -> bool {
    forall|i: int, j: int| 0 <= i < j < v.len() ==> v[i]@ != v[j]@
}

/// Whether `v` holds the string `x`.
pub fn vec_contains_str(v: &Vec<String>, x: &str) -> (r: bool)
    ensures
        r == contains_str(v@, x@),
{
    let mut i: usize = 0;
    while i < v.len()
        invariant
            i <= v@.len(),
            forall|j: int| 0 <= j < i ==> v@[j]@ != x@,
        decreases v@.len() - i,
    {
        if str_eq(v[i].as_str(), x) {
            return true;
        }
        i += 1;
    }
    false
}

/// Whether every string of `a` occurs in `b`.
fn vec_strs_subset(a: &Vec<String>, b: &Vec<String>) -> (r: bool)
    ensures
        r == forall|i: int| 0 <= i < a@.len() ==> contains_str(b@, a@[i]@),
{
    let mut i: usize = 0;
    while i < a.len()
        invariant
            i <= a@.len(),
            forall|j: int| 0 <= j < i ==> contains_str(b@, a@[j]@),
        decreases a@.len() - i,
    {
        if !vec_contains_str(b, a[i].as_str()) {
            return false;
        }
        i += 1;
    }
    true
}

/// Whether `a` and `b` hold the same strings, read as sets.
pub fn vec_same_str_set(a: &Vec<String>, b: &Vec<String>) -> (r: bool)
    ensures
        r == same_str_set(a@, b@),
{
    let ab = vec_strs_subset(a, b);
    if !ab {
        return false;
    }
    vec_strs_subset(b, a)
}

/// Membership survives appending.
proof fn lemma_push_preserves_contains(prev: Seq<String>, s: String, x: Seq<char>)
    requires
        contains_str(prev, x),
    ensures
        contains_str(prev.push(s), x),
{
    let k = choose|k: int| 0 <= k < prev.len() && (#[trigger] prev[k])@ == x;
    assert(prev.push(s)[k]@ == x);
}

/// The strings of `v` with later duplicates dropped.
fn dedup_strings(v: Vec<String>) -> (r: Vec<String>)
    ensures
        distinct_strs(r@),
        same_str_set(r@, v@),
{
    let mut out: Vec<String> = Vec::new();
    let mut i: usize = 0;
    while i < v.len()
        invariant
            i <= v@.len(),
            distinct_strs(out@),
            forall|j: int| 0 <= j < out@.len() ==> contains_str(v@, out@[j]@),
            forall|j: int| 0 <= j < i ==> contains_str(out@, v@[j]@),
        decreases v@.len() - i,
    {
        if !vec_contains_str(&out, v[i].as_str()) {
            let ghost prev = out@;
            let s = v[i].clone();
            out.push(s);
            proof {
                assert(out@[prev.len() as int]@ == v@[i as int]@);
                assert forall|j: int, k: int| 0 <= j < k < out@.len() implies out@[j]@ != out@[k]@ by {
                    if k < prev.len() {
                        assert(out@[j] == prev[j] && out@[k] == prev[k]);
                    } else {
                        assert(out@[j] == prev[j]);
                        assert(!contains_str(prev, v@[i as int]@));
                    }
                }
                assert forall|j: int| 0 <= j < out@.len() implies contains_str(
                    v@,
                    out@[j]@,
                ) by {
                    if j < prev.len() {
                        assert(out@[j] == prev[j]);
                    } else {
                        assert(out@[j]@ == v@[i as int]@);
                    }
                }
                assert forall|j: int| 0 <= j < i + 1 implies contains_str(out@, v@[j]@) by {
                    if j < i {
                        lemma_push_preserves_contains(prev, s, v@[j]@);
                    } else {
                        assert(out@[prev.len() as int]@ == v@[j]@);
                    }
                }
            }
        } else {
            proof {
                assert(contains_str(out@, v@[i as int]@));
            }
        }
        i += 1;
    }
    out
}

/// The subscription state of one exchange session: endpoint, data channels,
/// instruments and the heartbeat cadence. Channels and instruments are sets.
#[derive(Debug, Clone)]
pub struct ExchangeConfig {
    pub ws_url: String,
    pub channels: Vec<String>,
    pub instruments: Vec<String>,
    pub heartbeat_millis: u64,
}

/// A configuration whose channel and instrument lists carry no duplicates.
pub open spec fn exchange_config_wf(c: ExchangeConfig) -> bool {
    distinct_strs(c.channels@) && distinct_strs(c.instruments@)
}

/// The two configurations ask for the same subscriptions.
pub open spec fn same_subscription(a: ExchangeConfig, b: ExchangeConfig) -> bool {
    same_str_set(a.instruments@, b.instruments@) && same_str_set(a.channels@, b.channels@)
}

impl ExchangeConfig {
    /// Builds a configuration, dropping duplicate channels and instruments.
    pub fn new(
        ws_url: String,
        channels: Vec<String>,
        instruments: Vec<String>,
        heartbeat_millis: u64,
    ) -> (r: ExchangeConfig)
        ensures
            exchange_config_wf(r),
            same_str_set(r.channels@, channels@),
            same_str_set(r.instruments@, instruments@),
            r.ws_url == ws_url,
            r.heartbeat_millis == heartbeat_millis,
    {
        ExchangeConfig {
            ws_url,
            channels: dedup_strings(channels),
            instruments: dedup_strings(instruments),
            heartbeat_millis,
        }
    }

    pub fn get_instruments(&self) -> (r: &Vec<String>)
        ensures
            r == &self.instruments,
    {
        &self.instruments
    }

    pub fn get_channels(&self) -> (r: &Vec<String>)
        ensures
            r == &self.channels,
    {
        &self.channels
    }
}

/// A copy of a list of strings, kept in order.
pub fn clone_strings(v: &Vec<String>) -> (r: Vec<String>)
    ensures
        r@ == v@,
{
    let mut out: Vec<String> = Vec::new();
    let mut i: usize = 0;
    while i < v.len()
        invariant
            i <= v@.len(),
            out@ == v@.subrange(0, i as int),
        decreases v@.len() - i,
    {
        let s = v[i].clone();
        out.push(s);
        proof {
            assert(out@ =~= v@.subrange(0, i + 1));
        }
        i += 1;
    }
    proof {
        assert(v@.subrange(0, v@.len() as int) =~= v@);
    }
    out
}

} // verus!
