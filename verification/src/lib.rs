//! A verified streaming dataflow engine for a cryptocurrency price indexer:
//! per-exchange websocket session logic, per-source smoothing (pass-through,
//! simple and exponential moving averages), a freshness-gated cross-source
//! weighted index, exact decimal prices, reconnect backoff, and live
//! reconfiguration of all of them.

pub mod decimal;
pub mod errors;
pub mod models;
pub mod backoff;
pub mod exchange;
pub mod smoothing;
pub mod weighted;
pub mod feed;
pub mod wsframe;
pub mod binance;
pub mod kraken;
pub mod coinbase;
pub mod config;
pub mod laws;
