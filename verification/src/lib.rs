//! Paper trading and exchange connectivity logic with machine-checked contracts.

pub mod account;
pub mod backing;
pub mod backtest;
pub mod binance;
pub mod binance_messages;
pub mod binance_stream;
pub mod channel;
pub mod conduct;
pub mod deals;
pub mod decimal;
pub mod exchange;
pub mod fidelity;
pub mod instrument;
pub mod json;
pub mod latency;
pub mod laws;
pub mod market;
pub mod matching;
pub mod names;
pub mod observation;
pub mod order;
pub mod placing;
pub mod rate_limit;
pub mod requests;
pub mod resting;
pub mod sender;
pub mod snapshot;
pub mod soundness;
pub mod terms;
pub mod text;
pub mod time;
pub mod upkeep;
pub mod wording;
