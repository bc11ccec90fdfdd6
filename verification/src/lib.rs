//! In-memory market-data aggregation: rolling OHLCV buckets ("klines") per
//! (symbol, interval) key, a bounded history of closed buckets, and a
//! multi-subscriber distribution hub with bounded queues and drop-oldest
//! overflow.

pub mod data_service;
pub mod decimal;
pub mod engine;
pub mod history;
pub mod hub;
pub mod kline;
pub mod kline_service;
pub mod query;
pub mod transaction;
