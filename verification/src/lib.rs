//! Verified core of a streaming market-data client: decoding of wire event
//! batches into typed domain events, and a best-bid-offer aggregator that
//! folds quote events into a top-of-book snapshot.

pub mod bbo;
pub mod decimal;
pub mod decode;
pub mod json;
pub mod models;
