//! Market-data ingestion and consistency layer for exchange feeds.
//!
//! The crate keeps per-symbol order books consistent under snapshot plus
//! incremental updates, scans books for arbitrage, and decides every step of
//! a streaming connection's lifecycle.
//!
//! * [`decimal`] reads and writes the fixed-point figures that everything
//!   else counts in: unsigned integers in units of 10^-8.
//! * [`ladder`] and [`orderbook`] hold one side of a book and the book: a
//!   snapshot, then update batches that are applied, skipped as applied
//!   before, or refused as a gap in the sequence of update ids.
//! * [`book_manager`] and [`arbitrage`] hold one book per symbol, route
//!   updates, count them, and look for gains between books.
//! * [`subscription`], [`connection`] and [`websocket`] hold the
//!   subscriptions of a stream, the state machine of its connection, and
//!   the manager that callers talk to. They own no socket: a step returns
//!   the actions to perform and takes what happened as the next event.
//! * [`binance`] and [`binance_websocket`] know Binance's forms of data and
//!   the names of its streams.
//! * [`types`], [`errors`], [`connector`] and [`clock`] hold the plain data,
//!   the errors, shared pieces of the exchange interface and the clocks.

pub mod types;
pub mod errors;
pub mod decimal;
pub mod ladder;
pub mod clock;
pub mod orderbook;
pub mod subscription;
pub mod connection;
pub mod websocket;
pub mod arbitrage;
pub mod book_manager;
pub mod connector;
pub mod binance;
pub mod binance_websocket;
