//! Deribit BTC options arbitrage scanner: the verified core.
//!
//! The modules follow the layout of the scanner: `ws` holds the
//! authentication state, the request rate limiter and the decisions of the
//! websocket client; `market` the order book, the instrument helpers and the
//! subscription batching; `analysis` the opportunity vocabulary and the
//! pairing of expirations; `tui` the dashboard's navigation state machine.
pub mod alert;
pub mod analysis;
pub mod clock;
pub mod config;
pub mod market;
pub mod text;
pub mod tui;
pub mod ws;
