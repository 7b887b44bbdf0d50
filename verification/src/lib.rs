//! Verified core of an options-chain scanner: the data model, the integer
//! configuration defaults, text parsing of ticker lists and provider replies,
//! request retry decisions, result de-duplication and the terminal UI state
//! machine.

pub mod types;
pub mod text;
pub mod tickers;
pub mod dates;
pub mod scan;
pub mod tui;
pub mod data;
pub mod alerts;
pub mod config;
pub mod strategies;
