//! Decisions made around the market data providers.
pub mod earnings;
pub mod rate_limit;
pub mod retry;
pub mod tradier;
pub mod yahoo;
