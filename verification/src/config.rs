//! Configuration: API access, caching, and the whole-number defaults.
//!
//! Paths are held as their text.
use vstd::prelude::*;

verus! {

/// Access to the market data providers.
pub struct ApiConfig {
    pub tradier_api_key: Option<String>,
    pub alpha_vantage_api_key: Option<String>,
    pub tradier_sandbox: bool,
    pub yahoo_requests_per_hour: u32,
    pub tradier_requests_per_hour: u32,
}

/// How long fetched data is kept, and where results are stored.
pub struct CacheConfig {
    pub price_ttl_seconds: u64,
    pub chain_ttl_seconds: u64,
    pub exp_ttl_seconds: u64,
    pub sqlite_path: String,
}

/// Yahoo Finance requests allowed per hour.
pub fn default_yahoo_rate_limit() -> (r: u32)
    ensures
        r == 2000,
{
    2000
}

/// Tradier requests allowed per hour.
pub fn default_tradier_rate_limit() -> (r: u32)
    ensures
        r == 120,
{
    120
}

/// Seconds a quoted price is kept.
pub fn default_price_ttl() -> (r: u64)
    ensures
        r == 300,
{
    300
}

/// Seconds an option chain is kept.
pub fn default_chain_ttl() -> (r: u64)
    ensures
        r == 900,
{
    900
}

/// Seconds a list of expirations is kept.
pub fn default_exp_ttl() -> (r: u64)
    ensures
        r == 3600,
{
    3600
}

/// Where scan results are stored.
pub fn default_cache_dir() -> (r: String)
    ensures
        r@ == "data/cache.db"@,
{
    String::from_str("data/cache.db")
}

/// Where the S&P 500 ticker list is kept.
pub fn default_sp500_path() -> (r: String)
    ensures
        r@ == "data/sp500.csv"@,
{
    String::from_str("data/sp500.csv")
}

/// Seconds between scans in watch mode.
pub fn default_scan_interval() -> (r: u64)
    ensures
        r == 900,
{
    900
}

/// Tickers fetched at the same time.
pub fn default_concurrency() -> (r: usize)
    ensures
        r == 15,
{
    15
}

/// Latest expiration scanned, in days.
pub fn default_max_dte() -> (r: u32)
    ensures
        r == 90,
{
    90
}

/// Earliest expiration scanned, in days.
pub fn default_min_dte() -> (r: u32)
    ensures
        r == 7,
{
    7
}

/// Least volume for the unusual-volume strategy.
pub fn default_min_volume() -> (r: u64)
    ensures
        r == 100,
{
    100
}

/// Most days before earnings for the IV-crush strategy.
pub fn default_days_to_earnings() -> (r: u32)
    ensures
        r == 7,
{
    7
}

/// Least gap between the legs of a calendar spread, in days.
pub fn default_calendar_min_gap() -> (r: u32)
    ensures
        r == 14,
{
    14
}

impl Default for ApiConfig {
    /// No keys, the live Tradier host, and the default request budgets.
    fn default() -> (r: Self)
        ensures
            r.tradier_api_key is None,
            r.alpha_vantage_api_key is None,
            !r.tradier_sandbox,
            r.yahoo_requests_per_hour == 2000,
            r.tradier_requests_per_hour == 120,
    {
        ApiConfig {
            tradier_api_key: None,
            alpha_vantage_api_key: None,
            tradier_sandbox: false,
            yahoo_requests_per_hour: default_yahoo_rate_limit(),
            tradier_requests_per_hour: default_tradier_rate_limit(),
        }
    }
}

impl Default for CacheConfig {
    /// The default lifetimes and store path.
    fn default() -> (r: Self)
        ensures
            r.price_ttl_seconds == 300,
            r.chain_ttl_seconds == 900,
            r.exp_ttl_seconds == 3600,
            r.sqlite_path@ == "data/cache.db"@,
    {
        CacheConfig {
            price_ttl_seconds: default_price_ttl(),
            chain_ttl_seconds: default_chain_ttl(),
            exp_ttl_seconds: default_exp_ttl(),
            sqlite_path: default_cache_dir(),
        }
    }
}

} // verus!
