use options_scanner::config::{
    default_calendar_min_gap, default_concurrency, default_days_to_earnings, default_max_dte, default_min_dte,
    default_min_volume, default_scan_interval, default_sp500_path, ApiConfig, CacheConfig,
};
use options_scanner::strategies::{ButterflyStrategy, IronCondorStrategy, SpreadStrategy, WheelStrategy};
use options_scanner::types::StrategyType;

#[test]
fn defaults() {
    let api = ApiConfig::default();
    assert!(api.tradier_api_key.is_none() && api.alpha_vantage_api_key.is_none() && !api.tradier_sandbox);
    assert_eq!((api.yahoo_requests_per_hour, api.tradier_requests_per_hour), (2000, 120));
    let c = CacheConfig::default();
    assert_eq!((c.price_ttl_seconds, c.chain_ttl_seconds, c.exp_ttl_seconds), (300, 900, 3600));
    assert_eq!(c.sqlite_path, "data/cache.db");
    assert_eq!(default_sp500_path(), "data/sp500.csv");
    assert_eq!(default_scan_interval(), 900);
    assert_eq!(default_concurrency(), 15);
    assert_eq!((default_min_dte(), default_max_dte()), (7, 90));
    assert_eq!(default_min_volume(), 100);
    assert_eq!(default_days_to_earnings(), 7);
    assert_eq!(default_calendar_min_gap(), 14);
}

#[test]
fn labels_and_names() {
    assert_eq!(StrategyType::IvCrush.label(), "IV Crush");
    assert_eq!(StrategyType::RatioSpread.label(), "Ratio Spread");
    assert_eq!(ButterflyStrategy.name(), "Butterfly");
    assert_eq!(SpreadStrategy.name(), "Credit Spread");
    assert_eq!(WheelStrategy.name(), "Wheel Setup");
    assert!(IronCondorStrategy.description().starts_with("Finds iron condor setups"));
}
