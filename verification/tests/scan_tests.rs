use options_scanner::scan::{first_occurrences, useful_expirations, ContractKey};
use options_scanner::types::OptionType;

#[test]
fn expirations_in_window_first_six() {
    let today = 739_000;
    let exps: Vec<i32> = vec![0, 3, 7, 8, 30, 60, 90, 91, 20, 40, 50, 200].into_iter().map(|d| today + d).collect();
    let got = useful_expirations(&exps, today);
    let want: Vec<i32> = vec![7, 8, 30, 60, 90, 20].into_iter().map(|d| today + d).collect();
    assert_eq!(got, want);
}

#[test]
fn expirations_none_in_window() {
    assert!(useful_expirations(&vec![1, 2, 3], 0).is_empty());
    assert!(useful_expirations(&vec![], 0).is_empty());
}

fn key(t: &str, strike: f64, exp: i32, ty: OptionType) -> ContractKey {
    ContractKey { ticker: t.to_string(), strike_bits: strike.to_bits(), expiration: exp, option_type: ty }
}

#[test]
fn repeats_are_dropped_first_kept() {
    let keys = vec![
        key("AAPL", 100.0, 10, OptionType::Call),
        key("AAPL", 100.0, 10, OptionType::Put),
        key("MSFT", 100.0, 10, OptionType::Call),
        key("AAPL", 100.0, 10, OptionType::Call),
        key("AAPL", 105.0, 10, OptionType::Call),
        key("AAPL", 100.0, 11, OptionType::Call),
        key("MSFT", 100.0, 10, OptionType::Call),
        key("AAPL", 100.0, 10, OptionType::Put),
    ];
    assert_eq!(first_occurrences(&keys), vec![true, true, true, false, true, true, false, false]);
}

#[test]
fn no_keys_nothing_kept() {
    assert!(first_occurrences(&vec![]).is_empty());
}
