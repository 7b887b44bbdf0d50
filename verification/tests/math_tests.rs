use options_scanner::types::OptionType;

// --- NaN safety ---
#[test]
fn test_nan_sort_does_not_panic() {
    let mut scores = vec![85.0, f64::NAN, 92.0, f64::NAN, 78.0];
    // total_cmp should handle NaN without panicking
    scores.sort_by(|a: &f64, b: &f64| b.total_cmp(a));
    // NaN is treated as largest in total_cmp, so descending sort puts NaN first.
    // Verify non-NaN values are in correct descending order.
    let non_nan: Vec<f64> = scores.iter().copied().filter(|x| !x.is_nan()).collect();
    assert_eq!(non_nan, vec![92.0, 85.0, 78.0]);
}

#[test]
fn option_type_names() {
    assert_eq!(OptionType::Call.name(), "Call");
    assert_eq!(OptionType::Put.name(), "Put");
}
