use options_scanner::tickers::{fallback_tickers, sp500_tickers, ticker_universe, tickers_in_csv, TickerListError};

#[test]
fn csv_skips_header_and_trims() {
    let csv = "Symbol,Name\nAAPL,Apple Inc.\n  MSFT ,Microsoft\r\nBRK.B,Berkshire\nBF-B\n";
    let t = tickers_in_csv(csv);
    assert_eq!(t, vec!["AAPL", "MSFT", "BRK.B", "BF-B"]);
}

#[test]
fn csv_drops_invalid_and_empty_symbols() {
    let csv = "Symbol,Name\n,Nothing\nA$B,Bad\n\nGOOD,Fine\nwith space,x";
    assert_eq!(tickers_in_csv(csv), vec!["GOOD"]);
}

#[test]
fn csv_header_only_is_empty() {
    assert!(tickers_in_csv("Symbol,Name\n").is_empty());
    assert!(tickers_in_csv("").is_empty());
    assert!(tickers_in_csv("AAPL").is_empty());
}

#[test]
fn universe_falls_back_when_csv_names_nothing() {
    let u = ticker_universe("Symbol,Name\n");
    assert_eq!(u, fallback_tickers());
    assert_eq!(u.len(), 12);
    assert_eq!(u[0], "AAPL");
    assert_eq!(u[11], "IWM");
    let v = ticker_universe("Symbol\nSPY\n");
    assert_eq!(v, vec!["SPY"]);
}

#[test]
fn fallback_list_is_valid() {
    for t in fallback_tickers() {
        assert!(!t.is_empty());
        assert!(t.chars().all(|c| c.is_ascii_alphanumeric() || c == '-' || c == '.'));
    }
}

const PAGE: &str = r#"<html><body>
<table class="other"><tr><td><a>NOPE</a></td></tr></table>
<table id="constituents" class="wikitable">
<tbody><tr><th>Symbol</th><th>Security</th></tr>
<tr><td><a rel="nofollow" href="https://www.nyse.com/quote/XNYS:MMM">MMM</a></td><td>3M</td></tr>
<tr><td><a href="x">AOS</a>
</td><td>A. O. Smith</td></tr>
<tr><td><a href="y">AAPL</a></td><td><a href="z">Apple Inc.</a></td></tr>
<tr><td><a href="y">BRK.B</a></td><td>Berkshire</td></tr>
<tr><td><a href="y">MMM</a></td><td>again</td></tr>
<tr><td><a href="y">B@D</a></td><td>bad</td></tr>
</tbody></table>
<table><tr><td><a>AFTER</a></td></tr></table>
</body></html>"#;

#[test]
fn sp500_table_is_read_sorted_and_unique() {
    let t = sp500_tickers(PAGE).unwrap();
    assert_eq!(t, vec!["AAPL", "AOS", "BRK.B", "MMM"]);
}

#[test]
fn sp500_without_table_is_an_error() {
    assert_eq!(sp500_tickers("<html>no table here</html>"), Err(TickerListError::NoTickers));
    assert_eq!(sp500_tickers(""), Err(TickerListError::NoTickers));
}

#[test]
fn sp500_cell_text_in_same_piece_as_end_tag_is_not_read() {
    // The first cell's text is only collected from pieces that do not also close the cell.
    let page = "<table id=\"constituents\"><tr><td>XYZ</td></tr><tr><td><b>ABC</b></td></tr></table>";
    assert_eq!(sp500_tickers(page).unwrap(), vec!["ABC"]);
}
