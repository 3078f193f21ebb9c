//! Fan-in of per-ticker fetch outcomes into result maps.

use ticker_stats::orchestrator::get_max_prices;
use ticker_stats::orchestrator::get_min_prices;
use ticker_stats::orchestrator::get_price_differences;
use ticker_stats::orchestrator::get_sma_windows;
use ticker_stats::orchestrator::get_ticker_summary;
use ticker_stats::orchestrator::DiagReason;
use ticker_stats::orchestrator::FetchOutcome;
use ticker_stats::quote::Quote;

fn quote(ts: u64, high: i64, low: i64, close: i64) -> Quote {
    Quote { timestamp: ts, open: close, high, low, volume: 0, close, adjclose: close }
}

fn ok(ticker: &str, quotes: Vec<Quote>) -> FetchOutcome {
    FetchOutcome { ticker: ticker.to_string(), outcome: Ok(quotes) }
}

fn failed(ticker: &str, message: &str) -> FetchOutcome {
    FetchOutcome { ticker: ticker.to_string(), outcome: Err(message.to_string()) }
}

#[test]
fn test_failed_fetch_skips_only_that_ticker() {
    // one bad ticker must not abort the batch, and must leave a diagnostic
    let outcomes = vec![
        ok("AAPL", vec![quote(1, 0, 0, 100), quote(2, 0, 0, 300)]),
        failed("BADTICKER", "no such ticker"),
    ];
    let (map, diags) = get_max_prices(outcomes);
    assert_eq!(map.len(), 1);
    assert!(map.contains_key(&"AAPL".to_string()));
    assert!(!map.contains_key(&"BADTICKER".to_string()));
    assert_eq!(map.get(&"AAPL".to_string()), Some(&300));
    assert_eq!(diags.len(), 1);
    assert_eq!(diags[0].ticker, "BADTICKER");
    assert!(matches!(diags[0].reason, DiagReason::FetchFailed(ref m) if m == "no such ticker"));
}

#[test]
fn test_min_prices_and_empty_series() {
    // an empty fetched series yields no value: skipped with a diagnostic
    let outcomes = vec![
        ok("LOW", vec![quote(1, 0, 0, 500), quote(2, 0, 0, 200), quote(3, 0, 0, 900)]),
        ok("EMPTY", vec![]),
    ];
    let (map, diags) = get_min_prices(outcomes);
    assert_eq!(map.len(), 1);
    assert_eq!(map.get(&"LOW".to_string()), Some(&200));
    assert_eq!(diags.len(), 1);
    assert_eq!(diags[0].ticker, "EMPTY");
    assert!(matches!(diags[0].reason, DiagReason::InsufficientData));
}

#[test]
fn test_sma_windows_ok() {
    let outcomes = vec![ok("AAPL", vec![quote(1, 0, 0, 100), quote(2, 0, 0, 200), quote(
        3, 0, 0, 300,
    )])];
    let result = get_sma_windows(outcomes, 2);
    let (map, diags) = result.unwrap();
    assert_eq!(map.get(&"AAPL".to_string()), Some(&vec![150, 250]));
    assert_eq!(diags.len(), 0);
}

#[test]
fn test_sma_window_too_large_fails_whole_batch() {
    // one short series fails the batch even when the other would do
    let outcomes = vec![
        ok("LONG", vec![quote(1, 0, 0, 100), quote(2, 0, 0, 200), quote(3, 0, 0, 300)]),
        ok("SHORT", vec![quote(1, 0, 0, 100)]),
    ];
    let result = get_sma_windows(outcomes, 2);
    match result {
        Err(message) => assert_eq!(message, "Sliding window did return None as a result."),
        Ok(_) => assert!(false),
    }
}

#[test]
fn test_sma_failed_fetch_does_not_fail_batch() {
    let outcomes = vec![
        failed("BAD", "timeout"),
        ok("GOOD", vec![quote(1, 0, 0, 100), quote(2, 0, 0, 300)]),
    ];
    let (map, diags) = get_sma_windows(outcomes, 2).unwrap();
    assert_eq!(map.len(), 1);
    assert_eq!(map.get(&"GOOD".to_string()), Some(&vec![200]));
    assert_eq!(diags.len(), 1);
    assert_eq!(diags[0].ticker, "BAD");
}

#[test]
fn test_price_differences_map() {
    let outcomes = vec![
        ok("UP", vec![quote(1, 0, 0, 100), quote(2, 0, 0, 300), quote(3, 0, 0, 200)]),
        ok("TOO_SHORT", vec![quote(1, 0, 0, 100)]),
        failed("BAD", "offline"),
    ];
    let (map, diags) = get_price_differences(outcomes);
    assert_eq!(map.len(), 1);
    assert_eq!(map.get(&"UP".to_string()), Some(&(20000, 100)));
    assert_eq!(diags.len(), 2);
    assert_eq!(diags[0].ticker, "TOO_SHORT");
    assert!(matches!(diags[0].reason, DiagReason::InsufficientData));
    assert_eq!(diags[1].ticker, "BAD");
    assert!(matches!(diags[1].reason, DiagReason::FetchFailed(ref m) if m == "offline"));
}

#[test]
fn test_ticker_summary_map() {
    let outcomes = vec![
        ok("AAPL", vec![quote(1, 500, 100, 200), quote(2, 600, 0, 400)]),
        failed("BADTICKER", "gone"),
    ];
    let (map, diags) = get_ticker_summary(outcomes);
    assert_eq!(map.len(), 1);
    let summary = map.get(&"AAPL".to_string()).unwrap();
    assert_eq!(summary.symbol().as_str(), "AAPL");
    assert_eq!(summary.observed_count(), 2);
    assert_eq!(summary.max_high(), Some(600));
    assert_eq!(summary.min_low(), Some(0));
    assert_eq!(summary.avg(), Some(300));
    assert_eq!(diags.len(), 1);
    assert_eq!(diags[0].ticker, "BADTICKER");
}

#[test]
fn test_ticker_summary_empty_series_entry() {
    // a fetched-but-empty series still gets an entry that reports no data
    let outcomes = vec![ok("EMPTY", vec![])];
    let (map, _diags) = get_ticker_summary(outcomes);
    assert_eq!(map.len(), 1);
    let summary = map.get(&"EMPTY".to_string()).unwrap();
    assert_eq!(summary.observed_count(), 0);
    assert_eq!(summary.avg(), None);
}

#[test]
fn test_duplicate_ticker_last_write_wins() {
    let outcomes = vec![
        ok("DUP", vec![quote(1, 0, 0, 100)]),
        ok("DUP", vec![quote(1, 0, 0, 900)]),
    ];
    let (map, diags) = get_max_prices(outcomes);
    assert_eq!(map.len(), 1);
    assert_eq!(map.get(&"DUP".to_string()), Some(&900));
    assert_eq!(diags.len(), 0);
}
