//! The per-ticker running summary and its report line.

use ticker_stats::quote::Quote;
use ticker_stats::ticker_summary::SummaryError;
use ticker_stats::ticker_summary::TickerSummary;

fn quote(ts: u64, high: i64, low: i64, close: i64) -> Quote {
    Quote { timestamp: ts, open: close, high, low, volume: 0, close, adjclose: close }
}

#[test]
fn test_summary_no_data() {
    // a summary that absorbed nothing reports "no data" everywhere
    let summary = TickerSummary::new("EMPTY");
    assert_eq!(summary.observed_count(), 0);
    assert_eq!(summary.avg(), None);
    assert_eq!(summary.diff(), None);
    assert_eq!(summary.diff_percent(), None);
    assert_eq!(summary.max_high(), None);
    assert_eq!(summary.min_low(), None);
    assert_eq!(summary.report_line(), Err(SummaryError::NoData));
}

#[test]
fn test_summary_two_batches() {
    // {ts:1,high:5,low:1,close:2} then {ts:2,high:6,low:0,close:4}
    let mut summary = TickerSummary::new("TWO");
    summary.update_ticker_summary(vec![quote(1, 500, 100, 200)]);
    summary.update_ticker_summary(vec![quote(2, 600, 0, 400)]);
    assert_eq!(summary.observed_count(), 2);
    assert_eq!(summary.max_high(), Some(600));
    assert_eq!(summary.min_low(), Some(0));
    assert_eq!(summary.avg(), Some(300));
    assert_eq!(summary.first_price(), Some(200));
    assert_eq!(summary.last_price(), Some(400));
    assert_eq!(summary.first_timestamp(), 1);
    assert_eq!(summary.last_timestamp(), 2);
}

#[test]
fn test_summary_batch_order_irrelevant() {
    // the same two batches in the other order end in the same state
    let mut summary = TickerSummary::new("TWO");
    summary.update_ticker_summary(vec![quote(2, 600, 0, 400)]);
    summary.update_ticker_summary(vec![quote(1, 500, 100, 200)]);
    assert_eq!(summary.max_high(), Some(600));
    assert_eq!(summary.min_low(), Some(0));
    assert_eq!(summary.avg(), Some(300));
    assert_eq!(summary.first_price(), Some(200));
    assert_eq!(summary.last_price(), Some(400));
}

#[test]
fn test_summary_empty_batch_is_noop() {
    let mut summary = TickerSummary::new("NOOP");
    summary.update_ticker_summary(vec![]);
    assert_eq!(summary.observed_count(), 0);
    assert_eq!(summary.avg(), None);
}

#[test]
fn test_summary_timestamp_tie_keeps_first_scanned() {
    let mut summary = TickerSummary::new("TIE");
    summary.update_ticker_summary(vec![quote(5, 100, 100, 111), quote(5, 100, 100, 222)]);
    assert_eq!(summary.first_price(), Some(111));
    assert_eq!(summary.last_price(), Some(111));
}

#[test]
fn test_summary_diff_and_percent() {
    let mut summary = TickerSummary::new("DIFF");
    summary.update_ticker_summary(vec![quote(1, 0, 0, 200), quote(9, 0, 0, 500)]);
    assert_eq!(summary.diff(), Some(300));
    // 5.00 is 250 percent of 2.00
    assert_eq!(summary.diff_percent(), Some(25000));
}

#[test]
fn test_summary_zero_first_price() {
    // a first price of exactly zero leaves the percentage undefined
    let mut summary = TickerSummary::new("ZERO");
    summary.update_ticker_summary(vec![quote(1, 100, 0, 0), quote(2, 100, 0, 300)]);
    assert_eq!(summary.diff_percent(), None);
    assert_eq!(summary.diff(), Some(300));
    assert_eq!(summary.report_line(), Err(SummaryError::ZeroFirstPrice));
}

#[test]
fn test_summary_report_line_exact() {
    // one quote on 1970-01-02 at 123.45 with high 200.00 and low 50.00
    let mut summary = TickerSummary::new("AAPL");
    summary.update_ticker_summary(vec![quote(86400, 20000, 5000, 12345)]);
    let line = summary.report_line().unwrap();
    assert_eq!(
        line,
        "1970-01-02T00:00:00+00:00,AAPL,$123.45,100.00%,$50.00,$200.00,$123.45"
    );
}

#[test]
fn test_summary_report_line_negative_price() {
    let mut summary = TickerSummary::new("NEG");
    summary.update_ticker_summary(vec![quote(0, 10, -20, -5)]);
    let line = summary.report_line().unwrap();
    // -0.05 at start and end: percentage is still 100.00
    assert_eq!(
        line,
        "1970-01-01T00:00:00+00:00,NEG,$-0.05,100.00%,$-0.20,$0.10,$-0.05"
    );
}

#[test]
fn test_summary_average_truncates() {
    let mut summary = TickerSummary::new("AVG");
    summary.update_ticker_summary(vec![quote(1, 0, 0, 100), quote(2, 0, 0, 201)]);
    // (1.00 + 2.01) / 2 = 1.505, kept at 1.50
    assert_eq!(summary.avg(), Some(150));
}

#[test]
fn test_summary_dates_round_trip() {
    let mut summary = TickerSummary::new("DATES");
    summary.update_ticker_summary(vec![quote(100, 0, 0, 1), quote(9999, 0, 0, 2)]);
    assert_eq!(summary.from_date().timestamp(), 100);
    assert_eq!(summary.last_date().timestamp(), 9999);
    assert_eq!(summary.from_date().to_rfc3339(), "1970-01-01T00:01:40+00:00");
}
