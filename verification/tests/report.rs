//! The flat per-ticker record and its report line.

use ticker_stats::ticker_data::TickerData;

#[test]
fn test_ticker_data_new_zeroed() {
    let data = TickerData::new("XYZ", 0);
    assert_eq!(data.symbol, "XYZ");
    assert_eq!(data.date, 0);
    assert_eq!(data.price, 0);
    assert_eq!(data.max, 0);
    assert_eq!(data.min, 0);
    assert_eq!(data.perc, 0);
    assert_eq!(data.diff, 0);
    assert_eq!(data.avg, 0);
}

#[test]
fn test_ticker_data_report_line_zeroes() {
    let data = TickerData::new("XYZ", 0);
    assert_eq!(
        data.report_line(),
        "1970-01-01T00:00:00+00:00,XYZ,$0.00,0.00%,$0.00,$0.00,$0.00"
    );
}

#[test]
fn test_ticker_data_report_line_values() {
    let mut data = TickerData::new("ABC", 86400);
    data.price = 12345;
    data.perc = 9876;
    data.min = -5;
    data.max = 1000000;
    data.avg = 50;
    assert_eq!(
        data.report_line(),
        "1970-01-02T00:00:00+00:00,ABC,$123.45,98.76%,$-0.05,$10000.00,$0.50"
    );
}
