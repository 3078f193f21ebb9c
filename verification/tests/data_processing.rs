//! Statistics functions over fixed-point price series (values are in
//! hundredths: `100` is `1.0`).

use ticker_stats::data_processing::max;
use ticker_stats::data_processing::min;
use ticker_stats::data_processing::n_window_sma;
use ticker_stats::data_processing::price_difference;

#[test]
fn test_max_none() {
    let s: Vec<i64> = vec![];
    assert_eq!(max(&s), None);
}

#[test]
fn test_max_some() {
    // 0.0, 0.1, 10.0
    let s: Vec<i64> = vec![0, 10, 1000];
    assert_eq!(max(&s), Some(1000));
}

#[test]
fn test_min_none() {
    let s: Vec<i64> = vec![];
    assert_eq!(min(&s), None);
}

#[test]
fn test_min_some() {
    // 0.0, 0.1, -10.0
    let s: Vec<i64> = vec![0, 10, -1000];
    assert_eq!(min(&s), Some(-1000));
}

#[test]
fn test_sma_none() {
    // 1.0, 2.0, 3.0 with a window of 4
    let s: Vec<i64> = vec![100, 200, 300];
    assert_eq!(n_window_sma(4, &s), None);
}

#[test]
fn test_sma_some_one_value() {
    // 1.0, 2.0, 3.0 with a window of 3 -> [2.0]
    let s: Vec<i64> = vec![100, 200, 300];
    if let Some(mut result) = n_window_sma(3, &s) {
        assert_eq!(result.len(), 1);
        assert_eq!(result.pop(), Some(200));
    } else {
        assert!(false);
    }
}

#[test]
fn test_sma_some_multiple_values() {
    // 1.0, 2.0, 3.0, 4.0 with a window of 3 -> [2.0, 3.0]
    let s: Vec<i64> = vec![100, 200, 300, 400];
    if let Some(mut result) = n_window_sma(3, &s) {
        assert_eq!(result.len(), 2);
        assert_eq!(result.pop(), Some(300));
        assert_eq!(result.pop(), Some(200));
    } else {
        assert!(false);
    }
}

#[test]
fn test_sma_none_too_large_window() {
    let s: Vec<i64> = vec![100, 200, 300, 400];
    assert_eq!(n_window_sma(5, &s), None);
}

#[test]
fn test_price_difference_none() {
    let s: Vec<i64> = vec![];
    assert_eq!(price_difference(&s), None);
    // 124.3 alone is too short a series
    let s: Vec<i64> = vec![12430];
    assert_eq!(price_difference(&s), None);
}

#[test]
fn test_price_difference_some() {
    // 1.0, 3.0, 2.0 -> (200.0 percent, 1.0 absolute)
    let s: Vec<i64> = vec![100, 300, 200];
    if let Some((perc, diff)) = price_difference(&s) {
        assert_eq!(perc, 20000);
        assert_eq!(diff, 100);
    } else {
        assert!(false);
    }
}

#[test]
fn test_price_difference_zero() {
    // a first price of exactly 0.0 guards the division
    let s: Vec<i64> = vec![0, 300, 200];
    assert_eq!(price_difference(&s), None);
}

#[test]
fn test_sma_zero_window_rejected() {
    let s: Vec<i64> = vec![100, 200, 300];
    assert_eq!(n_window_sma(0, &s), None);
    let empty: Vec<i64> = vec![];
    assert_eq!(n_window_sma(0, &empty), None);
}

#[test]
fn test_sma_truncates_toward_zero() {
    // mean of 1.00 and 2.01 is 1.505, kept at 1.50 in hundredths
    let s: Vec<i64> = vec![100, 201];
    assert_eq!(n_window_sma(2, &s), Some(vec![150]));
}

#[test]
fn test_price_difference_negative_move() {
    // 4.0 -> 1.0: 25 percent of the start, -3.0 absolute
    let s: Vec<i64> = vec![400, 100];
    assert_eq!(price_difference(&s), Some((2500, -300)));
}

#[test]
fn test_max_min_single_element() {
    let s: Vec<i64> = vec![775];
    assert_eq!(max(&s), Some(775));
    assert_eq!(min(&s), Some(775));
}
