//! One timestamped price observation for a ticker.

use vstd::prelude::*;

verus! {

/// A single quote: a point in time and its prices, the prices fixed-point
/// in hundredths. The adjusted close is the canonical price used by every
/// statistic; the volume is carried along but takes no part in them.
#[derive(Debug, Clone, Copy, PartialEq, Eq, Structural)]
pub struct Quote {
    pub timestamp: u64,
    pub open: i64,
    pub high: i64,
    pub low: i64,
    pub volume: u64,
    pub close: i64,
    pub adjclose: i64,
}

} // verus!
