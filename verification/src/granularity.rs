//! The sampling interval of a historical-quote request.

use vstd::prelude::*;

use crate::arith::div_trunc;
use crate::arith::div_trunc_i128;

verus! {

/// Sampling interval for historical data.
#[derive(Debug, Clone, PartialEq, Eq, Structural)]
pub enum Granularity {
    Minute,
    Day,
}

/// The granularity picked for a lookback window: minutes for a window under
/// seven whole days, days otherwise.
pub open spec fn minimum_granularity(from_date: int, now: int) -> Granularity {
    if div_trunc(now - from_date, 86400) < 7 {
        Granularity::Minute
    } else {
        Granularity::Day
    }
}

impl Granularity {
    /// The request-parameter spelling of the interval.
    pub fn to_string(&self) -> (r: &'static str)
        ensures
            self is Day ==> r@ == "1d"@,
            self is Minute ==> r@ == "1m"@,
    {
        match self {
            Granularity::Day => "1d",
            Granularity::Minute => "1m",
        }
    }

    /// The finest granularity worth requesting for a window that starts at
    /// `from_date` and ends at `now` (both in seconds since the epoch):
    /// minutes when the window spans fewer than seven whole days, days
    /// otherwise.
    pub fn get_minimum(from_date: i64, now: i64) -> (r: Granularity)
        ensures
            r == minimum_granularity(from_date as int, now as int),
    {
        let dur: i128 = now as i128 - from_date as i128;
        let days = div_trunc_i128(dur, 86400);
        if days < 7 {
            Granularity::Minute
        } else {
            Granularity::Day
        }
    }
}

} // verus!
