//! A flat per-ticker record of already-derived statistics, ready to render
//! as one report line.

use vstd::prelude::*;

use crate::dates::MAX_UTC_SECONDS;
use crate::report::build_report_line;
use crate::report::report_fields;

verus! {

/// One ticker's derived statistics. Prices are fixed-point in hundredths;
/// `perc` is in hundredths of a percent point; `date` is seconds since the
/// epoch.
#[derive(Debug)]
pub struct TickerData {
    pub date: u64,
    pub price: i64,
    pub symbol: String,
    pub max: i64,
    pub min: i64,
    pub perc: i128,
    pub diff: i128,
    pub avg: i64,
}

impl TickerData {
    /// A zeroed record for `symbol`, stamped with the given date.
    pub fn new(symbol: &str, date: u64) -> (r: TickerData)
        ensures
            r.date == date,
            r.symbol@ == symbol@,
            r.price == 0 && r.max == 0 && r.min == 0 && r.perc == 0 && r.diff == 0 && r.avg == 0,
    {
        TickerData {
            date,
            price: 0,
            symbol: symbol.to_owned(),
            max: 0,
            min: 0,
            perc: 0,
            diff: 0,
            avg: 0,
        }
    }

    /// Render the record as its one-line report. The timestamp bound is
    /// chrono's own representable range.
    pub fn report_line(&self) -> (r: String)
        requires
            self.date <= MAX_UTC_SECONDS,
            self.perc > i128::MIN,
        ensures
            r@ == report_fields(
                self.date as int,
                self.symbol@,
                self.price as int,
                self.perc as int,
                self.min as int,
                self.max as int,
                self.avg as int,
            ),
    {
        build_report_line(
            self.date,
            &self.symbol,
            self.price as i128,
            self.perc,
            self.min as i128,
            self.max as i128,
            self.avg as i128,
        )
    }
}

} // verus!
