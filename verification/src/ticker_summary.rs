//! The per-ticker running summary: a stateful aggregator that absorbs
//! batches of quotes and exposes derived statistics, each of which is
//! undefined until at least one quote has been absorbed.

use vstd::prelude::*;

use crate::arith::div_trunc;
use crate::arith::div_trunc_i128;
use crate::arith::lemma_div_trunc_bound;
use crate::arith::lemma_mean_in_range;
use crate::dates::UtcDateTime;
use crate::dates::MAX_UTC_SECONDS;
use crate::quote::Quote;
use crate::report::build_report_line;
use crate::report::report_fields;

verus! {

/// Why a summary could not be rendered as a report line.
#[derive(Debug, Clone, Copy, PartialEq, Eq, Structural)]
pub enum SummaryError {
    /// The summary never absorbed a quote, so every derived value is
    /// undefined.
    NoData,
    /// The first price is exactly zero, so the percentage difference is
    /// undefined.
    ZeroFirstPrice,
}

/// The report line a summary renders to: date of the latest quote, symbol,
/// latest price, percentage difference, least low, greatest high, average.
pub open spec fn summary_line_of(v: SummaryView) -> Seq<char>
    recommends
        v.observed_count > 0,
        v.first_price != 0,
{
    report_fields(
        v.last_timestamp,
        v.symbol,
        v.last_price,
        div_trunc(v.last_price * 10000, v.first_price),
        v.min_low,
        v.max_high,
        div_trunc(v.running_sum, v.observed_count as int),
    )
}

/// The abstract state of a summary. When `observed_count` is zero the
/// numeric fields are the zeroes a fresh summary starts from and carry no
/// meaning.
#[verifier::ext_equal]
pub struct SummaryView {
    pub symbol: Seq<char>,
    pub observed_count: nat,
    pub running_sum: int,
    pub max_high: int,
    pub min_low: int,
    pub first_timestamp: int,
    pub first_price: int,
    pub last_timestamp: int,
    pub last_price: int,
}

/// The state of a summary that has absorbed nothing.
pub open spec fn empty_summary(symbol: Seq<char>) -> SummaryView {
    SummaryView {
        symbol: symbol,
        observed_count: 0,
        running_sum: 0,
        max_high: 0,
        min_low: 0,
        first_timestamp: 0,
        first_price: 0,
        last_timestamp: 0,
        last_price: 0,
    }
}

/// One step of absorption. The first quote ever seen sets every running
/// field; later quotes bump the count and sum, raise the greatest high and
/// lower the least low, and take over first/last place only when their
/// timestamp is strictly beyond the incumbent's - so among equal timestamps
/// the quote scanned earliest stays.
pub open spec fn absorb_one(v: SummaryView, q: Quote) -> SummaryView {
    if v.observed_count == 0 {
        SummaryView {
            symbol: v.symbol,
            observed_count: 1,
            running_sum: q.adjclose as int,
            max_high: q.high as int,
            min_low: q.low as int,
            first_timestamp: q.timestamp as int,
            first_price: q.adjclose as int,
            last_timestamp: q.timestamp as int,
            last_price: q.adjclose as int,
        }
    } else {
        SummaryView {
            symbol: v.symbol,
            observed_count: v.observed_count + 1,
            running_sum: v.running_sum + q.adjclose,
            max_high: if q.high > v.max_high { q.high as int } else { v.max_high },
            min_low: if q.low < v.min_low { q.low as int } else { v.min_low },
            first_timestamp: if q.timestamp < v.first_timestamp { q.timestamp as int } else {
                v.first_timestamp
            },
            first_price: if q.timestamp < v.first_timestamp { q.adjclose as int } else {
                v.first_price
            },
            last_timestamp: if q.timestamp > v.last_timestamp { q.timestamp as int } else {
                v.last_timestamp
            },
            last_price: if q.timestamp > v.last_timestamp { q.adjclose as int } else {
                v.last_price
            },
        }
    }
}

/// Absorbing a whole batch: the quotes are folded in scan order.
pub open spec fn absorb_all(v: SummaryView, qs: Seq<Quote>) -> SummaryView
    decreases qs.len(),
{
    if qs.len() == 0 {
        v
    } else {
        absorb_all(absorb_one(v, qs.first()), qs.drop_first())
    }
}

/// Folding one more quote at the end of a batch is one more step.
pub proof fn lemma_absorb_all_snoc(v: SummaryView, qs: Seq<Quote>, q: Quote)
    ensures
        absorb_all(v, qs.push(q)) == absorb_one(absorb_all(v, qs), q),
    decreases qs.len(),
{
    if qs.len() == 0 {
        assert(qs.push(q).first() == q);
        assert(qs.push(q).drop_first() =~= Seq::<Quote>::empty());
        assert(absorb_all(v, qs) == v);
        assert(absorb_all(absorb_one(v, q), Seq::<Quote>::empty()) == absorb_one(v, q));
    } else {
        assert(qs.push(q).first() == qs.first());
        assert(qs.push(q).drop_first() =~= qs.drop_first().push(q));
        lemma_absorb_all_snoc(absorb_one(v, qs.first()), qs.drop_first(), q);
        assert(absorb_all(v, qs.push(q)) == absorb_all(
            absorb_one(v, qs.first()),
            qs.drop_first().push(q),
        ));
        assert(absorb_all(v, qs) == absorb_all(absorb_one(v, qs.first()), qs.drop_first()));
    }
}

/// Absorbing two batches one after the other is absorbing their
/// concatenation: a summary fed paginated fetches ends exactly where one
/// fed the whole series at once does.
pub proof fn lemma_absorb_batches(v: SummaryView, a: Seq<Quote>, b: Seq<Quote>)
    ensures
        absorb_all(v, a + b) == absorb_all(absorb_all(v, a), b),
    decreases a.len(),
{
    if a.len() == 0 {
        assert(a + b =~= b);
    } else {
        assert((a + b).first() == a.first());
        assert((a + b).drop_first() =~= a.drop_first() + b);
        lemma_absorb_batches(absorb_one(v, a.first()), a.drop_first(), b);
    }
}

/// The per-ticker accumulator. Created empty for a symbol, mutated once per
/// fetched batch, then read.
pub struct TickerSummary {
    symbol: String,
    observed_count: usize,
    running_sum: i128,
    max_high: i64,
    min_low: i64,
    first_timestamp: u64,
    first_price: i64,
    last_timestamp: u64,
    last_price: i64,
}

impl View for TickerSummary {
    type V = SummaryView;

    closed spec fn view(&self) -> SummaryView {
        SummaryView {
            symbol: self.symbol@,
            observed_count: self.observed_count as nat,
            running_sum: self.running_sum as int,
            max_high: self.max_high as int,
            min_low: self.min_low as int,
            first_timestamp: self.first_timestamp as int,
            first_price: self.first_price as int,
            last_timestamp: self.last_timestamp as int,
            last_price: self.last_price as int,
        }
    }
}

impl TickerSummary {
    /// The running sum never drifts outside what `observed_count` prices
    /// can add up to; everything else the struct's field types bound.
    pub open spec fn wf(&self) -> bool {
        (self@.observed_count as int) * (i64::MIN as int) <= self@.running_sum <= (
        self@.observed_count as int) * (i64::MAX as int)
    }

    /// A fresh, empty summary for `symbol`.
    pub fn new(symbol: &str) -> (r: TickerSummary)
        ensures
            r@ == empty_summary(symbol@),
            r.wf(),
    {
        TickerSummary {
            symbol: symbol.to_owned(),
            observed_count: 0,
            running_sum: 0,
            max_high: 0,
            min_low: 0,
            first_timestamp: 0,
            first_price: 0,
            last_timestamp: 0,
            last_price: 0,
        }
    }

    /// Absorb one batch of quotes, in scan order, in a single pass. An
    /// empty batch changes nothing.
    pub fn update_ticker_summary(&mut self, quotes: Vec<Quote>)
        requires
            old(self).wf(),
            old(self)@.observed_count + quotes@.len() <= usize::MAX,
        ensures
            final(self)@ == absorb_all(old(self)@, quotes@),
            final(self).wf(),
    {
        let n = quotes.len();
        let mut i: usize = 0;
        while i < n
            invariant
                n == quotes@.len(),
                0 <= i <= n,
                self@ == absorb_all(old(self)@, quotes@.take(i as int)),
                self.observed_count <= old(self).observed_count + i,
                old(self).observed_count + n <= usize::MAX,
                self.wf(),
            decreases n - i,
        {
            proof {
                assert(quotes@.take(i + 1) =~= quotes@.take(i as int).push(quotes@[i as int]));
                lemma_absorb_all_snoc(old(self)@, quotes@.take(i as int), quotes@[i as int]);
            }
            let q = quotes[i];
            if self.observed_count == 0 {
                self.observed_count = 1;
                self.running_sum = q.adjclose as i128;
                self.max_high = q.high;
                self.min_low = q.low;
                self.first_timestamp = q.timestamp;
                self.first_price = q.adjclose;
                self.last_timestamp = q.timestamp;
                self.last_price = q.adjclose;
            } else {
                self.observed_count = self.observed_count + 1;
                self.running_sum = self.running_sum + q.adjclose as i128;
                if q.high > self.max_high {
                    self.max_high = q.high;
                }
                if q.low < self.min_low {
                    self.min_low = q.low;
                }
                if q.timestamp < self.first_timestamp {
                    self.first_timestamp = q.timestamp;
                    self.first_price = q.adjclose;
                }
                if q.timestamp > self.last_timestamp {
                    self.last_timestamp = q.timestamp;
                    self.last_price = q.adjclose;
                }
            }
            i = i + 1;
            proof {
                assert(self@ =~= absorb_all(old(self)@, quotes@.take(i as int)));
            }
        }
        proof {
            assert(quotes@.take(n as int) =~= quotes@);
        }
    }

    /// Truncated mean of all absorbed adjusted closes; nothing before the
    /// first quote.
    pub fn avg(&self) -> (r: Option<i64>)
        requires
            self.wf(),
        ensures
            r is Some <==> self@.observed_count > 0,
            r matches Some(a) ==> a == div_trunc(self@.running_sum, self@.observed_count as int),
    {
        if self.observed_count == 0 {
            None
        } else {
            proof {
                lemma_mean_in_range(self.running_sum as int, self.observed_count as int);
            }
            let a = div_trunc_i128(self.running_sum, self.observed_count as i128);
            Some(a as i64)
        }
    }

    /// Last price minus first price, by timestamp order; nothing before the
    /// first quote.
    pub fn diff(&self) -> (r: Option<i128>)
        ensures
            r is Some <==> self@.observed_count > 0,
            r matches Some(d) ==> d == self@.last_price - self@.first_price,
    {
        if self.observed_count == 0 {
            None
        } else {
            Some(self.last_price as i128 - self.first_price as i128)
        }
    }

    /// Last price as a percentage of the first, in hundredths of a percent
    /// point; nothing before the first quote, and nothing when the first
    /// price is exactly zero.
    pub fn diff_percent(&self) -> (r: Option<i128>)
        ensures
            r is Some <==> self@.observed_count > 0 && self@.first_price != 0,
            r matches Some(p) ==> p == div_trunc(self@.last_price * 10000, self@.first_price),
    {
        if self.observed_count == 0 || self.first_price == 0 {
            None
        } else {
            Some(div_trunc_i128(self.last_price as i128 * 10000, self.first_price as i128))
        }
    }

    /// The ticker symbol this summary aggregates.
    pub fn symbol(&self) -> (r: &String)
        ensures
            r@ == self@.symbol,
    {
        &self.symbol
    }

    /// How many quotes have been absorbed.
    pub fn observed_count(&self) -> (r: usize)
        ensures
            r == self@.observed_count,
    {
        self.observed_count
    }

    /// Greatest high seen; nothing before the first quote.
    pub fn max_high(&self) -> (r: Option<i64>)
        ensures
            r is Some <==> self@.observed_count > 0,
            r matches Some(m) ==> m == self@.max_high,
    {
        if self.observed_count == 0 {
            None
        } else {
            Some(self.max_high)
        }
    }

    /// Least low seen; nothing before the first quote.
    pub fn min_low(&self) -> (r: Option<i64>)
        ensures
            r is Some <==> self@.observed_count > 0,
            r matches Some(m) ==> m == self@.min_low,
    {
        if self.observed_count == 0 {
            None
        } else {
            Some(self.min_low)
        }
    }

    /// Adjusted close of the earliest quote by timestamp; nothing before
    /// the first quote.
    pub fn first_price(&self) -> (r: Option<i64>)
        ensures
            r is Some <==> self@.observed_count > 0,
            r matches Some(p) ==> p == self@.first_price,
    {
        if self.observed_count == 0 {
            None
        } else {
            Some(self.first_price)
        }
    }

    /// Adjusted close of the latest quote by timestamp; nothing before the
    /// first quote.
    pub fn last_price(&self) -> (r: Option<i64>)
        ensures
            r is Some <==> self@.observed_count > 0,
            r matches Some(p) ==> p == self@.last_price,
    {
        if self.observed_count == 0 {
            None
        } else {
            Some(self.last_price)
        }
    }

    /// Timestamp of the earliest quote, or zero before the first quote.
    pub fn first_timestamp(&self) -> (r: u64)
        ensures
            r == self@.first_timestamp,
    {
        self.first_timestamp
    }

    /// Timestamp of the latest quote, or zero before the first quote.
    pub fn last_timestamp(&self) -> (r: u64)
        ensures
            r == self@.last_timestamp,
    {
        self.last_timestamp
    }

    /// The earliest quote's timestamp as a UTC instant.
    pub fn from_date(&self) -> UtcDateTime
        requires
            self@.first_timestamp <= MAX_UTC_SECONDS,
    {
        UtcDateTime::from_timestamp_secs(self.first_timestamp)
    }

    /// The latest quote's timestamp as a UTC instant.
    pub fn last_date(&self) -> UtcDateTime
        requires
            self@.last_timestamp <= MAX_UTC_SECONDS,
    {
        UtcDateTime::from_timestamp_secs(self.last_timestamp)
    }

    /// Render the summary as its one-line report.
    ///
    /// A summary that never absorbed a quote fails loudly with `NoData`
    /// rather than rendering zeroes; one whose first price is exactly zero
    /// fails with `ZeroFirstPrice`, since its percentage difference is
    /// undefined. The timestamp bound is chrono's own representable range.
    pub fn report_line(&self) -> (r: Result<String, SummaryError>)
        requires
            self.wf(),
            self@.last_timestamp <= MAX_UTC_SECONDS,
        ensures
            self@.observed_count == 0 ==> r == Result::<String, SummaryError>::Err(
                SummaryError::NoData,
            ),
            self@.observed_count > 0 && self@.first_price == 0 ==> r == Result::<
                String,
                SummaryError,
            >::Err(SummaryError::ZeroFirstPrice),
            self@.observed_count > 0 && self@.first_price != 0 ==> (r matches Ok(line)
                && line@ == summary_line_of(self@)),
    {
        if self.observed_count == 0 {
            return Err(SummaryError::NoData);
        }
        let perc = match self.diff_percent() {
            Some(p) => p,
            None => {
                return Err(SummaryError::ZeroFirstPrice);
            },
        };
        let avg = match self.avg() {
            Some(a) => a,
            None => {
                return Err(SummaryError::NoData);
            },
        };
        proof {
            lemma_div_trunc_bound(self@.last_price * 10000, self@.first_price);
        }
        let line = build_report_line(
            self.last_timestamp,
            &self.symbol,
            self.last_price as i128,
            perc,
            self.min_low as i128,
            self.max_high as i128,
            avg as i128,
        );
        Ok(line)
    }
}

} // verus!
