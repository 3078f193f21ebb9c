//! Fan-in of a batch: given each ticker's fetch outcome, assemble the
//! per-ticker results into a symbol-keyed map, skipping failed tickers
//! without failing the batch, and recording a diagnostic for each skip.
//!
//! The fetches themselves - one independent task per ticker - happen
//! outside; this module is the reduce step they feed.

use vstd::prelude::*;
use vstd::string::StringExecFns;

use crate::arith::div_trunc;
use crate::data_processing::max;
use crate::data_processing::min;
use crate::data_processing::n_window_sma;
use crate::data_processing::price_difference;
use crate::data_processing::seq_max;
use crate::data_processing::seq_min;
use crate::data_processing::sma_at;
use crate::quote::Quote;
use crate::symbol_map::SymbolMap;
use crate::ticker_summary::absorb_all;
use crate::ticker_summary::empty_summary;
use crate::ticker_summary::SummaryView;
use crate::ticker_summary::TickerSummary;

verus! {

/// What one ticker's fetch came back with: its quote series, or the
/// transport error's message.
pub struct FetchOutcome {
    pub ticker: String,
    pub outcome: Result<Vec<Quote>, String>,
}

/// Why a ticker is absent from a result map.
pub enum DiagReason {
    /// The fetch itself failed, with the transport error's message.
    FetchFailed(String),
    /// The fetch succeeded but the series could not support the requested
    /// statistic.
    InsufficientData,
}

/// The record kept for each skipped ticker.
pub struct Diagnostic {
    pub ticker: String,
    pub reason: DiagReason,
}

/// A diagnostic, reduced to the ticker it names and the fetch error's
/// message if it carries one.
pub open spec fn diag_entry(d: Diagnostic) -> (Seq<char>, Option<Seq<char>>) {
    (
        d.ticker@,
        match d.reason {
            DiagReason::FetchFailed(m) => Some(m@),
            DiagReason::InsufficientData => None,
        },
    )
}

/// The adjusted-close series of a quote series.
pub open spec fn prices_spec(qs: Seq<Quote>) -> Seq<i64> {
    qs.map_values(|q: Quote| q.adjclose)
}

/// The adjusted-close prices of the quotes, in order.
pub fn get_prices(quotes: &Vec<Quote>) -> (r: Vec<i64>)
    ensures
        r@ == prices_spec(quotes@),
{
    let mut r: Vec<i64> = Vec::new();
    let mut i: usize = 0;
    let n = quotes.len();
    while i < n
        invariant
            n == quotes@.len(),
            0 <= i <= n,
            r@ =~= prices_spec(quotes@.take(i as int)),
        decreases n - i,
    {
        r.push(quotes[i].adjclose);
        proof {
            assert(r@ =~= prices_spec(quotes@.take(i + 1)));
        }
        i = i + 1;
    }
    proof {
        assert(quotes@.take(n as int) =~= quotes@);
    }
    r
}

/// A copy of the quote series (quotes are plain values).
pub fn clone_quotes(quotes: &Vec<Quote>) -> (r: Vec<Quote>)
    ensures
        r@ == quotes@,
{
    let mut r: Vec<Quote> = Vec::new();
    let mut i: usize = 0;
    let n = quotes.len();
    while i < n
        invariant
            n == quotes@.len(),
            0 <= i <= n,
            r@ =~= quotes@.take(i as int),
        decreases n - i,
    {
        r.push(quotes[i]);
        proof {
            assert(r@ =~= quotes@.take(i + 1));
        }
        i = i + 1;
    }
    proof {
        assert(quotes@.take(n as int) =~= quotes@);
    }
    r
}

/// The result map of the greatest-price operation: one entry per ticker
/// whose fetch succeeded with a non-empty series, the last occurrence of a
/// duplicated ticker winning.
pub open spec fn max_map(os: Seq<FetchOutcome>) -> Map<Seq<char>, i64>
    decreases os.len(),
{
    if os.len() == 0 {
        Map::empty()
    } else {
        let prev = max_map(os.drop_last());
        match os.last().outcome {
            Ok(qs) => if qs@.len() > 0 {
                prev.insert(os.last().ticker@, seq_max(prices_spec(qs@)))
            } else {
                prev
            },
            Err(_) => prev,
        }
    }
}

/// The result map of the least-price operation, built like `max_map`.
pub open spec fn min_map(os: Seq<FetchOutcome>) -> Map<Seq<char>, i64>
    decreases os.len(),
{
    if os.len() == 0 {
        Map::empty()
    } else {
        let prev = min_map(os.drop_last());
        match os.last().outcome {
            Ok(qs) => if qs@.len() > 0 {
                prev.insert(os.last().ticker@, seq_min(prices_spec(qs@)))
            } else {
                prev
            },
            Err(_) => prev,
        }
    }
}

/// The diagnostics of an operation that needs a non-empty series: one per
/// failed fetch (with its message) and one per empty series, in scan
/// order.
pub open spec fn series_stat_diags(os: Seq<FetchOutcome>) -> Seq<(Seq<char>, Option<Seq<char>>)>
    decreases os.len(),
{
    if os.len() == 0 {
        Seq::empty()
    } else {
        let prev = series_stat_diags(os.drop_last());
        match os.last().outcome {
            Ok(qs) => if qs@.len() > 0 {
                prev
            } else {
                prev.push((os.last().ticker@, None))
            },
            Err(m) => prev.push((os.last().ticker@, Some(m@))),
        }
    }
}

/// Greatest adjusted close per ticker. Tickers whose fetch failed, and
/// tickers with no quotes at all, are absent from the map and named in the
/// diagnostics instead; they never fail the batch.
pub fn get_max_prices(outcomes: Vec<FetchOutcome>) -> (r: (SymbolMap<i64>, Vec<Diagnostic>))
    ensures
        r.0@ == max_map(outcomes@),
        r.0.wf(),
        r.1@.map_values(|d: Diagnostic| diag_entry(d)) == series_stat_diags(outcomes@),
{
    let mut result: SymbolMap<i64> = SymbolMap::new();
    let mut diags: Vec<Diagnostic> = Vec::new();
    let n = outcomes.len();
    let mut i: usize = 0;
    while i < n
        invariant
            n == outcomes@.len(),
            0 <= i <= n,
            result.wf(),
            result@ == max_map(outcomes@.take(i as int)),
            diags@.map_values(|d: Diagnostic| diag_entry(d)) =~= series_stat_diags(
                outcomes@.take(i as int),
            ),
        decreases n - i,
    {
        proof {
            assert(outcomes@.take(i + 1).drop_last() =~= outcomes@.take(i as int));
            assert(outcomes@.take(i + 1).last() == outcomes@[i as int]);
        }
        let o = &outcomes[i];
        match &o.outcome {
            Ok(qs) => {
                let prices = get_prices(qs);
                match max(&prices) {
                    Some(m) => {
                        result.insert(o.ticker.clone(), m);
                    },
                    None => {
                        diags.push(
                            Diagnostic { ticker: o.ticker.clone(), reason: DiagReason::InsufficientData },
                        );
                    },
                }
            },
            Err(msg) => {
                diags.push(
                    Diagnostic {
                        ticker: o.ticker.clone(),
                        reason: DiagReason::FetchFailed(msg.clone()),
                    },
                );
            },
        }
        i = i + 1;
        proof {
            assert(diags@.map_values(|d: Diagnostic| diag_entry(d)) =~= series_stat_diags(
                outcomes@.take(i as int),
            ));
        }
    }
    proof {
        assert(outcomes@.take(n as int) =~= outcomes@);
    }
    (result, diags)
}

/// Least adjusted close per ticker, with the same skip policy as
/// `get_max_prices`.
pub fn get_min_prices(outcomes: Vec<FetchOutcome>) -> (r: (SymbolMap<i64>, Vec<Diagnostic>))
    ensures
        r.0@ == min_map(outcomes@),
        r.0.wf(),
        r.1@.map_values(|d: Diagnostic| diag_entry(d)) == series_stat_diags(outcomes@),
{
    let mut result: SymbolMap<i64> = SymbolMap::new();
    let mut diags: Vec<Diagnostic> = Vec::new();
    let n = outcomes.len();
    let mut i: usize = 0;
    while i < n
        invariant
            n == outcomes@.len(),
            0 <= i <= n,
            result.wf(),
            result@ == min_map(outcomes@.take(i as int)),
            diags@.map_values(|d: Diagnostic| diag_entry(d)) =~= series_stat_diags(
                outcomes@.take(i as int),
            ),
        decreases n - i,
    {
        proof {
            assert(outcomes@.take(i + 1).drop_last() =~= outcomes@.take(i as int));
            assert(outcomes@.take(i + 1).last() == outcomes@[i as int]);
        }
        let o = &outcomes[i];
        match &o.outcome {
            Ok(qs) => {
                let prices = get_prices(qs);
                match min(&prices) {
                    Some(m) => {
                        result.insert(o.ticker.clone(), m);
                    },
                    None => {
                        diags.push(
                            Diagnostic { ticker: o.ticker.clone(), reason: DiagReason::InsufficientData },
                        );
                    },
                }
            },
            Err(msg) => {
                diags.push(
                    Diagnostic {
                        ticker: o.ticker.clone(),
                        reason: DiagReason::FetchFailed(msg.clone()),
                    },
                );
            },
        }
        i = i + 1;
        proof {
            assert(diags@.map_values(|d: Diagnostic| diag_entry(d)) =~= series_stat_diags(
                outcomes@.take(i as int),
            ));
        }
    }
    proof {
        assert(outcomes@.take(n as int) =~= outcomes@);
    }
    (result, diags)
}

/// The result map of the price-difference operation: for each ticker whose
/// fetch succeeded and whose series has at least two prices and a positive
/// first one, the pair of percentage (hundredths of a percent point) and
/// absolute difference.
pub open spec fn diff_map(os: Seq<FetchOutcome>) -> Map<Seq<char>, (i128, i128)>
    decreases os.len(),
{
    if os.len() == 0 {
        Map::empty()
    } else {
        let prev = diff_map(os.drop_last());
        match os.last().outcome {
            Ok(qs) => {
                let p = prices_spec(qs@);
                if p.len() >= 2 && p[0] > 0 {
                    prev.insert(
                        os.last().ticker@,
                        (
                            div_trunc(p.last() * 10000, p[0] as int) as i128,
                            (p.last() - p[0]) as i128,
                        ),
                    )
                } else {
                    prev
                }
            },
            Err(_) => prev,
        }
    }
}

/// The diagnostics of the price-difference operation: failed fetches with
/// their message, and series the difference is undefined for.
pub open spec fn diff_diags(os: Seq<FetchOutcome>) -> Seq<(Seq<char>, Option<Seq<char>>)>
    decreases os.len(),
{
    if os.len() == 0 {
        Seq::empty()
    } else {
        let prev = diff_diags(os.drop_last());
        match os.last().outcome {
            Ok(qs) => {
                let p = prices_spec(qs@);
                if p.len() >= 2 && p[0] > 0 {
                    prev
                } else {
                    prev.push((os.last().ticker@, None))
                }
            },
            Err(m) => prev.push((os.last().ticker@, Some(m@))),
        }
    }
}

/// Percentage and absolute price difference per ticker. Tickers whose
/// fetch failed, and tickers whose series cannot support the difference,
/// are skipped with a diagnostic.
pub fn get_price_differences(outcomes: Vec<FetchOutcome>) -> (r: (
    SymbolMap<(i128, i128)>,
    Vec<Diagnostic>,
))
    ensures
        r.0@ == diff_map(outcomes@),
        r.0.wf(),
        r.1@.map_values(|d: Diagnostic| diag_entry(d)) == diff_diags(outcomes@),
{
    let mut result: SymbolMap<(i128, i128)> = SymbolMap::new();
    let mut diags: Vec<Diagnostic> = Vec::new();
    let n = outcomes.len();
    let mut i: usize = 0;
    while i < n
        invariant
            n == outcomes@.len(),
            0 <= i <= n,
            result.wf(),
            result@ == diff_map(outcomes@.take(i as int)),
            diags@.map_values(|d: Diagnostic| diag_entry(d)) =~= diff_diags(
                outcomes@.take(i as int),
            ),
        decreases n - i,
    {
        proof {
            assert(outcomes@.take(i + 1).drop_last() =~= outcomes@.take(i as int));
            assert(outcomes@.take(i + 1).last() == outcomes@[i as int]);
        }
        let o = &outcomes[i];
        match &o.outcome {
            Ok(qs) => {
                let prices = get_prices(qs);
                match price_difference(&prices) {
                    Some(pd) => {
                        result.insert(o.ticker.clone(), pd);
                    },
                    None => {
                        diags.push(
                            Diagnostic { ticker: o.ticker.clone(), reason: DiagReason::InsufficientData },
                        );
                    },
                }
            },
            Err(msg) => {
                diags.push(
                    Diagnostic {
                        ticker: o.ticker.clone(),
                        reason: DiagReason::FetchFailed(msg.clone()),
                    },
                );
            },
        }
        i = i + 1;
        proof {
            assert(diags@.map_values(|d: Diagnostic| diag_entry(d)) =~= diff_diags(
                outcomes@.take(i as int),
            ));
        }
    }
    proof {
        assert(outcomes@.take(n as int) =~= outcomes@);
    }
    (result, diags)
}

/// The sliding-window averages of a series, one per window position.
pub open spec fn sma_windows(s: Seq<i64>, n: int) -> Seq<i64>
    recommends
        1 <= n <= s.len(),
{
    Seq::new((s.len() - n + 1) as nat, |i: int| sma_at(s, i, n) as i64)
}

/// The result map of the sliding-window operation, defined over the
/// tickers whose series can satisfy the window.
pub open spec fn sma_map(os: Seq<FetchOutcome>, n: int) -> Map<Seq<char>, Seq<i64>>
    decreases os.len(),
{
    if os.len() == 0 {
        Map::empty()
    } else {
        let prev = sma_map(os.drop_last(), n);
        match os.last().outcome {
            Ok(qs) => if 1 <= n <= qs@.len() {
                prev.insert(os.last().ticker@, sma_windows(prices_spec(qs@), n))
            } else {
                prev
            },
            Err(_) => prev,
        }
    }
}

/// The diagnostics that only name failed fetches.
pub open spec fn fetch_diags(os: Seq<FetchOutcome>) -> Seq<(Seq<char>, Option<Seq<char>>)>
    decreases os.len(),
{
    if os.len() == 0 {
        Seq::empty()
    } else {
        let prev = fetch_diags(os.drop_last());
        match os.last().outcome {
            Ok(_) => prev,
            Err(m) => prev.push((os.last().ticker@, Some(m@))),
        }
    }
}

/// Whether some successfully fetched series cannot satisfy the window -
/// the condition that fails the whole sliding-window batch.
pub open spec fn sma_fails(os: Seq<FetchOutcome>, n: int) -> bool {
    exists|i: int|
        0 <= i < os.len() && ((#[trigger] os[i]).outcome matches Ok(qs) && !(1 <= n <= qs@.len()))
}

/// Sliding-window averages per ticker. A failed fetch only skips its
/// ticker, but a window that no fetched series of the batch can satisfy
/// (or a window of zero) fails the whole batch with a descriptive error -
/// the one operation with that stricter policy.
pub fn get_sma_windows(outcomes: Vec<FetchOutcome>, window: usize) -> (r: Result<
    (SymbolMap<Vec<i64>>, Vec<Diagnostic>),
    String,
>)
    ensures
        r is Err <==> sma_fails(outcomes@, window as int),
        r matches Err(m) ==> m@ == "Sliding window did return None as a result."@,
        r matches Ok(pair) ==> {
            &&& pair.0.wf()
            &&& pair.0@.dom() == sma_map(outcomes@, window as int).dom()
            &&& forall|k: Seq<char>|
                pair.0@.contains_key(k) ==> (#[trigger] pair.0@[k])@ == sma_map(
                    outcomes@,
                    window as int,
                )[k]
            &&& pair.1@.map_values(|d: Diagnostic| diag_entry(d)) == fetch_diags(outcomes@)
        },
{
    let mut result: SymbolMap<Vec<i64>> = SymbolMap::new();
    let mut diags: Vec<Diagnostic> = Vec::new();
    let n = outcomes.len();
    let mut i: usize = 0;
    while i < n
        invariant
            n == outcomes@.len(),
            0 <= i <= n,
            result.wf(),
            !sma_fails(outcomes@.take(i as int), window as int),
            result@.dom() =~= sma_map(outcomes@.take(i as int), window as int).dom(),
            forall|k: Seq<char>|
                result@.contains_key(k) ==> (#[trigger] result@[k])@ == sma_map(
                    outcomes@.take(i as int),
                    window as int,
                )[k],
            diags@.map_values(|d: Diagnostic| diag_entry(d)) =~= fetch_diags(
                outcomes@.take(i as int),
            ),
        decreases n - i,
    {
        proof {
            assert(outcomes@.take(i + 1).drop_last() =~= outcomes@.take(i as int));
            assert(outcomes@.take(i + 1).last() == outcomes@[i as int]);
        }
        let o = &outcomes[i];
        match &o.outcome {
            Ok(qs) => {
                let prices = get_prices(qs);
                match n_window_sma(window, &prices) {
                    Some(v) => {
                        proof {
                            assert(v@ =~= sma_windows(prices_spec(qs@), window as int));
                        }
                        result.insert(o.ticker.clone(), v);
                    },
                    None => {
                        proof {
                            assert((outcomes@[i as int]).outcome matches Ok(q) && !(1 <= window
                                <= q@.len()));
                        }
                        return Err(
                            String::from_str("Sliding window did return None as a result."),
                        );
                    },
                }
            },
            Err(msg) => {
                diags.push(
                    Diagnostic {
                        ticker: o.ticker.clone(),
                        reason: DiagReason::FetchFailed(msg.clone()),
                    },
                );
            },
        }
        i = i + 1;
        proof {
            assert(!sma_fails(outcomes@.take(i as int), window as int)) by {
                let pre = outcomes@.take((i - 1) as int);
                let cur = outcomes@.take(i as int);
                assert forall|j: int|
                    0 <= j < cur.len() implies !((#[trigger] cur[j]).outcome matches Ok(qs) && !(1
                    <= window <= qs@.len())) by {
                    if j < i - 1 {
                        assert(pre[j] == cur[j]);
                        assert(!((pre[j]).outcome matches Ok(qs) && !(1 <= window <= qs@.len())));
                    }
                }
            }
            assert(diags@.map_values(|d: Diagnostic| diag_entry(d)) =~= fetch_diags(
                outcomes@.take(i as int),
            ));
        }
    }
    proof {
        assert(outcomes@.take(n as int) =~= outcomes@);
    }
    Ok((result, diags))
}

/// The abstract result map of the summary operation: a summary view per
/// successfully fetched ticker, each fed that ticker's series from
/// scratch.
pub open spec fn summary_map_spec(os: Seq<FetchOutcome>) -> Map<Seq<char>, SummaryView>
    decreases os.len(),
{
    if os.len() == 0 {
        Map::empty()
    } else {
        let prev = summary_map_spec(os.drop_last());
        match os.last().outcome {
            Ok(qs) => prev.insert(
                os.last().ticker@,
                absorb_all(empty_summary(os.last().ticker@), qs@),
            ),
            Err(_) => prev,
        }
    }
}

/// A fresh summary per ticker, each fed its own fetched series; a failed
/// fetch only skips its ticker. A fetched-but-empty series still gets an
/// entry - its summary reports "no data" when read.
pub fn get_ticker_summary(outcomes: Vec<FetchOutcome>) -> (r: (
    SymbolMap<TickerSummary>,
    Vec<Diagnostic>,
))
    ensures
        r.0.wf(),
        r.0@.dom() == summary_map_spec(outcomes@).dom(),
        forall|k: Seq<char>|
            r.0@.contains_key(k) ==> (#[trigger] r.0@[k])@ == summary_map_spec(outcomes@)[k]
                && r.0@[k].wf(),
        r.1@.map_values(|d: Diagnostic| diag_entry(d)) == fetch_diags(outcomes@),
{
    let mut result: SymbolMap<TickerSummary> = SymbolMap::new();
    let mut diags: Vec<Diagnostic> = Vec::new();
    let n = outcomes.len();
    let mut i: usize = 0;
    while i < n
        invariant
            n == outcomes@.len(),
            0 <= i <= n,
            result.wf(),
            result@.dom() =~= summary_map_spec(outcomes@.take(i as int)).dom(),
            forall|k: Seq<char>|
                result@.contains_key(k) ==> (#[trigger] result@[k])@ == summary_map_spec(
                    outcomes@.take(i as int),
                )[k] && result@[k].wf(),
            diags@.map_values(|d: Diagnostic| diag_entry(d)) =~= fetch_diags(
                outcomes@.take(i as int),
            ),
        decreases n - i,
    {
        proof {
            assert(outcomes@.take(i + 1).drop_last() =~= outcomes@.take(i as int));
            assert(outcomes@.take(i + 1).last() == outcomes@[i as int]);
        }
        let o = &outcomes[i];
        match &o.outcome {
            Ok(qs) => {
                let mut summary = TickerSummary::new(o.ticker.as_str());
                let batch = clone_quotes(qs);
                proof {
                    vstd::std_specs::vec::axiom_spec_len(&batch);
                }
                summary.update_ticker_summary(batch);
                result.insert(o.ticker.clone(), summary);
            },
            Err(msg) => {
                diags.push(
                    Diagnostic {
                        ticker: o.ticker.clone(),
                        reason: DiagReason::FetchFailed(msg.clone()),
                    },
                );
            },
        }
        i = i + 1;
        proof {
            assert(diags@.map_values(|d: Diagnostic| diag_entry(d)) =~= fetch_diags(
                outcomes@.take(i as int),
            ));
        }
    }
    proof {
        assert(outcomes@.take(n as int) =~= outcomes@);
    }
    (result, diags)
}

} // verus!
