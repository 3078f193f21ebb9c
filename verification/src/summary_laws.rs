//! Laws of the summary aggregator: what a summary holds after absorbing a
//! whole series, and that the order batches arrive in cannot matter when
//! timestamps tell first and last apart.

use vstd::prelude::*;

use crate::quote::Quote;
use crate::ticker_summary::absorb_all;
use crate::ticker_summary::absorb_one;
use crate::ticker_summary::lemma_absorb_all_snoc;
use crate::ticker_summary::SummaryView;

verus! {

/// Sum of the adjusted closes of a series.
pub open spec fn qsum(qs: Seq<Quote>) -> int
    decreases qs.len(),
{
    if qs.len() == 0 {
        0
    } else {
        qsum(qs.drop_last()) + qs.last().adjclose
    }
}

/// Greatest high of a non-empty series.
pub open spec fn qmax_high(qs: Seq<Quote>) -> int
    recommends
        qs.len() > 0,
    decreases qs.len(),
{
    if qs.len() <= 1 {
        qs[0].high as int
    } else if qs.last().high > qmax_high(qs.drop_last()) {
        qs.last().high as int
    } else {
        qmax_high(qs.drop_last())
    }
}

/// Least low of a non-empty series.
pub open spec fn qmin_low(qs: Seq<Quote>) -> int
    recommends
        qs.len() > 0,
    decreases qs.len(),
{
    if qs.len() <= 1 {
        qs[0].low as int
    } else if qs.last().low < qmin_low(qs.drop_last()) {
        qs.last().low as int
    } else {
        qmin_low(qs.drop_last())
    }
}

/// Least timestamp of a non-empty series.
pub open spec fn qmin_ts(qs: Seq<Quote>) -> int
    recommends
        qs.len() > 0,
    decreases qs.len(),
{
    if qs.len() <= 1 {
        qs[0].timestamp as int
    } else if qs.last().timestamp < qmin_ts(qs.drop_last()) {
        qs.last().timestamp as int
    } else {
        qmin_ts(qs.drop_last())
    }
}

/// Greatest timestamp of a non-empty series.
pub open spec fn qmax_ts(qs: Seq<Quote>) -> int
    recommends
        qs.len() > 0,
    decreases qs.len(),
{
    if qs.len() <= 1 {
        qs[0].timestamp as int
    } else if qs.last().timestamp > qmax_ts(qs.drop_last()) {
        qs.last().timestamp as int
    } else {
        qmax_ts(qs.drop_last())
    }
}

/// No two quotes of the series share a timestamp.
pub open spec fn distinct_ts(qs: Seq<Quote>) -> bool {
    forall|i: int, j: int|
        0 <= i < j < qs.len() ==> (#[trigger] qs[i]).timestamp != (#[trigger] qs[j]).timestamp
}

/// The adjusted close of the quote carrying timestamp `t`.
pub open spec fn price_at_ts(qs: Seq<Quote>, t: int) -> int {
    let i = choose|i: int| 0 <= i < qs.len() && (#[trigger] qs[i]).timestamp == t;
    qs[i].adjclose as int
}

/// `qmin_ts` is attained, and no timestamp is below it.
pub proof fn lemma_qmin_ts_attained(qs: Seq<Quote>)
    requires
        qs.len() > 0,
    ensures
        exists|i: int| 0 <= i < qs.len() && (#[trigger] qs[i]).timestamp == qmin_ts(qs),
        forall|i: int| 0 <= i < qs.len() ==> (#[trigger] qs[i]).timestamp >= qmin_ts(qs),
    decreases qs.len(),
{
    if qs.len() > 1 {
        lemma_qmin_ts_attained(qs.drop_last());
        assert forall|i: int| 0 <= i < qs.len() implies (#[trigger] qs[i]).timestamp >= qmin_ts(
            qs,
        ) by {
            if i < qs.len() - 1 {
                assert(qs.drop_last()[i] == qs[i]);
            }
        }
        if qs.last().timestamp >= qmin_ts(qs.drop_last()) {
            let j = choose|j: int|
                0 <= j < qs.drop_last().len() && (#[trigger] qs.drop_last()[j]).timestamp
                    == qmin_ts(qs.drop_last());
            assert(qs[j].timestamp == qmin_ts(qs));
        } else {
            assert(qs[qs.len() - 1].timestamp == qmin_ts(qs));
        }
    } else {
        assert(qs[0].timestamp == qmin_ts(qs));
    }
}

/// `qmax_ts` is attained, and no timestamp is above it.
pub proof fn lemma_qmax_ts_attained(qs: Seq<Quote>)
    requires
        qs.len() > 0,
    ensures
        exists|i: int| 0 <= i < qs.len() && (#[trigger] qs[i]).timestamp == qmax_ts(qs),
        forall|i: int| 0 <= i < qs.len() ==> (#[trigger] qs[i]).timestamp <= qmax_ts(qs),
    decreases qs.len(),
{
    if qs.len() > 1 {
        lemma_qmax_ts_attained(qs.drop_last());
        assert forall|i: int| 0 <= i < qs.len() implies (#[trigger] qs[i]).timestamp <= qmax_ts(
            qs,
        ) by {
            if i < qs.len() - 1 {
                assert(qs.drop_last()[i] == qs[i]);
            }
        }
        if qs.last().timestamp <= qmax_ts(qs.drop_last()) {
            let j = choose|j: int|
                0 <= j < qs.drop_last().len() && (#[trigger] qs.drop_last()[j]).timestamp
                    == qmax_ts(qs.drop_last());
            assert(qs[j].timestamp == qmax_ts(qs));
        } else {
            assert(qs[qs.len() - 1].timestamp == qmax_ts(qs));
        }
    } else {
        assert(qs[0].timestamp == qmax_ts(qs));
    }
}

/// In a series with distinct timestamps, the price at a carried timestamp
/// is the price of whichever quote carries it.
pub proof fn lemma_price_at_ts_unique(qs: Seq<Quote>, i: int)
    requires
        distinct_ts(qs),
        0 <= i < qs.len(),
    ensures
        price_at_ts(qs, qs[i].timestamp as int) == qs[i].adjclose as int,
{
    let t = qs[i].timestamp as int;
    assert(0 <= i < qs.len() && (qs[i]).timestamp == t);
    let j = choose|j: int| 0 <= j < qs.len() && (#[trigger] qs[j]).timestamp == t;
    if i != j {
        if i < j {
            assert(qs[i].timestamp != qs[j].timestamp);
        } else {
            assert(qs[j].timestamp != qs[i].timestamp);
        }
    }
}

/// What a fresh summary holds after absorbing a whole series with distinct
/// timestamps: the count and sum of the series, its greatest high and
/// least low, and the prices at its least and greatest timestamps.
pub proof fn lemma_absorb_characterization(v: SummaryView, qs: Seq<Quote>)
    requires
        v.observed_count == 0,
        distinct_ts(qs),
        qs.len() > 0,
    ensures
        absorb_all(v, qs) == (SummaryView {
            symbol: v.symbol,
            observed_count: qs.len(),
            running_sum: qsum(qs),
            max_high: qmax_high(qs),
            min_low: qmin_low(qs),
            first_timestamp: qmin_ts(qs),
            first_price: price_at_ts(qs, qmin_ts(qs)),
            last_timestamp: qmax_ts(qs),
            last_price: price_at_ts(qs, qmax_ts(qs)),
        }),
    decreases qs.len(),
{
    let prefix = qs.drop_last();
    let q = qs.last();
    assert(qs =~= prefix.push(q));
    lemma_absorb_all_snoc(v, prefix, q);
    if qs.len() == 1 {
        assert(absorb_all(v, qs) == absorb_one(v, q));
        lemma_price_at_ts_unique(qs, 0);
    } else {
        assert(distinct_ts(prefix)) by {
            assert forall|i: int, j: int|
                0 <= i < j < prefix.len() implies (#[trigger] prefix[i]).timestamp != (
            #[trigger] prefix[j]).timestamp by {
                assert(qs[i].timestamp != qs[j].timestamp);
            }
        }
        lemma_absorb_characterization(v, prefix);
        lemma_qmin_ts_attained(prefix);
        lemma_qmax_ts_attained(prefix);
        // The new quote's timestamp differs from every prefix timestamp,
        // in particular from the attained extremes.
        let jmin = choose|j: int|
            0 <= j < prefix.len() && (#[trigger] prefix[j]).timestamp == qmin_ts(prefix);
        let jmax = choose|j: int|
            0 <= j < prefix.len() && (#[trigger] prefix[j]).timestamp == qmax_ts(prefix);
        assert(qs[jmin].timestamp != q.timestamp);
        assert(qs[jmax].timestamp != q.timestamp);
        if (q.timestamp as int) < qmin_ts(prefix) {
            lemma_price_at_ts_unique(qs, qs.len() - 1);
        } else {
            assert(qmin_ts(qs) == qmin_ts(prefix));
            lemma_price_at_ts_unique(qs, jmin);
            assert(qs[jmin].timestamp == qmin_ts(qs));
            assert(price_at_ts(qs, qmin_ts(qs)) == prefix[jmin].adjclose as int);
            lemma_price_at_ts_unique(prefix, jmin);
        }
        if (q.timestamp as int) > qmax_ts(prefix) {
            lemma_price_at_ts_unique(qs, qs.len() - 1);
        } else {
            assert(qmax_ts(qs) == qmax_ts(prefix));
            lemma_price_at_ts_unique(qs, jmax);
            assert(qs[jmax].timestamp == qmax_ts(qs));
            assert(price_at_ts(qs, qmax_ts(qs)) == prefix[jmax].adjclose as int);
            lemma_price_at_ts_unique(prefix, jmax);
        }
    }
}

/// The sum of a concatenation is the sum of the parts.
pub proof fn lemma_qsum_append(a: Seq<Quote>, b: Seq<Quote>)
    ensures
        qsum(a + b) == qsum(a) + qsum(b),
    decreases b.len(),
{
    if b.len() == 0 {
        assert(a + b =~= a);
    } else {
        assert((a + b).drop_last() =~= a + b.drop_last());
        lemma_qsum_append(a, b.drop_last());
    }
}

/// The greatest high of a concatenation of non-empty parts is the greater
/// of the parts' greatest highs.
pub proof fn lemma_qmax_high_append(a: Seq<Quote>, b: Seq<Quote>)
    requires
        a.len() > 0,
        b.len() > 0,
    ensures
        qmax_high(a + b) == if qmax_high(a) >= qmax_high(b) {
            qmax_high(a)
        } else {
            qmax_high(b)
        },
    decreases b.len(),
{
    if b.len() == 1 {
        assert((a + b).drop_last() =~= a);
    } else {
        assert((a + b).drop_last() =~= a + b.drop_last());
        lemma_qmax_high_append(a, b.drop_last());
    }
}

/// The least low of a concatenation of non-empty parts.
pub proof fn lemma_qmin_low_append(a: Seq<Quote>, b: Seq<Quote>)
    requires
        a.len() > 0,
        b.len() > 0,
    ensures
        qmin_low(a + b) == if qmin_low(a) <= qmin_low(b) {
            qmin_low(a)
        } else {
            qmin_low(b)
        },
    decreases b.len(),
{
    if b.len() == 1 {
        assert((a + b).drop_last() =~= a);
    } else {
        assert((a + b).drop_last() =~= a + b.drop_last());
        lemma_qmin_low_append(a, b.drop_last());
    }
}

/// The least timestamp of a concatenation of non-empty parts.
pub proof fn lemma_qmin_ts_append(a: Seq<Quote>, b: Seq<Quote>)
    requires
        a.len() > 0,
        b.len() > 0,
    ensures
        qmin_ts(a + b) == if qmin_ts(a) <= qmin_ts(b) {
            qmin_ts(a)
        } else {
            qmin_ts(b)
        },
    decreases b.len(),
{
    if b.len() == 1 {
        assert((a + b).drop_last() =~= a);
    } else {
        assert((a + b).drop_last() =~= a + b.drop_last());
        lemma_qmin_ts_append(a, b.drop_last());
    }
}

/// The greatest timestamp of a concatenation of non-empty parts.
pub proof fn lemma_qmax_ts_append(a: Seq<Quote>, b: Seq<Quote>)
    requires
        a.len() > 0,
        b.len() > 0,
    ensures
        qmax_ts(a + b) == if qmax_ts(a) >= qmax_ts(b) {
            qmax_ts(a)
        } else {
            qmax_ts(b)
        },
    decreases b.len(),
{
    if b.len() == 1 {
        assert((a + b).drop_last() =~= a);
    } else {
        assert((a + b).drop_last() =~= a + b.drop_last());
        lemma_qmax_ts_append(a, b.drop_last());
    }
}

/// Distinctness of timestamps survives swapping the two parts.
pub proof fn lemma_distinct_ts_comm(a: Seq<Quote>, b: Seq<Quote>)
    requires
        distinct_ts(a + b),
    ensures
        distinct_ts(b + a),
{
    assert forall|i: int, j: int|
        0 <= i < j < (b + a).len() implies (#[trigger] (b + a)[i]).timestamp != (
    #[trigger] (b + a)[j]).timestamp by {
        let bl = b.len() as int;
        let al = a.len() as int;
        let i2: int = if i < bl {
            al + i
        } else {
            i - bl
        };
        let j2: int = if j < bl {
            al + j
        } else {
            j - bl
        };
        assert((b + a)[i] == (a + b)[i2]);
        assert((b + a)[j] == (a + b)[j2]);
        if i2 < j2 {
            assert((a + b)[i2].timestamp != (a + b)[j2].timestamp);
        } else {
            assert((a + b)[j2].timestamp != (a + b)[i2].timestamp);
        }
    }
}

/// A price looked up by a timestamp both concatenations carry is the same
/// in either.
proof fn lemma_price_at_ts_comm(a: Seq<Quote>, b: Seq<Quote>, i: int)
    requires
        distinct_ts(a + b),
        0 <= i < (a + b).len(),
    ensures
        price_at_ts(b + a, (a + b)[i].timestamp as int) == price_at_ts(
            a + b,
            (a + b)[i].timestamp as int,
        ),
{
    lemma_distinct_ts_comm(a, b);
    let bl = b.len() as int;
    let al = a.len() as int;
    let i2: int = if i < al {
        bl + i
    } else {
        i - al
    };
    assert((a + b)[i] == (b + a)[i2]);
    lemma_price_at_ts_unique(a + b, i);
    lemma_price_at_ts_unique(b + a, i2);
}

/// Absorbing two batches into a fresh summary gives the same state in
/// either order, whenever the timestamps across both batches are pairwise
/// distinct - order can only matter for breaking timestamp ties.
pub proof fn lemma_absorb_order_independent(v: SummaryView, a: Seq<Quote>, b: Seq<Quote>)
    requires
        v.observed_count == 0,
        distinct_ts(a + b),
    ensures
        absorb_all(v, a + b) == absorb_all(v, b + a),
{
    if a.len() == 0 {
        assert(a + b =~= b);
        assert(b + a =~= b);
    } else if b.len() == 0 {
        assert(a + b =~= a);
        assert(b + a =~= a);
    } else {
        lemma_distinct_ts_comm(a, b);
        lemma_absorb_characterization(v, a + b);
        lemma_absorb_characterization(v, b + a);
        lemma_qsum_append(a, b);
        lemma_qsum_append(b, a);
        lemma_qmax_high_append(a, b);
        lemma_qmax_high_append(b, a);
        lemma_qmin_low_append(a, b);
        lemma_qmin_low_append(b, a);
        lemma_qmin_ts_append(a, b);
        lemma_qmin_ts_append(b, a);
        lemma_qmax_ts_append(a, b);
        lemma_qmax_ts_append(b, a);
        lemma_qmin_ts_attained(a + b);
        lemma_qmax_ts_attained(a + b);
        let imin = choose|i: int|
            0 <= i < (a + b).len() && (#[trigger] (a + b)[i]).timestamp == qmin_ts(a + b);
        let imax = choose|i: int|
            0 <= i < (a + b).len() && (#[trigger] (a + b)[i]).timestamp == qmax_ts(a + b);
        lemma_price_at_ts_comm(a, b, imin);
        lemma_price_at_ts_comm(a, b, imax);
    }
}

} // verus!
