//! Stateless statistics over a price series: greatest and least price,
//! sliding-window averages, and the start-to-end price difference.
//!
//! A series is a `Vec<i64>` of fixed-point prices in hundredths; positions
//! carry the order in which the samples were received.

use vstd::prelude::*;

use crate::arith::div_trunc;
use crate::arith::div_trunc_i128;

verus! {

/// The greatest element of a non-empty sequence.
pub open spec fn seq_max(s: Seq<i64>) -> i64
    recommends
        s.len() > 0,
    decreases s.len(),
{
    if s.len() <= 1 {
        s[0]
    } else if s.last() > seq_max(s.drop_last()) {
        s.last()
    } else {
        seq_max(s.drop_last())
    }
}

/// The least element of a non-empty sequence.
pub open spec fn seq_min(s: Seq<i64>) -> i64
    recommends
        s.len() > 0,
    decreases s.len(),
{
    if s.len() <= 1 {
        s[0]
    } else if s.last() < seq_min(s.drop_last()) {
        s.last()
    } else {
        seq_min(s.drop_last())
    }
}

/// `seq_max` is an element of the sequence, and no element exceeds it.
pub proof fn lemma_seq_max_is_greatest(s: Seq<i64>)
    requires
        s.len() > 0,
    ensures
        s.contains(seq_max(s)),
        forall|i: int| 0 <= i < s.len() ==> s[i] <= seq_max(s),
    decreases s.len(),
{
    if s.len() > 1 {
        lemma_seq_max_is_greatest(s.drop_last());
        assert forall|i: int| 0 <= i < s.len() implies s[i] <= seq_max(s) by {
            if i < s.len() - 1 {
                assert(s.drop_last()[i] == s[i]);
            }
        }
        if s.last() <= seq_max(s.drop_last()) {
            let j = choose|j: int| 0 <= j < s.drop_last().len() && s.drop_last()[j] == seq_max(
                s.drop_last(),
            );
            assert(s[j] == seq_max(s));
        }
    }
}

/// `seq_min` is an element of the sequence, and no element is below it.
pub proof fn lemma_seq_min_is_least(s: Seq<i64>)
    requires
        s.len() > 0,
    ensures
        s.contains(seq_min(s)),
        forall|i: int| 0 <= i < s.len() ==> s[i] >= seq_min(s),
    decreases s.len(),
{
    if s.len() > 1 {
        lemma_seq_min_is_least(s.drop_last());
        assert forall|i: int| 0 <= i < s.len() implies s[i] >= seq_min(s) by {
            if i < s.len() - 1 {
                assert(s.drop_last()[i] == s[i]);
            }
        }
        if s.last() >= seq_min(s.drop_last()) {
            let j = choose|j: int| 0 <= j < s.drop_last().len() && s.drop_last()[j] == seq_min(
                s.drop_last(),
            );
            assert(s[j] == seq_min(s));
        }
    }
}

/// Sum of a sequence of prices.
pub open spec fn sum_seq(s: Seq<i64>) -> int
    decreases s.len(),
{
    if s.len() == 0 {
        0
    } else {
        sum_seq(s.drop_last()) + s.last()
    }
}

/// The sliding-window average at position `i`: the mean, truncated toward
/// zero, of the `n` prices starting there.
pub open spec fn sma_at(s: Seq<i64>, i: int, n: int) -> int
    recommends
        n > 0,
        0 <= i && i + n <= s.len(),
{
    div_trunc(sum_seq(s.subrange(i, i + n)), n)
}

/// Greatest price of the series, or nothing when the series is empty.
pub fn max(series: &Vec<i64>) -> (r: Option<i64>)
    ensures
        r is Some <==> series@.len() > 0,
        r matches Some(m) ==> m == seq_max(series@),
{
    if series.len() == 0 {
        return None;
    }
    let mut m: i64 = series[0];
    let mut i: usize = 1;
    while i < series.len()
        invariant
            1 <= i <= series@.len(),
            m == seq_max(series@.take(i as int)),
        decreases series@.len() - i,
    {
        proof {
            assert(series@.take(i + 1 as int).drop_last() =~= series@.take(i as int));
            assert(series@.take(i + 1 as int).last() == series@[i as int]);
        }
        if series[i] > m {
            m = series[i];
        }
        i = i + 1;
    }
    proof {
        assert(series@.take(series@.len() as int) =~= series@);
    }
    Some(m)
}

/// Least price of the series, or nothing when the series is empty.
pub fn min(series: &Vec<i64>) -> (r: Option<i64>)
    ensures
        r is Some <==> series@.len() > 0,
        r matches Some(m) ==> m == seq_min(series@),
{
    if series.len() == 0 {
        return None;
    }
    let mut m: i64 = series[0];
    let mut i: usize = 1;
    while i < series.len()
        invariant
            1 <= i <= series@.len(),
            m == seq_min(series@.take(i as int)),
        decreases series@.len() - i,
    {
        proof {
            assert(series@.take(i + 1 as int).drop_last() =~= series@.take(i as int));
            assert(series@.take(i + 1 as int).last() == series@[i as int]);
        }
        if series[i] < m {
            m = series[i];
        }
        i = i + 1;
    }
    proof {
        assert(series@.take(series@.len() as int) =~= series@);
    }
    Some(m)
}

/// Sum the `n` prices of `series` starting at `from`, in 128-bit arithmetic.
fn window_sum(series: &Vec<i64>, from: usize, n: usize) -> (acc: i128)
    requires
        from + n <= series@.len(),
    ensures
        acc == sum_seq(series@.subrange(from as int, from + n)),
        n * (i64::MIN as int) <= acc <= n * (i64::MAX as int),
{
    let len = series.len();
    let mut acc: i128 = 0;
    let mut j: usize = 0;
    while j < n
        invariant
            0 <= j <= n,
            from + n <= len,
            len == series@.len(),
            acc == sum_seq(series@.subrange(from as int, from + j)),
            j * (i64::MIN as int) <= acc <= j * (i64::MAX as int),
        decreases n - j,
    {
        proof {
            assert(series@.subrange(from as int, from + j + 1).drop_last() =~= series@.subrange(
                from as int,
                from + j,
            ));
            assert(series@.subrange(from as int, from + j + 1).last() == series@[from + j]);
        }
        acc = acc + series[from + j] as i128;
        j = j + 1;
    }
    acc
}

/// Sliding-window simple moving averages.
///
/// For a window of `n > 0` over a series of length `L >= n` the result holds
/// `L - n + 1` values, the `i`-th being the truncated mean of positions
/// `[i, i + n)`. A window of zero, or one longer than the series, yields
/// nothing - distinct from an empty result.
pub fn n_window_sma(n: usize, series: &Vec<i64>) -> (r: Option<Vec<i64>>)
    ensures
        r is Some <==> 1 <= n <= series@.len(),
        r matches Some(v) ==> {
            &&& v@.len() == series@.len() - n + 1
            &&& forall|i: int| 0 <= i < v@.len() ==> v@[i] == sma_at(series@, i, n as int)
        },
{
    if n == 0 || series.len() < n {
        return None;
    }
    let result_size = series.len() - n + 1;
    let mut sma: Vec<i64> = Vec::new();
    let mut i: usize = 0;
    while i < result_size
        invariant
            0 < n <= series@.len(),
            result_size == series@.len() - n + 1,
            0 <= i <= result_size,
            sma@.len() == i,
            forall|t: int| 0 <= t < i ==> sma@[t] == sma_at(series@, t, n as int),
        decreases result_size - i,
    {
        let acc = window_sum(series, i, n);
        proof {
            crate::arith::lemma_mean_in_range(acc as int, n as int);
        }
        let mean = div_trunc_i128(acc, n as i128);
        sma.push(mean as i64);
        i = i + 1;
    }
    Some(sma)
}

/// Percentage and absolute difference between the first and last prices of
/// the series, in the order given.
///
/// The percentage is `last * 100 / first`, in hundredths like every other
/// fixed-point value here; the absolute difference is `last - first`. A
/// series of fewer than two prices, or one starting at or below zero, yields
/// nothing (the zero guard keeps the percentage away from a division by
/// zero).
pub fn price_difference(series: &Vec<i64>) -> (r: Option<(i128, i128)>)
    ensures
        r is Some <==> series@.len() >= 2 && series@[0] > 0,
        r matches Some(pd) ==> {
            &&& pd.0 == div_trunc(series@.last() * 10000, series@[0] as int)
            &&& pd.1 == series@.last() - series@[0]
        },
{
    if series.len() > 1 {
        let start = series[0];
        if start > 0 {
            let end = series[series.len() - 1];
            let percentage = div_trunc_i128(end as i128 * 10000, start as i128);
            let diff = end as i128 - start as i128;
            return Some((percentage, diff));
        }
    }
    None
}

} // verus!
