use vstd::prelude::*;
use vstd::relations::{sorted_by, total_ordering};
use vstd::seq_lib::lemma_sorted_unique;

use crate::models::LatencySummary;

verus! {

broadcast use vstd::seq_lib::group_to_multiset_ensures;

/// The order in which latencies are sorted.
pub open spec fn u64_leq() -> spec_fn(u64, u64) -> bool {
    |x: u64, y: u64| x <= y
}

pub open spec fn seq_sum(s: Seq<u64>) -> int
    decreases s.len(),
{
    if s.len() == 0 {
        0
    } else {
        seq_sum(s.drop_last()) + s.last() as int
    }
}

pub open spec fn seq_min(s: Seq<u64>) -> u64
    decreases s.len(),
{
    if s.len() <= 1 {
        if s.len() == 0 { 0 } else { s[0] }
    } else {
        let m = seq_min(s.drop_last());
        if s.last() < m { s.last() } else { m }
    }
}

pub open spec fn seq_max(s: Seq<u64>) -> u64
    decreases s.len(),
{
    if s.len() <= 1 {
        if s.len() == 0 { 0 } else { s[0] }
    } else {
        let m = seq_max(s.drop_last());
        if s.last() > m { s.last() } else { m }
    }
}

/// The index of the 95th percentile in a sorted list of `n` values: `ceil(95 n / 100) - 1`, at least 0.
pub open spec fn p95_index(n: int) -> int {
    let c = (n * 95 + 99) / 100;
    if c >= 1 { c - 1 } else { 0 }
}

/// The latency summary of a list of latencies; all zero for an empty list.
pub open spec fn latency_summary_spec(s: Seq<u64>) -> LatencySummary {
    if s.len() == 0 {
        LatencySummary { avg: 0, min: 0, max: 0, p95: 0 }
    } else {
        LatencySummary {
            avg: (seq_sum(s) / s.len() as int) as u64,
            min: seq_min(s),
            max: seq_max(s),
            p95: s.sort_by(u64_leq())[p95_index(s.len() as int)],
        }
    }
}

pub open spec fn abs_diff(a: u64, b: u64) -> int {
    if a >= b { a - b } else { b - a }
}

/// Sum of the absolute differences of neighbours in `s`.
pub open spec fn delta_sum(s: Seq<u64>) -> int
    decreases s.len(),
{
    if s.len() < 2 {
        0
    } else {
        delta_sum(s.drop_last()) + abs_diff(s[s.len() - 2], s.last())
    }
}

/// Mean absolute difference between neighbours, clamped to `u64::MAX`; 0 with fewer than two values.
pub open spec fn jitter_spec(s: Seq<u64>) -> u64 {
    if s.len() < 2 {
        0
    } else {
        let q = delta_sum(s) / (s.len() - 1) as int;
        if q > u64::MAX { u64::MAX } else { q as u64 }
    }
}

proof fn lemma_sum_bounds(s: Seq<u64>)
    ensures
        0 <= seq_sum(s) <= s.len() * (u64::MAX as int),
    decreases s.len(),
{
    if s.len() > 0 {
        lemma_sum_bounds(s.drop_last());
        assert((s.len() - 1) * (u64::MAX as int) + u64::MAX == s.len() * (u64::MAX as int))
            by (nonlinear_arith);
    }
}

proof fn lemma_min_max_bounds(s: Seq<u64>)
    requires
        s.len() > 0,
    ensures
        forall|i: int| 0 <= i < s.len() ==> seq_min(s) <= #[trigger] s[i] <= seq_max(s),
        exists|i: int| 0 <= i < s.len() && s[i] == seq_min(s),
        exists|i: int| 0 <= i < s.len() && s[i] == seq_max(s),
    decreases s.len(),
{
    if s.len() > 1 {
        lemma_min_max_bounds(s.drop_last());
        assert forall|i: int| 0 <= i < s.len() implies seq_min(s) <= #[trigger] s[i] <= seq_max(s) by {
            if i < s.len() - 1 {
                assert(s[i] == s.drop_last()[i]);
            }
        }
        let a = choose|i: int| 0 <= i < s.drop_last().len() && s.drop_last()[i] == seq_min(s.drop_last());
        let b = choose|i: int| 0 <= i < s.drop_last().len() && s.drop_last()[i] == seq_max(s.drop_last());
        if s.last() < seq_min(s.drop_last()) {
            assert(s[s.len() - 1] == seq_min(s));
        } else {
            assert(s[a] == seq_min(s));
        }
        if s.last() > seq_max(s.drop_last()) {
            assert(s[s.len() - 1] == seq_max(s));
        } else {
            assert(s[b] == seq_max(s));
        }
    } else {
        assert(s[0] == seq_min(s));
        assert(s[0] == seq_max(s));
    }
}

proof fn lemma_mean_between(s: Seq<u64>)
    requires
        s.len() > 0,
    ensures
        seq_min(s) as int * s.len() <= seq_sum(s) <= seq_max(s) as int * s.len(),
    decreases s.len(),
{
    lemma_min_max_bounds(s);
    if s.len() > 1 {
        let t = s.drop_last();
        lemma_mean_between(t);
        lemma_min_max_bounds(t);
        assert(seq_min(s) <= seq_min(t));
        assert(seq_max(s) >= seq_max(t));
        assert(seq_min(s) as int * t.len() <= seq_min(t) as int * t.len()) by (nonlinear_arith)
            requires seq_min(s) <= seq_min(t), t.len() >= 0;
        assert(seq_max(t) as int * t.len() <= seq_max(s) as int * t.len()) by (nonlinear_arith)
            requires seq_max(s) >= seq_max(t), t.len() >= 0;
        assert(seq_min(s) <= s.last() <= seq_max(s)) by {
            assert(s.last() == s[s.len() - 1]);
        }
        assert(seq_min(s) as int * s.len() == seq_min(s) as int * t.len() + seq_min(s))
            by (nonlinear_arith) requires s.len() == t.len() + 1;
        assert(seq_max(s) as int * s.len() == seq_max(s) as int * t.len() + seq_max(s))
            by (nonlinear_arith) requires s.len() == t.len() + 1;
        assert(seq_sum(s) == seq_sum(t) + s.last() as int);
        assert(seq_min(s) as int * s.len() <= seq_sum(s));
        assert(seq_sum(s) <= seq_max(s) as int * s.len());
    } else {
        assert(s.len() == 1);
        assert(s.drop_last().len() == 0);
        assert(seq_sum(s.drop_last()) == 0);
        assert(seq_sum(s) == s[0] as int);
        assert(seq_min(s) == s[0] && seq_max(s) == s[0]);
    }
}

/// Facts about the summary of a non-empty list: every value lies between min and max,
/// and so do the mean and the 95th percentile.
pub proof fn lemma_latency_summary_ordered(s: Seq<u64>)
    requires
        s.len() > 0,
    ensures
        latency_summary_spec(s).min <= latency_summary_spec(s).avg <= latency_summary_spec(s).max,
        latency_summary_spec(s).min <= latency_summary_spec(s).p95 <= latency_summary_spec(s).max,
        s.contains(latency_summary_spec(s).min),
        s.contains(latency_summary_spec(s).max),
{
    lemma_min_max_bounds(s);
    lemma_mean_between(s);
    let n = s.len() as int;
    let total = seq_sum(s);
    assert(seq_min(s) as int <= total / n <= seq_max(s) as int) by (nonlinear_arith)
        requires
            seq_min(s) as int * n <= total <= seq_max(s) as int * n,
            n > 0,
    ;
    let sorted = s.sort_by(u64_leq());
    assert(total_ordering(u64_leq()));
    s.lemma_sort_by_ensures(u64_leq());
    let k = p95_index(n);
    assert(0 <= k < n) by (nonlinear_arith)
        requires
            k == p95_index(n),
            n > 0,
    ;
    assert(sorted.len() == s.len()) by {
        assert(sorted.to_multiset().len() == sorted.len());
        assert(s.to_multiset().len() == s.len());
    }
    assert(sorted.to_multiset().count(sorted[k]) > 0);
    assert(s.to_multiset().count(sorted[k]) > 0);
    assert(s.contains(sorted[k]));
    let j = choose|j: int| 0 <= j < s.len() && s[j] == sorted[k];
    assert(seq_min(s) <= s[j] <= seq_max(s));
    let a = choose|i: int| 0 <= i < s.len() && s[i] == seq_min(s);
    let b = choose|i: int| 0 <= i < s.len() && s[i] == seq_max(s);
    assert(s.contains(s[a]));
    assert(s.contains(s[b]));
}

proof fn lemma_swap_multiset(s: Seq<u64>, i: int, j: int)
    requires
        0 <= i < s.len(),
        0 <= j < s.len(),
    ensures
        s.update(i, s[j]).update(j, s[i]).to_multiset() == s.to_multiset(),
{
    broadcast use vstd::seq_lib::to_multiset_update;
    broadcast use vstd::multiset::group_multiset_axioms;
    let t = s.update(i, s[j]);
    assert(t.to_multiset() == s.to_multiset().insert(s[j]).remove(s[i]));
    assert(t.update(j, s[i]).to_multiset() == t.to_multiset().insert(s[i]).remove(t[j]));
    if i == j {
        assert(s.update(i, s[j]).update(j, s[i]) =~= s);
    } else {
        assert(t[j] == s[j]);
        assert(s.to_multiset().insert(s[j]).remove(s[i]).insert(s[i]).remove(s[j]) =~= s.to_multiset());
    }
}

/// `values` sorted ascending.
pub fn sort_u64(values: &Vec<u64>) -> (r: Vec<u64>)
    ensures
        r@ == values@.sort_by(u64_leq()),
{
    let mut r: Vec<u64> = Vec::new();
    let n = values.len();
    let mut i: usize = 0;
    while i < n
        invariant
            n == values.len(),
            i <= n,
            r@.to_multiset() == values@.take(i as int).to_multiset(),
            sorted_by(r@, u64_leq()),
            r@.len() == i,
        decreases n - i,
    {
        let x = values[i];
        assert(values@.take(i as int + 1) =~= values@.take(i as int).push(x));
        let ghost prev = r@;
        r.push(x);
        proof {
            assert forall|a: int, b: int|
                0 <= a < b < r@.len() && a != i && b != i implies #[trigger] r@[a] <= #[trigger] r@[b] by {
                assert(r@[a] == prev[a] && r@[b] == prev[b]);
                assert((u64_leq())(prev[a], prev[b]));
            }
        }
        let mut j: usize = i;
        while j > 0 && r[j - 1] > r[j]
            invariant
                j <= i,
                r@.len() == i + 1,
                r@.to_multiset() == values@.take(i as int + 1).to_multiset(),
                forall|a: int, b: int|
                    0 <= a < b < r@.len() && a != j && b != j ==> #[trigger] r@[a] <= #[trigger] r@[b],
                forall|b: int| j < b < r@.len() ==> r@[j as int] <= #[trigger] r@[b],
            decreases j,
        {
            let ghost before = r@;
            let left = r[j - 1];
            let right = r[j];
            r.set(j - 1, right);
            r.set(j, left);
            proof {
                assert(r@ =~= before.update(j - 1, before[j as int]).update(j as int, before[j - 1]));
                lemma_swap_multiset(before, j - 1, j as int);
                assert forall|a: int, b: int|
                    0 <= a < b < r@.len() && a != j - 1 && b != j - 1 implies #[trigger] r@[a] <= #[trigger] r@[b] by {
                    if a == j {
                        assert(before[j - 1] <= before[b]);
                    } else if b == j {
                        assert(before[a] <= before[j - 1]);
                    } else {
                        assert(before[a] <= before[b]);
                    }
                }
                assert forall|b: int| j - 1 < b < r@.len() implies r@[j - 1] <= #[trigger] r@[b] by {
                    if b == j {
                    } else {
                        assert(before[j as int] <= before[b]);
                    }
                }
            }
            j = j - 1;
        }
        proof {
            assert forall|a: int, b: int| 0 <= a < b < r@.len() implies #[trigger] (u64_leq())(r@[a], r@[b]) by {
                if a == j {
                } else if b == j {
                    if a < j - 1 {
                        assert(r@[a] <= r@[j - 1]);
                    }
                } else {
                }
            }
        }
        i = i + 1;
    }
    proof {
        assert(values@.take(n as int) =~= values@);
        values@.lemma_sort_by_ensures(u64_leq());
        lemma_sorted_unique(r@, values@.sort_by(u64_leq()), u64_leq());
    }
    r
}

/// Mean, minimum, maximum and 95th percentile of `latencies`; all zero when it is empty.
pub fn latency_summary(latencies: &Vec<u64>) -> (r: LatencySummary)
    ensures
        r == latency_summary_spec(latencies@),
{
    let n = latencies.len();
    if n == 0 {
        return LatencySummary::zero();
    }
    let mut total: u128 = 0;
    let mut min: u64 = latencies[0];
    let mut max: u64 = latencies[0];
    let mut i: usize = 0;
    while i < n
        invariant
            n == latencies.len(),
            n > 0,
            i <= n,
            total == seq_sum(latencies@.take(i as int)),
            total <= i * (u64::MAX as int),
            i > 0 ==> min == seq_min(latencies@.take(i as int)),
            i > 0 ==> max == seq_max(latencies@.take(i as int)),
            i == 0 ==> min == latencies@[0] && max == latencies@[0],
        decreases n - i,
    {
        let x = latencies[i];
        assert(latencies@.take(i as int + 1).drop_last() =~= latencies@.take(i as int));
        assert(total + x <= (i + 1) * (u64::MAX as int)) by (nonlinear_arith)
            requires total <= i * (u64::MAX as int), x <= u64::MAX;
        assert((i + 1) * (u64::MAX as int) <= u128::MAX) by (nonlinear_arith)
            requires i < n, n <= usize::MAX;
        total = total + x as u128;
        if i == 0 {
            assert(latencies@.take(1).len() == 1);
        } else {
            if x < min {
                min = x;
            }
            if x > max {
                max = x;
            }
        }
        i = i + 1;
    }
    assert(latencies@.take(n as int) =~= latencies@);
    let avg_wide: u128 = total / (n as u128);
    proof {
        lemma_sum_bounds(latencies@);
        assert(avg_wide <= u64::MAX) by (nonlinear_arith)
            requires avg_wide == total / (n as u128), total <= n * (u64::MAX as int), n > 0;
    }
    let sorted = sort_u64(latencies);
    proof {
        latencies@.lemma_sort_by_ensures(u64_leq());
        assert(sorted@.to_multiset().len() == sorted@.len());
        assert(latencies@.to_multiset().len() == latencies@.len());
        assert(0 <= p95_index(n as int) < n) by (nonlinear_arith)
            requires n > 0;
    }
    let c: usize = (n / 100) * 95 + ((n % 100) * 95 + 99) / 100;
    assert(c == (n * 95 + 99) / 100) by (nonlinear_arith)
        requires c == (n / 100) * 95 + ((n % 100) * 95 + 99) / 100;
    let index: usize = if c >= 1 { c - 1 } else { 0 };
    LatencySummary { avg: avg_wide as u64, min, max, p95: sorted[index] }
}

/// Mean absolute difference between neighbouring latencies; 0 with fewer than two.
pub fn jitter(latencies: &Vec<u64>) -> (r: u64)
    ensures
        r == jitter_spec(latencies@),
{
    let n = latencies.len();
    if n < 2 {
        return 0;
    }
    let mut total: u128 = 0;
    let mut i: usize = 1;
    while i < n
        invariant
            n == latencies.len(),
            n >= 2,
            1 <= i <= n,
            total == delta_sum(latencies@.take(i as int)),
            total <= (i - 1) * (u64::MAX as int),
        decreases n - i,
    {
        let a = latencies[i - 1];
        let b = latencies[i];
        let d: u64 = if a >= b { a - b } else { b - a };
        proof {
            let t = latencies@.take(i as int + 1);
            assert(t.drop_last() =~= latencies@.take(i as int));
            assert(t[t.len() - 2] == a && t.last() == b);
            assert(total + d <= i * (u64::MAX as int)) by (nonlinear_arith)
                requires total <= (i - 1) * (u64::MAX as int), d <= u64::MAX;
            assert(i * (u64::MAX as int) <= u128::MAX) by (nonlinear_arith)
                requires i < n, n <= usize::MAX;
        }
        total = total + d as u128;
        i = i + 1;
    }
    assert(latencies@.take(n as int) =~= latencies@);
    let q: u128 = total / ((n - 1) as u128);
    if q > u64::MAX as u128 {
        u64::MAX
    } else {
        q as u64
    }
}

} // verus!
