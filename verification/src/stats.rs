//! Latency statistics: sorting and percentile extraction.

use vstd::prelude::*;

verus! {

/// A cycle sequence in non-decreasing order.
pub open spec fn sorted(s: Seq<u64>) -> bool {
    forall|i: int, j: int| 0 <= i < j < s.len() ==> s[i] <= s[j]
}

/// The median of a sorted, non-empty sequence: the middle element, or
/// the mean of the two middle elements when the length is even.
pub open spec fn spec_median(s: Seq<u64>) -> int
    recommends
        s.len() > 0,
{
    if s.len() % 2 == 1 {
        s[s.len() as int / 2] as int
    } else {
        (s[s.len() as int / 2 - 1] + s[s.len() as int / 2]) as int / 2
    }
}

/// The tail (99th percentile) of a sorted, non-empty sequence.
pub open spec fn spec_tail(s: Seq<u64>) -> int
    recommends
        s.len() > 0,
{
    s[s.len() as int * 99 / 100] as int
}

/// Sort the cycle counts in place (insertion sort): afterwards the
/// vector is in non-decreasing order and holds the same multiset of
/// values.
pub fn sort_cycles(v: &mut Vec<u64>)
    ensures
        sorted(final(v)@),
        final(v)@.to_multiset() == old(v)@.to_multiset(),
        final(v)@.len() == old(v)@.len(),
{
    let n = v.len();
    if n <= 1 {
        return ;
    }
    let mut i: usize = 1;
    while i < n
        invariant
            n == v@.len(),
            1 <= i <= n,
            forall|a: int, b: int| 0 <= a < b < i ==> v@[a] <= v@[b],
            v@.to_multiset() == old(v)@.to_multiset(),
        decreases n - i,
    {
        let mut j: usize = i;
        while j > 0 && v[j - 1] > v[j]
            invariant
                n == v@.len(),
                0 <= j <= i < n,
                v@.to_multiset() == old(v)@.to_multiset(),
                forall|a: int, b: int| 0 <= a < b <= i && b != j ==> v@[a] <= v@[b],
            decreases j,
        {
            let x = v[j - 1];
            let y = v[j];
            let ghost s_pre = v@;
            v[j - 1] = y;
            v[j] = x;
            proof {
                broadcast use vstd::seq_lib::to_multiset_update;
                broadcast use vstd::seq_lib::group_to_multiset_ensures;

                assert(v@ == s_pre.update(j - 1, y).update(j as int, x));
                assert(v@.to_multiset() =~= s_pre.to_multiset());
            }
            j = j - 1;
        }
        proof {
            assert forall|a: int, b: int| 0 <= a < b <= i implies v@[a] <= v@[b] by {
                if b == j && a < j - 1 {
                    assert(v@[a] <= v@[j - 1]);
                }
            }
        }
        i = i + 1;
    }
}

/// Sort the latencies in place and return `(median, 99th percentile)`
/// in cycles, or `None` when the record is empty.
pub fn latency_summary(v: &mut Vec<u64>) -> (r: Option<(u64, u64)>)
    ensures
        final(v)@.to_multiset() == old(v)@.to_multiset(),
        final(v)@.len() == old(v)@.len(),
        sorted(final(v)@),
        (r is Some) <==> old(v)@.len() > 0,
        r matches Some(mt) ==> mt.0 == spec_median(final(v)@) && mt.1 == spec_tail(final(v)@),
{
    sort_cycles(v);
    let n = v.len();
    if n == 0 {
        return None;
    }
    proof {
        assert((n as int) * 99 / 100 < n as int) by (nonlinear_arith)
            requires
                n >= 1,
        ;
        assert((n as u128) * 99 <= u128::MAX) by (nonlinear_arith)
            requires
                n <= u64::MAX,
        ;
    }
    let tail_idx = (((n as u128) * 99) / 100) as usize;
    let t = v[tail_idx];
    let m: u64;
    if n % 2 == 1 {
        m = v[n / 2];
    } else {
        let a = v[n / 2 - 1];
        let b = v[n / 2];
        m = (((a as u128) + (b as u128)) / 2) as u64;
    }
    Some((m, t))
}

} // verus!
