//! Discrete distribution sampling support. Domain values are carried as scaled
//! integers (a value `v` stands for `v * step`), which keeps the evenly spaced
//! domain and the replication counts exact; callers rescale for presentation.

use vstd::prelude::*;
use crate::seq_sum::{sum, lemma_sum_take_step, lemma_sum_take_all};

verus! {

/// The scaled domain: every integer from `lo` (inclusive) up to `hi`
/// (exclusive), in increasing order; empty when `lo >= hi`.
pub fn generate_domain(lo: i64, hi: i64) -> (r: Vec<i64>)
    ensures
        lo < hi ==> r@.len() == hi - lo,
        lo >= hi ==> r@.len() == 0,
        forall|i: int| 0 <= i < r@.len() ==> r@[i] == lo + i,
{
    let mut r: Vec<i64> = Vec::new();
    if lo < hi {
        let mut v: i64 = lo;
        while v < hi
            invariant
                lo <= v <= hi,
                r@.len() == v - lo,
                forall|i: int| 0 <= i < r@.len() ==> r@[i] == lo + i,
            decreases hi - v,
        {
            r.push(v);
            v = v + 1;
        }
    }
    r
}

/// The first `k` domain values, each repeated its own count of times, in
/// domain order.
pub open spec fn replicated_prefix(domain: Seq<i64>, counts: Seq<usize>, k: int) -> Seq<i64>
    decreases k,
{
    if k <= 0 {
        Seq::empty()
    } else {
        replicated_prefix(domain, counts, k - 1) + Seq::new(
            counts[k - 1] as nat,
            |j: int| domain[k - 1],
        )
    }
}

/// Every domain value repeated its own count of times, in domain order.
pub open spec fn replicated(domain: Seq<i64>, counts: Seq<usize>) -> Seq<i64> {
    replicated_prefix(domain, counts, domain.len() as int)
}

/// The total of all counts.
pub open spec fn total_count(counts: Seq<usize>) -> int {
    sum(counts.map_values(|c: usize| c as int))
}

/// The replicated prefix holds exactly as many values as its counts total.
pub proof fn lemma_replicated_prefix_len(domain: Seq<i64>, counts: Seq<usize>, k: int)
    requires
        0 <= k <= counts.len(),
    ensures
        replicated_prefix(domain, counts, k).len() == sum(
            counts.map_values(|c: usize| c as int).take(k),
        ),
    decreases k,
{
    let m = counts.map_values(|c: usize| c as int);
    if k == 0 {
        assert(m.take(0) =~= Seq::<int>::empty());
    } else {
        lemma_replicated_prefix_len(domain, counts, k - 1);
        lemma_sum_take_step(m, k - 1);
    }
}

/// Law: the sample holds exactly as many values as the counts total.
pub proof fn lemma_replicated_len(domain: Seq<i64>, counts: Seq<usize>)
    requires
        domain.len() == counts.len(),
    ensures
        replicated(domain, counts).len() == total_count(counts),
{
    lemma_replicated_prefix_len(domain, counts, domain.len() as int);
    lemma_sum_take_all(counts.map_values(|c: usize| c as int));
}

/// Emits each domain value repeated its own count of times: the discrete,
/// frequency-weighted sample set of the distribution the counts encode.
pub fn sample(domain: &Vec<i64>, counts: &Vec<usize>) -> (r: Vec<i64>)
    requires
        domain@.len() == counts@.len(),
    ensures
        r@ == replicated(domain@, counts@),
        r@.len() == total_count(counts@),
{
    let n: usize = domain.len();
    let mut r: Vec<i64> = Vec::new();
    let mut k: usize = 0;
    while k < n
        invariant
            n == domain@.len(),
            domain@.len() == counts@.len(),
            0 <= k <= n,
            r@ == replicated_prefix(domain@, counts@, k as int),
        decreases n - k,
    {
        let x: i64 = domain[k];
        let c: usize = counts[k];
        let ghost base = r@;
        let mut j: usize = 0;
        while j < c
            invariant
                0 <= j <= c,
                x == domain@[k as int],
                c == counts@[k as int],
                k < domain@.len(),
                r@ == base + Seq::new(j as nat, |t: int| domain@[k as int]),
            decreases c - j,
        {
            proof {
                assert(base + Seq::new(j as nat, |t: int| domain@[k as int]) + seq![x] =~= base
                    + Seq::new((j + 1) as nat, |t: int| domain@[k as int]));
            }
            r.push(x);
            j = j + 1;
        }
        proof {
            assert(r@ == replicated_prefix(domain@, counts@, (k + 1) as int));
        }
        k = k + 1;
    }
    proof {
        lemma_replicated_len(domain@, counts@);
    }
    r
}

} // verus!
