//! Facts about sums of weight sequences.
use vstd::prelude::*;

use crate::sampler::weight_sum;

verus! {

/// `k` positions of weight 0.
pub open spec fn zeros(k: nat) -> Seq<u64> {
    Seq::new(k, |i: int| 0u64)
}

pub proof fn lemma_sum_push(s: Seq<u64>, x: u64)
    ensures
        weight_sum(s.push(x)) == weight_sum(s) + x,
{
    assert(s.push(x).drop_last() =~= s);
}

pub proof fn lemma_sum_update(s: Seq<u64>, i: int, v: u64)
    requires
        0 <= i < s.len(),
    ensures
        weight_sum(s.update(i, v)) + s[i] == weight_sum(s) + v,
    decreases s.len(),
{
    let t = s.update(i, v);
    if i == s.len() - 1 {
        assert(t.drop_last() =~= s.drop_last());
    } else {
        assert(t.drop_last() =~= s.drop_last().update(i, v));
        lemma_sum_update(s.drop_last(), i, v);
    }
}

pub proof fn lemma_sum_zero_tail(s: Seq<u64>, k: nat)
    ensures
        weight_sum(s + zeros(k)) == weight_sum(s),
    decreases k,
{
    if k > 0 {
        assert((s + zeros(k)).drop_last() =~= s + zeros((k - 1) as nat));
        lemma_sum_zero_tail(s, (k - 1) as nat);
    } else {
        assert(s + zeros(k) =~= s);
    }
}

pub proof fn lemma_sum_prefix(s: Seq<u64>, k: int)
    requires
        0 <= k <= s.len(),
    ensures
        weight_sum(s.subrange(0, k)) <= weight_sum(s),
    decreases s.len(),
{
    if k < s.len() {
        assert(s.drop_last().subrange(0, k) =~= s.subrange(0, k));
        lemma_sum_prefix(s.drop_last(), k);
    } else {
        assert(s.subrange(0, k) =~= s);
    }
}

pub proof fn lemma_sum_below(s: Seq<u64>, b: nat)
    requires
        forall|j: int| 0 <= j < s.len() ==> s[j] < b,
    ensures
        weight_sum(s) <= s.len() * b,
    decreases s.len(),
{
    if s.len() > 0 {
        assert forall|j: int| 0 <= j < s.drop_last().len() implies s.drop_last()[j] < b by {
            assert(s.drop_last()[j] == s[j]);
        }
        lemma_sum_below(s.drop_last(), b);
        assert(weight_sum(s) <= s.len() * b) by (nonlinear_arith)
            requires
                weight_sum(s) == weight_sum(s.drop_last()) + s.last() as nat,
                weight_sum(s.drop_last()) <= (s.len() - 1) * b,
                s.last() < b,
                s.len() > 0,
        ;
    }
}

} // verus!
