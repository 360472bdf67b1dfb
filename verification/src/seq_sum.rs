//! Sums of integer sequences, with the lemmas the area proofs need.

use vstd::prelude::*;

verus! {

/// The sum of all elements of `s`.
pub open spec fn sum(s: Seq<int>) -> int
    decreases s.len(),
{
    if s.len() == 0 {
        0
    } else {
        sum(s.drop_last()) + s.last()
    }
}

/// Extending a prefix by one element adds that element to the prefix sum.
pub proof fn lemma_sum_take_step(s: Seq<int>, i: int)
    requires
        0 <= i < s.len(),
    ensures
        sum(s.take(i + 1)) == sum(s.take(i)) + s[i],
{
    assert(s.take(i + 1).drop_last() =~= s.take(i));
    assert(s.take(i + 1).last() == s[i]);
}

/// Taking the whole sequence is the identity.
pub proof fn lemma_sum_take_all(s: Seq<int>)
    ensures
        sum(s.take(s.len() as int)) == sum(s),
{
    assert(s.take(s.len() as int) =~= s);
}

/// The sum of a concatenation is the sum of the parts.
pub proof fn lemma_sum_concat(a: Seq<int>, b: Seq<int>)
    ensures
        sum(a + b) == sum(a) + sum(b),
    decreases b.len(),
{
    if b.len() == 0 {
        assert(a + b =~= a);
    } else {
        assert((a + b).drop_last() =~= a + b.drop_last());
        assert((a + b).last() == b.last());
        lemma_sum_concat(a, b.drop_last());
    }
}

/// The sum of `n` copies of `c` is `n * c`.
pub proof fn lemma_sum_const(n: nat, c: int)
    ensures
        sum(Seq::new(n, |i: int| c)) == n * c,
    decreases n,
{
    let s = Seq::new(n, |i: int| c);
    if n == 0 {
    } else {
        let t = Seq::new((n - 1) as nat, |i: int| c);
        assert(s.drop_last() =~= t);
        lemma_sum_const((n - 1) as nat, c);
        assert(sum(s) == (n - 1) * c + c);
        assert((n - 1) * c + c == n * c) by (nonlinear_arith);
    }
}

/// A nonempty sum splits off its first element.
pub proof fn lemma_sum_skip_first(s: Seq<int>)
    requires
        s.len() >= 1,
    ensures
        sum(s) == s[0] + sum(s.skip(1)),
{
    let head = s.take(1);
    assert(head.drop_last() =~= Seq::<int>::empty());
    assert(sum(Seq::<int>::empty()) == 0);
    assert(sum(head) == s[0]);
    lemma_sum_concat(head, s.skip(1));
    assert(head + s.skip(1) =~= s);
}

/// Moving the first element to the back leaves the sum unchanged.
pub proof fn lemma_sum_rotate_one(s: Seq<int>)
    requires
        s.len() >= 1,
    ensures
        sum(s.skip(1) + s.take(1)) == sum(s),
{
    lemma_sum_concat(s.skip(1), s.take(1));
    let head = s.take(1);
    assert(head.drop_last() =~= Seq::<int>::empty());
    assert(sum(Seq::<int>::empty()) == 0);
    assert(sum(head) == s[0]);
    lemma_sum_skip_first(s);
}

/// Reversal leaves the sum unchanged.
pub proof fn lemma_sum_reverse(s: Seq<int>)
    ensures
        sum(s.reverse()) == sum(s),
    decreases s.len(),
{
    if s.len() == 0 {
        assert(s.reverse() =~= s);
    } else {
        let r = s.reverse();
        assert(r.drop_last() =~= s.skip(1).reverse());
        assert(r.last() == s[0]);
        lemma_sum_reverse(s.skip(1));
        lemma_sum_skip_first(s);
    }
}

/// Negating every element negates the sum.
pub proof fn lemma_sum_negate(s: Seq<int>)
    ensures
        sum(s.map_values(|x: int| -x)) == -sum(s),
    decreases s.len(),
{
    let m = s.map_values(|x: int| -x);
    if s.len() == 0 {
    } else {
        assert(m.drop_last() =~= s.drop_last().map_values(|x: int| -x));
        assert(m.last() == -s.last());
        lemma_sum_negate(s.drop_last());
    }
}

} // verus!
