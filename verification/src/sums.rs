//! Sums over sequences, and the facts about them that loops need.
use vstd::prelude::*;

verus! {

/// The sum of `f` over the elements of `s`.
pub open spec fn seq_sum<T>(s: Seq<T>, f: spec_fn(T) -> nat) -> nat
    decreases s.len(),
{
    if s.len() == 0 {
        0
    } else {
        seq_sum(s.drop_last(), f) + f(s.last())
    }
}

/// Extending a prefix by one element adds that element's value.
pub proof fn lemma_seq_sum_step<T>(s: Seq<T>, f: spec_fn(T) -> nat, i: int)
    requires
        0 <= i < s.len(),
    ensures
        seq_sum(s.subrange(0, i + 1), f) == seq_sum(s.subrange(0, i), f) + f(s[i]),
{
    assert(s.subrange(0, i + 1).drop_last() =~= s.subrange(0, i));
}

/// A prefix sums to no more than the whole sequence.
pub proof fn lemma_seq_sum_prefix_le<T>(s: Seq<T>, f: spec_fn(T) -> nat, i: int)
    requires
        0 <= i <= s.len(),
    ensures
        seq_sum(s.subrange(0, i), f) <= seq_sum(s, f),
    decreases s.len() - i,
{
    if i < s.len() {
        lemma_seq_sum_step(s, f, i);
        lemma_seq_sum_prefix_le(s, f, i + 1);
    } else {
        assert(s.subrange(0, i) =~= s);
    }
}

/// The sum of a concatenation.
pub proof fn lemma_seq_sum_concat<T>(a: Seq<T>, b: Seq<T>, f: spec_fn(T) -> nat)
    ensures
        seq_sum(a + b, f) == seq_sum(a, f) + seq_sum(b, f),
    decreases b.len(),
{
    if b.len() == 0 {
        assert(a + b =~= a);
    } else {
        lemma_seq_sum_concat(a, b.drop_last(), f);
        assert((a + b).drop_last() =~= a + b.drop_last());
    }
}

} // verus!

verus! {

/// Changing one element changes the sum by the difference.
pub proof fn lemma_seq_sum_update<T>(s: Seq<T>, f: spec_fn(T) -> nat, i: int, x: T)
    requires
        0 <= i < s.len(),
    ensures
        seq_sum(s.update(i, x), f) + f(s[i]) == seq_sum(s, f) + f(x),
    decreases s.len(),
{
    if i == s.len() - 1 {
        assert(s.update(i, x).drop_last() =~= s.drop_last());
    } else {
        lemma_seq_sum_update(s.drop_last(), f, i, x);
        assert(s.update(i, x).drop_last() =~= s.drop_last().update(i, x));
    }
}

/// A sequence of zeros sums to zero.
pub proof fn lemma_seq_sum_zeros<T>(s: Seq<T>, f: spec_fn(T) -> nat)
    requires
        forall|k: int| 0 <= k < s.len() ==> f(#[trigger] s[k]) == 0,
    ensures
        seq_sum(s, f) == 0,
    decreases s.len(),
{
    if s.len() > 0 {
        lemma_seq_sum_zeros(s.drop_last(), f);
        assert(f(s[s.len() - 1]) == 0);
    }
}

} // verus!
