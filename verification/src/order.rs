//! Stable insertion sorting under an order given as a "comes before"
//! relation, and what it guarantees.
use vstd::prelude::*;

verus! {

/// `before` is a strict weak order: never both ways, and "not before" is
/// transitive.
pub open spec fn weak_order<T>(before: spec_fn(T, T) -> bool) -> bool {
    &&& forall|a: T, b: T| #[trigger] before(a, b) ==> !before(b, a)
    &&& forall|a: T, b: T, c: T|
        !#[trigger] before(b, a) && !#[trigger] before(c, b) ==> !before(c, a)
}

/// No element of `s` comes before an earlier one.
pub open spec fn in_order<T>(s: Seq<T>, before: spec_fn(T, T) -> bool) -> bool {
    forall|i: int, j: int| 0 <= i <= j < s.len() ==> !before(#[trigger] s[j], #[trigger] s[i])
}

/// Where `x` goes in `s`: just after the last element that it does not
/// come before, looking from the end.
pub open spec fn insert_pos<T>(s: Seq<T>, x: T, before: spec_fn(T, T) -> bool) -> int
    decreases s.len(),
{
    if s.len() == 0 {
        0
    } else if before(x, s.last()) {
        insert_pos(s.drop_last(), x, before)
    } else {
        s.len() as int
    }
}

/// `s` sorted by inserting each element in turn; elements that are
/// equivalent keep their order.
pub open spec fn insertion_sorted<T>(s: Seq<T>, before: spec_fn(T, T) -> bool) -> Seq<T>
    decreases s.len(),
{
    if s.len() == 0 {
        s
    } else {
        let t = insertion_sorted(s.drop_last(), before);
        t.insert(insert_pos(t, s.last(), before), s.last())
    }
}

proof fn lemma_insert_pos<T>(s: Seq<T>, x: T, before: spec_fn(T, T) -> bool)
    requires
        weak_order(before),
        in_order(s, before),
    ensures
        0 <= insert_pos(s, x, before) <= s.len(),
        forall|k: int| 0 <= k < insert_pos(s, x, before) ==> !before(x, #[trigger] s[k]),
        forall|k: int| insert_pos(s, x, before) <= k < s.len() ==> before(x, #[trigger] s[k]),
    decreases s.len(),
{
    if s.len() > 0 {
        let p = s.drop_last();
        assert(in_order(p, before)) by {
            assert forall|i: int, j: int| 0 <= i <= j < p.len() implies !before(#[trigger] p[j], #[trigger] p[i]) by {
                assert(p[i] == s[i] && p[j] == s[j]);
            }
        }
        if before(x, s.last()) {
            lemma_insert_pos(p, x, before);
            assert forall|k: int| 0 <= k < insert_pos(s, x, before) implies !before(x, #[trigger] s[k]) by {
                assert(p[k] == s[k]);
            }
            assert forall|k: int| insert_pos(s, x, before) <= k < s.len() implies before(x, #[trigger] s[k]) by {
                if k < s.len() - 1 {
                    assert(p[k] == s[k]);
                }
            }
        } else {
            assert forall|k: int| 0 <= k < s.len() implies !before(x, #[trigger] s[k]) by {
                assert(!before(s[s.len() - 1], s[k]));
            }
        }
    }
}

/// Insertion sorting gives the elements in order, each as often as given.
pub proof fn lemma_insertion_sorted<T>(s: Seq<T>, before: spec_fn(T, T) -> bool)
    requires
        weak_order(before),
    ensures
        in_order(insertion_sorted(s, before), before),
        insertion_sorted(s, before).to_multiset() == s.to_multiset(),
        insertion_sorted(s, before).len() == s.len(),
    decreases s.len(),
{
    if s.len() > 0 {
        let t = insertion_sorted(s.drop_last(), before);
        lemma_insertion_sorted(s.drop_last(), before);
        let x = s.last();
        lemma_insert_pos(t, x, before);
        let p = insert_pos(t, x, before);
        let r = t.insert(p, x);
        assert forall|i: int, j: int| 0 <= i <= j < r.len() implies !before(#[trigger] r[j], #[trigger] r[i]) by {
            if i < p && j < p {
            } else if i < p && j == p {
                assert(r[i] == t[i]);
            } else if i < p && j > p {
                assert(r[j] == t[j - 1]);
            } else if i == p && j == p {
            } else if i == p && j > p {
                assert(r[j] == t[j - 1]);
            } else if i > p {
                assert(r[i] == t[i - 1]);
                assert(r[j] == t[j - 1]);
            }
        }
        vstd::seq_lib::lemma_multiset_commutative(s.drop_last(), seq![x]);
        assert(s.drop_last() + seq![x] =~= s);
        assert(t.insert(p, x) =~= t.subrange(0, p) + seq![x] + t.subrange(p, t.len() as int));
        vstd::seq_lib::lemma_multiset_commutative(t.subrange(0, p), seq![x]);
        vstd::seq_lib::lemma_multiset_commutative(t.subrange(0, p) + seq![x], t.subrange(p, t.len() as int));
        vstd::seq_lib::lemma_multiset_commutative(t.subrange(0, p), t.subrange(p, t.len() as int));
        assert(t.subrange(0, p) + t.subrange(p, t.len() as int) =~= t);
    }
}

} // verus!
