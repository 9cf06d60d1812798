//! A stable insertion sort, specified as a function. Every view orders its
//! rows through [`sort_by_leq`], so a sorting contract pins the output rows
//! exactly instead of merely describing them; that the result is in fact
//! ordered and a permutation of the input is proved once, generically.

use vstd::prelude::*;
use vstd::multiset::Multiset;

verus! {

/// The relation is total and transitive (a total preorder: ties between
/// distinct rows are allowed, as when rows are ordered by one field).
pub open spec fn total_preorder<T>(leq: spec_fn(T, T) -> bool) -> bool {
    &&& forall|a: T, b: T| #[trigger] leq(a, b) || #[trigger] leq(b, a)
    &&& forall|a: T, b: T, c: T| #[trigger] leq(a, b) && #[trigger] leq(b, c) ==> leq(a, c)
}

/// Every adjacent-or-apart pair is ordered.
pub open spec fn sorted_by_leq<T>(s: Seq<T>, leq: spec_fn(T, T) -> bool) -> bool {
    forall|i: int, j: int| 0 <= i < j < s.len() ==> leq(#[trigger] s[i], #[trigger] s[j])
}

/// `x` placed into `s` after every leading element `e` with `leq(e, x)`:
/// insertion after equals, which makes the sort stable.
pub open spec fn insert_leq<T>(x: T, s: Seq<T>, leq: spec_fn(T, T) -> bool) -> Seq<T>
    decreases s.len(),
{
    if s.len() == 0 {
        seq![x]
    } else if leq(s[0], x) {
        seq![s[0]] + insert_leq(x, s.drop_first(), leq)
    } else {
        seq![x] + s
    }
}

/// Stable insertion sort: elements are folded in from the left.
pub open spec fn sort_by_leq<T>(s: Seq<T>, leq: spec_fn(T, T) -> bool) -> Seq<T>
    decreases s.len(),
{
    if s.len() == 0 {
        Seq::empty()
    } else {
        insert_leq(s.last(), sort_by_leq(s.drop_last(), leq), leq)
    }
}

/// Inserting adds exactly one occurrence of the new element.
pub proof fn lemma_insert_leq_multiset<T>(x: T, s: Seq<T>, leq: spec_fn(T, T) -> bool)
    ensures
        insert_leq(x, s, leq).len() == s.len() + 1,
        insert_leq(x, s, leq).to_multiset() =~= s.to_multiset().insert(x),
    decreases s.len(),
{
    broadcast use vstd::seq_lib::group_to_multiset_ensures;

    if s.len() == 0 {
        assert(insert_leq(x, s, leq) =~= Seq::empty().push(x));
        assert(s.to_multiset() =~= Multiset::empty());
    } else if leq(s[0], x) {
        lemma_insert_leq_multiset(x, s.drop_first(), leq);
        let r = insert_leq(x, s.drop_first(), leq);
        assert(seq![s[0]] + r =~= (seq![s[0]] + r));
        assert((seq![s[0]] + r).to_multiset() =~= r.to_multiset().insert(s[0])) by {
            lemma_cons_multiset(s[0], r);
        }
        assert(s.to_multiset() =~= s.drop_first().to_multiset().insert(s[0])) by {
            lemma_cons_multiset(s[0], s.drop_first());
            assert(seq![s[0]] + s.drop_first() =~= s);
        }
    } else {
        lemma_cons_multiset(x, s);
    }
}

/// Prepending one element inserts it into the multiset.
pub proof fn lemma_cons_multiset<T>(x: T, s: Seq<T>)
    ensures
        (seq![x] + s).to_multiset() =~= s.to_multiset().insert(x),
    decreases s.len(),
{
    broadcast use vstd::seq_lib::group_to_multiset_ensures;

    if s.len() == 0 {
        assert(seq![x] + s =~= Seq::empty().push(x));
    } else {
        lemma_cons_multiset(x, s.drop_last());
        assert(seq![x] + s =~= (seq![x] + s.drop_last()).push(s.last()));
        assert(s =~= s.drop_last().push(s.last()));
    }
}

/// Sorting permutes: the result holds the same rows with the same
/// multiplicities.
pub proof fn lemma_sort_multiset<T>(s: Seq<T>, leq: spec_fn(T, T) -> bool)
    ensures
        sort_by_leq(s, leq).len() == s.len(),
        sort_by_leq(s, leq).to_multiset() =~= s.to_multiset(),
    decreases s.len(),
{
    broadcast use vstd::seq_lib::group_to_multiset_ensures;

    if s.len() > 0 {
        lemma_sort_multiset(s.drop_last(), leq);
        lemma_insert_leq_multiset(s.last(), sort_by_leq(s.drop_last(), leq), leq);
        assert(s =~= s.drop_last().push(s.last()));
    }
}

/// Inserting into a sorted sequence keeps it sorted.
pub proof fn lemma_insert_leq_sorted<T>(x: T, s: Seq<T>, leq: spec_fn(T, T) -> bool)
    requires
        total_preorder(leq),
        sorted_by_leq(s, leq),
    ensures
        sorted_by_leq(insert_leq(x, s, leq), leq),
    decreases s.len(),
{
    broadcast use vstd::seq_lib::group_to_multiset_ensures;

    if s.len() == 0 {
    } else if leq(s[0], x) {
        assert(sorted_by_leq(s.drop_first(), leq)) by {
            assert(forall|k: int| 0 <= k < s.drop_first().len() ==> s.drop_first()[k] == s[k + 1]);
        }
        lemma_insert_leq_sorted(x, s.drop_first(), leq);
        let r = insert_leq(x, s.drop_first(), leq);
        lemma_insert_leq_multiset(x, s.drop_first(), leq);
        let whole = seq![s[0]] + r;
        assert forall|i: int, j: int| 0 <= i < j < whole.len() implies leq(
            #[trigger] whole[i],
            #[trigger] whole[j],
        ) by {
            if i == 0 {
                let e = whole[j];
                assert(r[j - 1] == e);
                assert(r.contains(e));
                assert(r.to_multiset().count(e) > 0);
                if e == x {
                    assert(leq(s[0], x));
                } else {
                    assert(s.drop_first().to_multiset().count(e) > 0);
                    assert(s.drop_first().contains(e));
                    let w = choose|w: int|
                        0 <= w < s.drop_first().len() && s.drop_first()[w] == e;
                    assert(s[w + 1] == e);
                    assert(leq(s[0], s[w + 1]));
                }
            } else {
                assert(whole[i] == r[i - 1] && whole[j] == r[j - 1]);
            }
        }
    } else {
        // x goes first; leq(x, s[0]) by totality, and leq(x, s[j]) by transitivity
        let whole = seq![x] + s;
        assert forall|i: int, j: int| 0 <= i < j < whole.len() implies leq(
            #[trigger] whole[i],
            #[trigger] whole[j],
        ) by {
            if i == 0 {
                assert(leq(x, s[0]));
                if j > 1 {
                    assert(leq(s[0], s[j - 1]));
                }
            } else {
                assert(whole[i] == s[i - 1] && whole[j] == s[j - 1]);
            }
        }
    }
}

/// The sort delivers an ordered sequence.
pub proof fn lemma_sort_sorted<T>(s: Seq<T>, leq: spec_fn(T, T) -> bool)
    requires
        total_preorder(leq),
    ensures
        sorted_by_leq(sort_by_leq(s, leq), leq),
    decreases s.len(),
{
    if s.len() > 0 {
        lemma_sort_sorted(s.drop_last(), leq);
        lemma_insert_leq_sorted(s.last(), sort_by_leq(s.drop_last(), leq), leq);
    }
}

/// Where the scan of an insertion lands: when every element before `j`
/// compares less-or-equal to `x` and the one at `j` (if any) does not, the
/// insertion splits the sequence at `j`.
pub proof fn lemma_insert_leq_split<T>(x: T, s: Seq<T>, leq: spec_fn(T, T) -> bool, j: int)
    requires
        0 <= j <= s.len(),
        forall|k: int| 0 <= k < j ==> leq(#[trigger] s[k], x),
        j < s.len() ==> !leq(s[j], x),
    ensures
        insert_leq(x, s, leq) =~= s.take(j) + seq![x] + s.skip(j),
    decreases j,
{
    if j == 0 {
        if s.len() == 0 {
            assert(insert_leq(x, s, leq) =~= s.take(0) + seq![x] + s.skip(0));
        } else {
            assert(!leq(s[0], x));
            assert(insert_leq(x, s, leq) =~= s.take(0) + seq![x] + s.skip(0));
        }
    } else {
        assert(leq(s[0], x));
        assert(forall|k: int| 0 <= k < j - 1 ==> s.drop_first()[k] == s[k + 1]);
        assert(j - 1 < s.drop_first().len() ==> !leq(s.drop_first()[j - 1], x));
        lemma_insert_leq_split(x, s.drop_first(), leq, j - 1);
        assert(insert_leq(x, s, leq) =~= s.take(j) + seq![x] + s.skip(j)) by {
            assert(insert_leq(x, s, leq) == seq![s[0]] + insert_leq(x, s.drop_first(), leq));
            assert(insert_leq(x, s.drop_first(), leq) =~= s.drop_first().take(j - 1) + seq![x]
                + s.drop_first().skip(j - 1));
            assert(seq![s[0]] + (s.drop_first().take(j - 1) + seq![x] + s.drop_first().skip(j - 1))
                =~= s.take(j) + seq![x] + s.skip(j));
        }
    }
}

} // verus!
