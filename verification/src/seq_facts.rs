//! Facts about sequences used by the order-preserving selection functions
//! of the Control Plane: filtering, multisets, and the identity order as a
//! total order.

use vstd::prelude::*;
use vstd::relations::total_ordering;
use crate::text::{lemma_seq_lt_asymmetric, lemma_seq_lt_irreflexive, lemma_seq_lt_total,
    lemma_seq_lt_transitive, seq_lt};

verus! {

/// Filtering a prefix one element longer adds that element exactly when it
/// satisfies the predicate.
pub proof fn lemma_filter_take_step<A>(s: Seq<A>, p: spec_fn(A) -> bool, i: int)
    requires
        0 <= i < s.len(),
    ensures
        s.take(i + 1).filter(p) == (if p(s[i]) {
            s.take(i).filter(p).push(s[i])
        } else {
            s.take(i).filter(p)
        }),
{
    reveal(Seq::filter);
    assert(s.take(i + 1).drop_last() =~= s.take(i));
    assert(s.take(i + 1).last() == s[i]);
}

/// Filtering the whole of a sequence through its full prefix.
pub proof fn lemma_take_full<A>(s: Seq<A>)
    ensures
        s.take(s.len() as int) == s,
{
    assert(s.take(s.len() as int) =~= s);
}

/// A filtered sequence is empty exactly when no element satisfies the
/// predicate.
pub proof fn lemma_filter_empty<A>(s: Seq<A>, p: spec_fn(A) -> bool)
    ensures
        (s.filter(p).len() == 0) <==> (forall|i: int| 0 <= i < s.len() ==> !p(#[trigger] s[i])),
    decreases s.len(),
{
    reveal(Seq::filter);
    if s.len() > 0 {
        lemma_filter_empty(s.drop_last(), p);
        if s.filter(p).len() == 0 {
            assert forall|i: int| 0 <= i < s.len() implies !p(#[trigger] s[i]) by {
                if i < s.len() - 1 {
                    assert(s.drop_last()[i] == s[i]);
                }
            }
        } else {
            if !p(s.last()) {
                let i = choose|i: int| 0 <= i < s.drop_last().len() && p(s.drop_last()[i]);
                assert(s[i] == s.drop_last()[i]);
            }
        }
    }
}

/// Non-strict identity order: `a` comes no later than `b`.
pub open spec fn id_leq() -> spec_fn(Seq<char>, Seq<char>) -> bool {
    |a: Seq<char>, b: Seq<char>| !seq_lt(b, a)
}

/// The non-strict identity order is a total order.
pub proof fn lemma_id_leq_total_ordering()
    ensures
        total_ordering(id_leq()),
{
    assert forall|x: Seq<char>| #[trigger] id_leq()(x, x) by {
        lemma_seq_lt_irreflexive(x);
    }
    assert forall|x: Seq<char>, y: Seq<char>|
        #[trigger] id_leq()(x, y) && #[trigger] id_leq()(y, x) implies x == y by {
        if x != y {
            lemma_seq_lt_total(x, y);
        }
    }
    assert forall|x: Seq<char>, y: Seq<char>, z: Seq<char>|
        #[trigger] id_leq()(x, y) && #[trigger] id_leq()(y, z) implies id_leq()(x, z) by {
        if seq_lt(z, x) {
            if x == y {
            } else {
                lemma_seq_lt_total(x, y);
                if seq_lt(x, y) {
                    lemma_seq_lt_transitive(z, x, y);
                }
            }
        }
    }
    assert forall|x: Seq<char>, y: Seq<char>|
        #[trigger] id_leq()(x, y) || #[trigger] id_leq()(y, x) by {
        if seq_lt(y, x) {
            lemma_seq_lt_asymmetric(y, x);
        }
    }
}

/// Inserting an element anywhere adds it once to the multiset.
pub proof fn lemma_insert_to_multiset<A>(s: Seq<A>, i: int, x: A)
    requires
        0 <= i <= s.len(),
    ensures
        s.insert(i, x).to_multiset() == s.to_multiset().insert(x),
{
    broadcast use vstd::seq_lib::group_to_multiset_ensures;

    let front = s.take(i);
    let back = s.skip(i);
    assert(s =~= front + back);
    assert(s.insert(i, x) =~= front.push(x) + back);
    vstd::seq_lib::lemma_multiset_commutative(front, back);
    vstd::seq_lib::lemma_multiset_commutative(front.push(x), back);
}

/// Mapping two sequences that hold the same elements gives sequences that
/// hold the same elements.
pub proof fn lemma_map_to_multiset<A, B>(s: Seq<A>, t: Seq<A>, f: spec_fn(A) -> B)
    requires
        s.to_multiset() == t.to_multiset(),
    ensures
        s.map_values(f).to_multiset() == t.map_values(f).to_multiset(),
    decreases s.len(),
{
    broadcast use vstd::seq_lib::group_to_multiset_ensures;

    if s.len() == 0 {
        assert(t.to_multiset().len() == 0);
        assert(t.len() == 0);
        assert(s.map_values(f) =~= t.map_values(f));
    } else {
        let x = s.last();
        assert(s.to_multiset().count(x) > 0) by {
            assert(s.contains(x)) by {
                assert(s[s.len() - 1] == x);
            }
        }
        assert(t.contains(x));
        let j = choose|j: int| 0 <= j < t.len() && t[j] == x;
        let s1 = s.drop_last();
        let t1 = t.remove(j);
        assert(s1 =~= s.remove(s.len() - 1));
        assert(s1.to_multiset() == t1.to_multiset());
        lemma_map_to_multiset(s1, t1, f);
        assert(s.map_values(f).remove(s.len() - 1) =~= s1.map_values(f));
        assert(t.map_values(f).remove(j) =~= t1.map_values(f));
        assert(s.map_values(f).remove(s.len() - 1).to_multiset()
            == s.map_values(f).to_multiset().remove(f(x)));
        assert(t.map_values(f).remove(j).to_multiset()
            == t.map_values(f).to_multiset().remove(f(x)));
        assert(s.map_values(f).to_multiset().count(f(x)) > 0) by {
            assert(s.map_values(f)[s.len() - 1] == f(x));
            assert(s.map_values(f).contains(f(x)));
        }
        assert(t.map_values(f).to_multiset().count(f(x)) > 0) by {
            assert(t.map_values(f)[j] == f(x));
            assert(t.map_values(f).contains(f(x)));
        }
        assert(s.map_values(f).to_multiset() =~= s1.map_values(f).to_multiset().insert(f(x)));
        assert(t.map_values(f).to_multiset() =~= t1.map_values(f).to_multiset().insert(f(x)));
    }
}

/// Filtering keeps a sequence free of duplicates.
pub proof fn lemma_filter_no_duplicates<A>(s: Seq<A>, p: spec_fn(A) -> bool)
    requires
        s.no_duplicates(),
    ensures
        s.filter(p).no_duplicates(),
    decreases s.len(),
{
    reveal(Seq::filter);
    if s.len() > 0 {
        let front = s.drop_last();
        assert(front.no_duplicates()) by {
            assert forall|i: int, j: int| 0 <= i < front.len() && 0 <= j < front.len() && i != j
                implies front[i] != front[j] by {
                assert(front[i] == s[i] && front[j] == s[j]);
            }
        }
        lemma_filter_no_duplicates(front, p);
        if p(s.last()) {
            let f = front.filter(p);
            assert(!f.contains(s.last())) by {
                broadcast use vstd::seq_lib::group_filter_ensures;

                if f.contains(s.last()) {
                    front.lemma_filter_contains_rev(p, s.last());
                    assert(front.contains(s.last()));
                    let k = choose|k: int| 0 <= k < front.len() && front[k] == s.last();
                    assert(s[k] == s[s.len() - 1]);
                }
            }
            assert(s.filter(p) == f.push(s.last()));
            assert forall|i: int, j: int|
                0 <= i < f.push(s.last()).len() && 0 <= j < f.push(s.last()).len() && i != j
                implies f.push(s.last())[i] != f.push(s.last())[j] by {
                if i == f.len() {
                    assert(f.contains(f.push(s.last())[j]));
                } else if j == f.len() {
                    assert(f.contains(f.push(s.last())[i]));
                }
            }
        }
    }
}

/// Every element kept by a filter comes from the filtered sequence.
pub proof fn lemma_filter_subset<A>(s: Seq<A>, p: spec_fn(A) -> bool)
    ensures
        forall|k: int| 0 <= k < s.filter(p).len() ==> s.contains(#[trigger] s.filter(p)[k]),
    decreases s.len(),
{
    reveal(Seq::filter);
    if s.len() > 0 {
        lemma_filter_subset(s.drop_last(), p);
        assert forall|k: int| 0 <= k < s.filter(p).len() implies s.contains(
            #[trigger] s.filter(p)[k],
        ) by {
            if k < s.drop_last().filter(p).len() {
                let x = s.drop_last().filter(p)[k];
                assert(s.drop_last().contains(x));
                let j = choose|j: int| 0 <= j < s.drop_last().len() && s.drop_last()[j] == x;
                assert(s[j] == x);
            } else {
                assert(s[s.len() - 1] == s.filter(p)[k]);
            }
        }
    }
}

} // verus!
