//! Sums over maps and over lists of pairs.
use vstd::prelude::*;

verus! {

/// The sum of what `f` gives for the entries of a map.
pub open spec fn map_sum<A, B>(m: Map<A, B>, f: spec_fn(A, B) -> nat) -> nat
    decreases m.dom().len(),
    when m.dom().finite()
{
    if m.dom().len() == 0 {
        0
    } else {
        let k = m.dom().choose();
        f(k, m[k]) + map_sum(m.remove(k), f)
    }
}

/// The sum of what `f` gives for the pairs of a list.
pub open spec fn pair_sum<A, B>(list: Seq<(A, B)>, f: spec_fn(A, B) -> nat) -> nat
    decreases list.len(),
{
    if list.len() == 0 {
        0
    } else {
        pair_sum(list.drop_last(), f) + f(list.last().0, list.last().1)
    }
}

/// Every entry of the map is in the list.
pub open spec fn covers<A, B>(list: Seq<(A, B)>, m: Map<A, B>) -> bool {
    forall|k: A| #[trigger] m.dom().contains(k) ==> list.contains((k, m[k]))
}

/// Any entry of a map may be taken out first.
pub proof fn lemma_map_sum_removed<A, B>(m: Map<A, B>, f: spec_fn(A, B) -> nat, k: A)
    requires
        m.dom().finite(),
        m.dom().contains(k),
    ensures
        map_sum(m, f) == f(k, m[k]) + map_sum(m.remove(k), f),
    decreases m.dom().len(),
{
    assert(m.dom().len() > 0) by {
        if m.dom().len() == 0 {
            assert(m.dom() =~= Set::empty());
        }
    }
    let first = m.dom().choose();
    assert(m.dom().contains(first)) by {
        vstd::set::axiom_set_choose_len(m.dom());
    }
    if first != k {
        let rest = m.remove(first);
        assert(rest.dom() =~= m.dom().remove(first));
        lemma_map_sum_removed(rest, f, k);
        let other = m.remove(k);
        assert(other.dom() =~= m.dom().remove(k));
        lemma_map_sum_removed(other, f, first);
        assert(rest.remove(k) =~= other.remove(first));
    }
}

/// A map sums up to no more than a list that every entry of it is in.
pub proof fn lemma_covered<A, B>(m: Map<A, B>, list: Seq<(A, B)>, f: spec_fn(A, B) -> nat)
    requires
        covers(list, m),
    ensures
        m.dom().finite(),
        map_sum(m, f) <= pair_sum(list, f),
    decreases list.len(),
{
    if list.len() == 0 {
        assert(m.dom() =~= Set::empty());
    } else {
        let rest = list.drop_last();
        let (k, v) = list.last();
        if m.dom().contains(k) && m[k] == v {
            let less = m.remove(k);
            assert forall|other: A| #[trigger] less.dom().contains(other) implies rest.contains(
                (other, less[other]),
            ) by {
                assert(m.dom().contains(other));
                let i = choose|i: int| 0 <= i < list.len() && list[i] == (other, m[other]);
                assert(rest[i] == list[i]);
            }
            lemma_covered(less, rest, f);
            assert(m.dom() =~= less.dom().insert(k));
            lemma_map_sum_removed(m, f, k);
        } else {
            assert forall|other: A| #[trigger] m.dom().contains(other) implies rest.contains(
                (other, m[other]),
            ) by {
                let i = choose|i: int| 0 <= i < list.len() && list[i] == (other, m[other]);
                assert(rest[i] == list[i]);
            }
            lemma_covered(m, rest, f);
        }
    }
}

spec fn one<A, B>() -> spec_fn(A, B) -> nat {
    |a: A, b: B| 1nat
}

proof fn lemma_ones<A, B>(m: Map<A, B>)
    requires
        m.dom().finite(),
    ensures
        map_sum(m, one::<A, B>()) == m.dom().len(),
    decreases m.dom().len(),
{
    if m.dom().len() > 0 {
        let k = m.dom().choose();
        assert(m.dom().contains(k)) by {
            vstd::set::axiom_set_choose_len(m.dom());
        }
        assert(m.remove(k).dom() =~= m.dom().remove(k));
        lemma_ones(m.remove(k));
    }
}

proof fn lemma_pair_ones<A, B>(list: Seq<(A, B)>)
    ensures
        pair_sum(list, one::<A, B>()) == list.len(),
    decreases list.len(),
{
    if list.len() > 0 {
        lemma_pair_ones(list.drop_last());
    }
}

/// A map has no more entries than a list that every entry of it is in.
pub proof fn lemma_counted<A, B>(m: Map<A, B>, list: Seq<(A, B)>)
    requires
        covers(list, m),
    ensures
        m.dom().len() <= list.len(),
{
    lemma_covered(m, list, one::<A, B>());
    lemma_ones(m);
    lemma_pair_ones(list);
}

/// Maps with the same keys sum up to the same where each entry counts the same.
pub proof fn lemma_same_sum<A, B, C>(
    m: Map<A, B>,
    n: Map<A, C>,
    f: spec_fn(A, B) -> nat,
    g: spec_fn(A, C) -> nat,
)
    requires
        m.dom() == n.dom(),
        forall|k: A| m.dom().contains(k) ==> #[trigger] f(k, m[k]) == g(k, n[k]),
    ensures
        m.dom().finite() ==> map_sum(m, f) == map_sum(n, g),
    decreases m.dom().len(),
{
    if m.dom().finite() && m.dom().len() > 0 {
        let k = m.dom().choose();
        assert(m.dom().contains(k)) by {
            vstd::set::axiom_set_choose_len(m.dom());
        }
        assert(f(k, m[k]) == g(k, n[k]));
        let x = m.remove(k);
        let y = n.remove(k);
        assert(x.dom() =~= m.dom().remove(k));
        assert(y.dom() =~= x.dom());
        assert forall|j: A| x.dom().contains(j) implies #[trigger] f(j, x[j]) == g(j, y[j]) by {
            assert(f(j, m[j]) == g(j, n[j]));
        }
        lemma_same_sum(x, y, f, g);
    }
}

} // verus!
