//! The order of texts, and lists of texts kept in it.
use vstd::prelude::*;
use crate::text;

verus! {

/// The first text comes before the second one, looking from that position on:
/// at the first character in which they differ it has the lesser one, or it
/// ends first.
pub open spec fn precedes_from(a: Seq<char>, b: Seq<char>, from: int) -> bool
    decreases b.len() - from,
{
    if from < 0 || from >= b.len() {
        false
    } else if from >= a.len() {
        true
    } else if a[from] != b[from] {
        a[from] < b[from]
    } else {
        precedes_from(a, b, from + 1)
    }
}

/// The first text comes before the second one.
pub open spec fn precedes(a: Seq<char>, b: Seq<char>) -> bool {
    precedes_from(a, b, 0)
}

pub fn before(a: &str, b: &str) -> (r: bool)
    ensures
        r == precedes(a@, b@),
{
    let x = text::chars_of(a);
    let y = text::chars_of(b);
    let mut i: usize = 0;
    while i < y.len() && i < x.len() && x[i] == y[i]
        invariant
            i <= y.len(),
            i <= x.len(),
            x@ == a@,
            y@ == b@,
            precedes(a@, b@) == precedes_from(a@, b@, i as int),
        decreases y.len() - i,
    {
        i = i + 1;
    }
    if i >= y.len() {
        false
    } else if i >= x.len() {
        true
    } else {
        x[i] < y[i]
    }
}

proof fn lemma_transitive_from(a: Seq<char>, b: Seq<char>, c: Seq<char>, from: int)
    requires
        0 <= from,
        precedes_from(a, b, from),
        precedes_from(b, c, from),
    ensures
        precedes_from(a, c, from),
    decreases c.len() - from,
{
    if from < a.len() && from < b.len() && from < c.len() && a[from] == b[from] && b[from]
        == c[from] {
        lemma_transitive_from(a, b, c, from + 1);
    }
}

/// The order of texts is transitive.
pub proof fn law_transitive(a: Seq<char>, b: Seq<char>, c: Seq<char>)
    requires
        precedes(a, b),
        precedes(b, c),
    ensures
        precedes(a, c),
{
    lemma_transitive_from(a, b, c, 0);
}

proof fn lemma_total_from(a: Seq<char>, b: Seq<char>, from: int)
    requires
        0 <= from <= a.len(),
        from <= b.len(),
        forall|k: int| 0 <= k < from ==> a[k] == b[k],
    ensures
        precedes_from(a, b, from) || precedes_from(b, a, from) || a == b,
        !(precedes_from(a, b, from) && precedes_from(b, a, from)),
        a == b ==> !precedes_from(a, b, from),
    decreases a.len() - from,
{
    if from < a.len() && from < b.len() {
        if a[from] == b[from] {
            lemma_total_from(a, b, from + 1);
        }
    } else if from == a.len() && from == b.len() {
        assert(a =~= b);
    }
}

/// Of two texts exactly one comes first, unless they are the same.
pub proof fn law_total(a: Seq<char>, b: Seq<char>)
    ensures
        precedes(a, b) || precedes(b, a) || a == b,
        !(precedes(a, b) && precedes(b, a)),
        a == b ==> !precedes(a, b),
{
    lemma_total_from(a, b, 0);
}

/// Each text comes before the later ones.
pub open spec fn ascending(list: Seq<Seq<char>>) -> bool {
    forall|i: int, j: int| 0 <= i < j < list.len() ==> precedes(#[trigger] list[i], #[trigger] list[j])
}

/// An ordered list with a text put in its place, unless it is there.
pub open spec fn put_in(list: Seq<Seq<char>>, item: Seq<char>) -> Seq<Seq<char>>
    decreases list.len(),
{
    if list.len() == 0 || precedes(list.last(), item) {
        list.push(item)
    } else if list.last() == item {
        list
    } else {
        put_in(list.drop_last(), item).push(list.last())
    }
}

/// Putting a text in its place keeps the order and adds that text alone.
pub proof fn law_put_in(list: Seq<Seq<char>>, item: Seq<char>)
    requires
        ascending(list),
    ensures
        ascending(put_in(list, item)),
        forall|x: Seq<char>| #[trigger]
            put_in(list, item).contains(x) <==> list.contains(x) || x == item,
    decreases list.len(),
{
    let result = put_in(list, item);
    if list.len() == 0 || precedes(list.last(), item) {
        assert forall|i: int, j: int| 0 <= i < j < result.len() implies precedes(
            #[trigger] result[i],
            #[trigger] result[j],
        ) by {
            if j < list.len() {
                assert(result[i] == list[i] && result[j] == list[j]);
            } else if i < list.len() - 1 {
                assert(list.last() == list[list.len() - 1]);
                law_transitive(list[i], list.last(), item);
            }
        }
        assert forall|x: Seq<char>| result.contains(x) <==> list.contains(x) || x == item by {
            if list.contains(x) {
                let i = choose|i: int| 0 <= i < list.len() && list[i] == x;
                assert(result[i] == x);
            }
            assert(result[list.len() as int] == item);
        }
    } else if list.last() == item {
        assert(list[list.len() - 1] == item);
    } else {
        let rest = list.drop_last();
        law_put_in(rest, item);
        law_total(list.last(), item);
        let inner = put_in(rest, item);
        assert forall|x: Seq<char>| list.contains(x) <==> rest.contains(x) || x == list.last() by {
            if list.contains(x) {
                let i = choose|i: int| 0 <= i < list.len() && list[i] == x;
                if i < rest.len() {
                    assert(rest[i] == x);
                }
            }
            if rest.contains(x) {
                let i = choose|i: int| 0 <= i < rest.len() && rest[i] == x;
                assert(list[i] == x);
            }
            assert(list[list.len() - 1] == list.last());
        }
        assert forall|x: Seq<char>| result.contains(x) <==> inner.contains(x) || x
            == list.last() by {
            if inner.contains(x) {
                let i = choose|i: int| 0 <= i < inner.len() && inner[i] == x;
                assert(result[i] == x);
            }
            assert(result[inner.len() as int] == list.last());
        }
        assert forall|i: int, j: int| 0 <= i < j < result.len() implies precedes(
            #[trigger] result[i],
            #[trigger] result[j],
        ) by {
            if j < inner.len() {
                assert(result[i] == inner[i] && result[j] == inner[j]);
            } else {
                assert(result[i] == inner[i]);
                assert(inner.contains(inner[i]));
                if inner[i] != item {
                    assert(rest.contains(inner[i]));
                    let k = choose|k: int| 0 <= k < rest.len() && rest[k] == inner[i];
                    assert(rest[k] == list[k]);
                    assert(list.last() == list[list.len() - 1]);
                }
            }
        }
    }
}

proof fn lemma_put_in_at(list: Seq<Seq<char>>, item: Seq<char>, at: int)
    requires
        0 <= at <= list.len(),
        at == 0 || precedes(list[at - 1], item),
        forall|k: int| at <= k < list.len() ==> !precedes(#[trigger] list[k], item) && list[k]
            != item,
    ensures
        put_in(list, item) == list.insert(at, item),
    decreases list.len(),
{
    if at == list.len() {
        assert(list.insert(at, item) =~= list.push(item));
        if list.len() > 0 {
            assert(list.last() == list[at - 1]);
        }
    } else {
        let rest = list.drop_last();
        assert(list.last() == list[list.len() - 1]);
        assert forall|k: int| at <= k < rest.len() implies !precedes(#[trigger] rest[k], item)
            && rest[k] != item by {
            assert(rest[k] == list[k]);
        }
        lemma_put_in_at(rest, item, at);
        assert(rest.insert(at, item).push(list.last()) =~= list.insert(at, item));
    }
}

proof fn lemma_put_in_present(list: Seq<Seq<char>>, item: Seq<char>, at: int)
    requires
        0 <= at < list.len(),
        list[at] == item,
        forall|k: int| at < k < list.len() ==> !precedes(#[trigger] list[k], item) && list[k]
            != item,
    ensures
        put_in(list, item) == list,
    decreases list.len(),
{
    law_total(item, item);
    if at < list.len() - 1 {
        let rest = list.drop_last();
        assert(list.last() == list[list.len() - 1]);
        assert forall|k: int| at < k < rest.len() implies !precedes(#[trigger] rest[k], item)
            && rest[k] != item by {
            assert(rest[k] == list[k]);
        }
        lemma_put_in_present(rest, item, at);
        assert(rest.push(list.last()) =~= list);
    } else {
        assert(list.last() == list[at]);
    }
}

/// Puts a text in its place in an ordered list, unless it is there.
pub fn put(list: &mut Vec<String>, item: String)
    ensures
        text::views(final(list)@) == put_in(text::views(old(list)@), item@),
{
    let ghost all = text::views(list@);
    let mut at: usize = list.len();
    while at > 0 && !before(list[at - 1].as_str(), item.as_str())
        invariant
            at <= list.len(),
            all == text::views(list@),
            all == text::views(old(list)@),
            list@ == old(list)@,
            forall|k: int| at <= k < all.len() ==> !precedes(#[trigger] all[k], item@) && all[k]
                != item@,
        decreases at,
    {
        assert(all[at - 1] == list@[at - 1]@);
        if text::text_eq(list[at - 1].as_str(), item.as_str()) {
            proof {
                lemma_put_in_present(all, item@, at - 1);
            }
            return ;
        }
        at = at - 1;
    }
    proof {
        if at > 0 {
            assert(all[at - 1] == list@[at - 1]@);
        }
        lemma_put_in_at(all, item@, at as int);
    }
    let ghost shown = item@;
    list.insert(at, item);
    assert(text::views(list@) =~= all.insert(at as int, shown));
}

/// The texts of a list in order, each once, added to those there are.
pub open spec fn put_all(list: Seq<Seq<char>>, items: Seq<Seq<char>>) -> Seq<Seq<char>>
    decreases items.len(),
{
    if items.len() == 0 {
        list
    } else {
        put_in(put_all(list, items.drop_last()), items.last())
    }
}

pub fn put_each(list: &mut Vec<String>, items: &Vec<String>)
    ensures
        text::views(final(list)@) == put_all(text::views(old(list)@), text::views(items@)),
{
    let ghost start = text::views(list@);
    let ghost all = text::views(items@);
    let mut i: usize = 0;
    assert(all.take(0) =~= Seq::<Seq<char>>::empty());
    while i < items.len()
        invariant
            i <= items.len(),
            all == text::views(items@),
            text::views(list@) == put_all(start, all.take(i as int)),
        decreases items.len() - i,
    {
        assert(all.take(i as int + 1).drop_last() =~= all.take(i as int));
        assert(all.take(i as int + 1).last() == items@[i as int]@);
        put(list, items[i].clone());
        i = i + 1;
    }
    assert(all.take(all.len() as int) =~= all);
}

/// What putting in each text of a list yields is in order and holds what there
/// was and those texts.
pub proof fn law_put_all(list: Seq<Seq<char>>, items: Seq<Seq<char>>)
    requires
        ascending(list),
    ensures
        ascending(put_all(list, items)),
        forall|x: Seq<char>| #[trigger]
            put_all(list, items).contains(x) <==> list.contains(x) || items.contains(x),
    decreases items.len(),
{
    if items.len() > 0 {
        let rest = items.drop_last();
        law_put_all(list, rest);
        law_put_in(put_all(list, rest), items.last());
        assert forall|x: Seq<char>| items.contains(x) <==> rest.contains(x) || x == items.last() by {
            if items.contains(x) {
                let i = choose|i: int| 0 <= i < items.len() && items[i] == x;
                if i < rest.len() {
                    assert(rest[i] == x);
                }
            }
            if rest.contains(x) {
                let i = choose|i: int| 0 <= i < rest.len() && rest[i] == x;
                assert(items[i] == x);
            }
            assert(items[items.len() - 1] == items.last());
        }
    }
}

} // verus!
