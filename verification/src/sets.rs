//! Lists that hold no item twice, used as sets.
use vstd::prelude::*;
use crate::text;

verus! {

/// The list with an item added, unless it holds it.
pub open spec fn added<T>(list: Seq<T>, item: T) -> Seq<T> {
    if list.contains(item) {
        list
    } else {
        list.push(item)
    }
}

/// The items of a list without those that came before.
pub open spec fn distinct<T>(list: Seq<T>) -> Seq<T>
    decreases list.len(),
{
    if list.len() == 0 {
        Seq::empty()
    } else {
        added(distinct(list.drop_last()), list.last())
    }
}

/// The items of the first list that the second one holds.
pub open spec fn common<T>(a: Seq<T>, b: Seq<T>) -> Seq<T>
    decreases a.len(),
{
    if a.len() == 0 {
        Seq::empty()
    } else if b.contains(a.last()) {
        common(a.drop_last(), b).push(a.last())
    } else {
        common(a.drop_last(), b)
    }
}

/// Adding an item keeps a list free of repetitions and adds that item alone.
pub proof fn law_added<T>(list: Seq<T>, item: T)
    requires
        list.no_duplicates(),
    ensures
        added(list, item).no_duplicates(),
        forall|x: T| added(list, item).contains(x) <==> list.contains(x) || x == item,
{
    if !list.contains(item) {
        let longer = list.push(item);
        assert forall|x: T| longer.contains(x) <==> list.contains(x) || x == item by {
            if list.contains(x) {
                let i = choose|i: int| 0 <= i < list.len() && list[i] == x;
                assert(longer[i] == x);
            }
            assert(longer[list.len() as int] == item);
        }
    }
}

/// Adding an item adds that item alone.
pub proof fn law_added_contains<T>(list: Seq<T>, item: T, x: T)
    ensures
        added(list, item).contains(x) <==> list.contains(x) || x == item,
{
    if !list.contains(item) {
        let longer = list.push(item);
        if list.contains(x) {
            let i = choose|i: int| 0 <= i < list.len() && list[i] == x;
            assert(longer[i] == x);
        }
        assert(longer[list.len() as int] == item);
    }
}

/// A list without repetitions holds the same items.
pub proof fn law_distinct<T>(list: Seq<T>)
    ensures
        distinct(list).no_duplicates(),
        forall|x: T| distinct(list).contains(x) <==> list.contains(x),
    decreases list.len(),
{
    if list.len() > 0 {
        let rest = list.drop_last();
        law_distinct(rest);
        law_added(distinct(rest), list.last());
        assert forall|x: T| list.contains(x) <==> rest.contains(x) || x == list.last() by {
            if list.contains(x) {
                let i = choose|i: int| 0 <= i < list.len() && list[i] == x;
                if i < rest.len() {
                    assert(rest[i] == x);
                }
            }
            if rest.contains(x) {
                let i = choose|i: int| 0 <= i < rest.len() && rest[i] == x;
                assert(list[i] == x);
            }
        }
    }
}

/// What two lists have in common is their intersection.
pub proof fn law_common<T>(a: Seq<T>, b: Seq<T>)
    ensures
        forall|x: T| common(a, b).contains(x) <==> a.contains(x) && b.contains(x),
        a.no_duplicates() ==> common(a, b).no_duplicates(),
    decreases a.len(),
{
    if a.len() > 0 {
        let rest = a.drop_last();
        law_common(rest, b);
        let found = common(rest, b);
        assert forall|x: T| a.contains(x) <==> rest.contains(x) || x == a.last() by {
            if a.contains(x) {
                let i = choose|i: int| 0 <= i < a.len() && a[i] == x;
                if i < rest.len() {
                    assert(rest[i] == x);
                }
            }
            if rest.contains(x) {
                let i = choose|i: int| 0 <= i < rest.len() && rest[i] == x;
                assert(a[i] == x);
            }
        }
        if a.no_duplicates() {
            assert(rest.no_duplicates());
            assert(!rest.contains(a.last())) by {
                if rest.contains(a.last()) {
                    let i = choose|i: int| 0 <= i < rest.len() && rest[i] == a.last();
                    assert(a[i] == a[a.len() - 1]);
                }
            }
        }
        if b.contains(a.last()) {
            let longer = found.push(a.last());
            assert forall|x: T| longer.contains(x) <==> found.contains(x) || x == a.last() by {
                if found.contains(x) {
                    let i = choose|i: int| 0 <= i < found.len() && found[i] == x;
                    assert(longer[i] == x);
                }
                assert(longer[found.len() as int] == a.last());
            }
        }
    }
}

/// A list without repetitions whose items another list holds is not longer.
pub proof fn lemma_not_longer<T>(a: Seq<T>, b: Seq<T>)
    requires
        a.no_duplicates(),
        forall|x: T| a.contains(x) ==> b.contains(x),
    ensures
        a.len() <= b.len(),
{
    broadcast use vstd::seq_lib::seq_to_set_is_finite;

    a.unique_seq_to_set();
    b.lemma_cardinality_of_set();
    assert(a.to_set().subset_of(b.to_set())) by {
        assert forall|x: T| a.to_set().contains(x) implies b.to_set().contains(x) by {
            assert(a.contains(x));
            assert(b.contains(x));
        }
    }
    vstd::set_lib::lemma_len_subset(a.to_set(), b.to_set());
}

pub fn holds_text(list: &Vec<String>, item: &str) -> (r: bool)
    ensures
        r == text::views(list@).contains(item@),
{
    let ghost all = text::views(list@);
    let mut i: usize = 0;
    while i < list.len()
        invariant
            i <= list.len(),
            all == text::views(list@),
            forall|k: int| 0 <= k < i ==> #[trigger] all[k] != item@,
        decreases list.len() - i,
    {
        assert(all[i as int] == list@[i as int]@);
        if text::text_eq(list[i].as_str(), item) {
            return true;
        }
        i = i + 1;
    }
    false
}

pub fn add_text(list: &mut Vec<String>, item: String)
    ensures
        text::views(final(list)@) == added(text::views(old(list)@), item@),
        old(list)@.is_prefix_of(final(list)@),
{
    if !holds_text(list, item.as_str()) {
        let ghost prior = list@;
        let ghost last = item@;
        list.push(item);
        assert(text::views(list@) =~= text::views(prior).push(last));
    }
}

/// The texts of the first list that the second one holds.
pub fn common_texts(a: &Vec<String>, b: &Vec<String>) -> (r: Vec<String>)
    ensures
        text::views(r@) == common(text::views(a@), text::views(b@)),
{
    let ghost all = text::views(a@);
    let ghost other = text::views(b@);
    let mut out: Vec<String> = Vec::new();
    let mut i: usize = 0;
    assert(all.take(0) =~= Seq::<Seq<char>>::empty());
    assert(text::views(out@) =~= common(all.take(0), other));
    while i < a.len()
        invariant
            i <= a.len(),
            all == text::views(a@),
            other == text::views(b@),
            text::views(out@) == common(all.take(i as int), other),
        decreases a.len() - i,
    {
        assert(all.take(i as int + 1).drop_last() =~= all.take(i as int));
        assert(all.take(i as int + 1).last() == a@[i as int]@);
        if holds_text(b, a[i].as_str()) {
            let ghost prior = out@;
            out.push(a[i].clone());
            assert(text::views(out@) =~= text::views(prior).push(a@[i as int]@));
        }
        i = i + 1;
    }
    assert(all.take(all.len() as int) =~= all);
    out
}

pub fn holds(list: &Vec<i64>, item: i64) -> (r: bool)
    ensures
        r == list@.contains(item),
{
    let mut i: usize = 0;
    while i < list.len()
        invariant
            i <= list.len(),
            forall|k: int| 0 <= k < i ==> list@[k] != item,
        decreases list.len() - i,
    {
        if list[i] == item {
            return true;
        }
        i = i + 1;
    }
    false
}

pub fn add_number(list: &mut Vec<i64>, item: i64)
    ensures
        final(list)@ == added(old(list)@, item),
{
    if !holds(list, item) {
        list.push(item);
    }
}

/// The numbers of the first list that the second one holds.
pub fn common_numbers(a: &Vec<i64>, b: &Vec<i64>) -> (r: Vec<i64>)
    ensures
        r@ == common(a@, b@),
{
    let mut out: Vec<i64> = Vec::new();
    let mut i: usize = 0;
    assert(a@.take(0) =~= Seq::<i64>::empty());
    while i < a.len()
        invariant
            i <= a.len(),
            out@ == common(a@.take(i as int), b@),
        decreases a.len() - i,
    {
        assert(a@.take(i as int + 1).drop_last() =~= a@.take(i as int));
        if holds(b, a[i]) {
            out.push(a[i]);
        }
        i = i + 1;
    }
    assert(a@.take(a@.len() as int) =~= a@);
    out
}

} // verus!
