//! Lists in the order of names.
use vstd::prelude::*;
use crate::order;

verus! {

/// What has a name.
pub trait Titled: Sized {
    spec fn title(&self) -> Seq<char>;

    fn name_of(&self) -> (r: &str)
        ensures
            r@ == self.title(),
    ;
}

/// A list in order with one more item put in, behind those whose names do not come
/// after its own.
pub open spec fn put_by_name<T: Titled>(list: Seq<T>, item: T) -> Seq<T>
    decreases list.len(),
{
    if list.len() == 0 || !order::precedes(item.title(), list.last().title()) {
        list.push(item)
    } else {
        put_by_name(list.drop_last(), item).push(list.last())
    }
}

/// A list in the order of its names. Items with one name stay in the order they came
/// in.
pub open spec fn by_name<T: Titled>(list: Seq<T>) -> Seq<T>
    decreases list.len(),
{
    if list.len() == 0 {
        Seq::empty()
    } else {
        put_by_name(by_name(list.drop_last()), list.last())
    }
}

/// Whether no item has a name that comes before that of an earlier one.
pub open spec fn in_name_order<T: Titled>(list: Seq<T>) -> bool {
    forall|i: int, j: int|
        0 <= i < j < list.len() ==> !order::precedes(
            #[trigger] list[j].title(),
            #[trigger] list[i].title(),
        )
}

proof fn lemma_put<T: Titled>(list: Seq<T>, item: T)
    requires
        in_name_order(list),
    ensures
        in_name_order(put_by_name(list, item)),
        put_by_name(list, item).to_multiset() == list.push(item).to_multiset(),
        put_by_name(list, item).len() == list.len() + 1,
        forall|k: int|
            0 <= k < put_by_name(list, item).len() ==> (#[trigger] put_by_name(list, item)[k]
                == item || list.contains(put_by_name(list, item)[k])),
    decreases list.len(),
{
    let out = put_by_name(list, item);
    if list.len() == 0 || !order::precedes(item.title(), list.last().title()) {
        assert forall|i: int, j: int| 0 <= i < j < out.len() implies !order::precedes(
            #[trigger] out[j].title(),
            #[trigger] out[i].title(),
        ) by {
            if j == list.len() {
                assert(out[i] == list[i]);
                if i < list.len() - 1 {
                    let last = list[list.len() - 1].title();
                    if order::precedes(item.title(), list[i].title()) {
                        order::law_total(list[i].title(), last);
                        if order::precedes(list[i].title(), last) {
                            order::law_transitive(item.title(), list[i].title(), last);
                        }
                    }
                }
            } else {
                assert(!order::precedes(list[j].title(), list[i].title()));
            }
        }
        assert forall|k: int| 0 <= k < out.len() implies (#[trigger] out[k] == item
            || list.contains(out[k])) by {
            if k < list.len() {
                assert(out[k] == list[k]);
            }
        }
    } else {
        let rest = list.drop_last();
        let inner = put_by_name(rest, item);
        assert(in_name_order(rest));
        lemma_put(rest, item);
        assert forall|i: int, j: int| 0 <= i < j < out.len() implies !order::precedes(
            #[trigger] out[j].title(),
            #[trigger] out[i].title(),
        ) by {
            if j == inner.len() {
                assert(out[i] == inner[i]);
                if inner[i] == item {
                    order::law_total(item.title(), list.last().title());
                } else {
                    let k = choose|k: int| 0 <= k < rest.len() && rest[k] == inner[i];
                    assert(list[k] == inner[i]);
                    assert(!order::precedes(list[list.len() - 1].title(), list[k].title()));
                }
            } else {
                assert(out[i] == inner[i]);
                assert(out[j] == inner[j]);
            }
        }
        assert forall|k: int| 0 <= k < out.len() implies (#[trigger] out[k] == item
            || list.contains(out[k])) by {
            if k < inner.len() {
                assert(out[k] == inner[k]);
                if inner[k] != item {
                    let j = choose|j: int| 0 <= j < rest.len() && rest[j] == inner[k];
                    assert(list[j] == out[k]);
                }
            } else {
                assert(list[list.len() - 1] == out[k]);
            }
        }
        broadcast use vstd::seq_lib::group_to_multiset_ensures;

        assert(rest.push(list.last()) =~= list);
        assert(out.to_multiset() =~= list.push(item).to_multiset());
    }
}

/// A list in the order of its names is in that order, and has the items that the list
/// has, each as often.
pub proof fn law_by_name<T: Titled>(list: Seq<T>)
    ensures
        in_name_order(by_name(list)),
        by_name(list).to_multiset() == list.to_multiset(),
    decreases list.len(),
{
    if list.len() > 0 {
        let rest = list.drop_last();
        law_by_name(rest);
        lemma_put(by_name(rest), list.last());
        broadcast use vstd::seq_lib::group_to_multiset_ensures;

        assert(rest.push(list.last()) =~= list);
        assert(by_name(list).to_multiset() =~= list.to_multiset());
    } else {
        assert(by_name(list) =~= list);
    }
}

fn put_item<T: Titled>(list: &mut Vec<T>, item: T)
    ensures
        final(list)@ == put_by_name(old(list)@, item),
{
    let ghost before = list@;
    let mut at: usize = list.len();
    assert(before.take(at as int) =~= before);
    assert(put_by_name(before.take(at as int), item) + before.skip(at as int) =~= put_by_name(
        before,
        item,
    ));
    while at > 0 && order::before(item.name_of(), list[at - 1].name_of())
        invariant
            list@ == before,
            at <= before.len(),
            put_by_name(before, item) == put_by_name(before.take(at as int), item) + before.skip(
                at as int,
            ),
        decreases at,
    {
        let ghost taken = before.take(at as int);
        assert(taken.last() == before[at - 1]);
        assert(taken.drop_last() =~= before.take(at - 1));
        assert(put_by_name(before.take(at - 1), item).push(before[at - 1]) + before.skip(at as int)
            =~= put_by_name(before.take(at - 1), item) + before.skip(at - 1));
        at = at - 1;
    }
    let ghost taken = before.take(at as int);
    assert(put_by_name(taken, item) == taken.push(item)) by {
        if at > 0 {
            assert(taken.last() == before[at - 1]);
        }
    }
    list.insert(at, item);
    assert(list@ =~= taken.push(item) + before.skip(at as int));
}

/// A list in the order of its names.
pub fn sort_by_name<T: Titled>(list: Vec<T>) -> (r: Vec<T>)
    ensures
        r@ == by_name(list@),
{
    let ghost all = list@;
    let mut rest = list;
    let mut out: Vec<T> = Vec::new();
    let mut taken: Vec<T> = Vec::new();
    while rest.len() > 0
        invariant
            all == rest@ + taken@.reverse(),
        decreases rest.len(),
    {
        let ghost before = rest@;
        let ghost moved = taken@;
        match rest.pop() {
            Some(item) => {
                taken.push(item);
                assert(rest@ + taken@.reverse() =~= before + moved.reverse());
            },
            None => {},
        }
    }
    assert(all =~= taken@.reverse());
    let ghost count = all.len();
    assert(all.take(0) =~= Seq::<T>::empty());
    while taken.len() > 0
        invariant
            taken@.len() <= all.len(),
            all == all.take(all.len() - taken@.len()) + taken@.reverse(),
            out@ == by_name(all.take(all.len() - taken@.len())),
        decreases taken.len(),
    {
        let ghost before = taken@;
        let ghost done = all.len() - before.len();
        match taken.pop() {
            Some(item) => {
                assert(all[done] == item) by {
                    assert(before.reverse()[0] == item);
                    assert((all.take(done) + before.reverse())[done] == item);
                }
                assert(all.take(done + 1).drop_last() =~= all.take(done));
                assert(all.take(done + 1).last() == item);
                put_item(&mut out, item);
                assert(all =~= all.take(done + 1) + taken@.reverse()) by {
                    assert forall|k: int| 0 <= k < all.len() implies all[k] == (all.take(done + 1)
                        + taken@.reverse())[k] by {
                        if k > done {
                            assert(all[k] == (all.take(done) + before.reverse())[k]);
                        }
                    }
                }
            },
            None => {},
        }
    }
    assert(all.take(all.len() as int) =~= all);
    out
}

} // verus!
