//! Items that are picked out of a list, in their order.
use vstd::prelude::*;

verus! {

/// The items stand in the list at those places, one behind the other.
pub open spec fn stands_at<T>(kept: Seq<T>, list: Seq<T>, places: Seq<int>) -> bool {
    &&& places.len() == kept.len()
    &&& forall|k: int|
        0 <= k < places.len() ==> 0 <= #[trigger] places[k] < list.len() && list[places[k]]
            == kept[k]
    &&& forall|k: int, l: int| 0 <= k < l < places.len() ==> #[trigger] places[k] < #[trigger] places[l]
}

/// The items are exactly those of the list at the places that are wanted.
pub open spec fn picked<T>(kept: Seq<T>, list: Seq<T>, wanted: spec_fn(int) -> bool) -> bool {
    exists|places: Seq<int>| #[trigger]
        stands_at(kept, list, places) && forall|i: int|
            #![trigger wanted(i)]
            #![trigger places.contains(i)]
            0 <= i < list.len() ==> (places.contains(i) <==> wanted(i))
}

/// One item more in the list is picked where it is wanted.
pub proof fn lemma_picked_next<T>(kept: Seq<T>, list: Seq<T>, wanted: spec_fn(int) -> bool)
    requires
        list.len() > 0,
        picked(kept, list.drop_last(), wanted),
    ensures
        wanted(list.len() - 1) ==> picked(kept.push(list.last()), list, wanted),
        !wanted(list.len() - 1) ==> picked(kept, list, wanted),
{
    let rest = list.drop_last();
    let places = choose|places: Seq<int>| #[trigger]
        stands_at(kept, rest, places) && forall|i: int|
            #![trigger wanted(i)]
            #![trigger places.contains(i)]
            0 <= i < rest.len() ==> (places.contains(i) <==> wanted(i));
    let last = list.len() - 1;
    assert forall|k: int| 0 <= k < places.len() implies 0 <= #[trigger] places[k] < rest.len()
        && list[places[k]] == kept[k] by {
        assert(rest[places[k]] == kept[k]);
    }
    if wanted(last) {
        let more = places.push(last);
        let longer = kept.push(list.last());
        assert forall|k: int| 0 <= k < more.len() implies 0 <= #[trigger] more[k] < list.len()
            && list[more[k]] == longer[k] by {
            if k < places.len() {
                assert(more[k] == places[k]);
                assert(longer[k] == kept[k]);
            }
        }
        assert forall|k: int, l: int| 0 <= k < l < more.len() implies #[trigger] more[k]
            < #[trigger] more[l] by {
            assert(more[k] == places[k]);
            if l < places.len() {
                assert(more[l] == places[l]);
            }
        }
        assert(stands_at(longer, list, more));
        assert forall|i: int|
            #![trigger wanted(i)]
            #![trigger more.contains(i)]
            0 <= i < list.len() implies (more.contains(i) <==> wanted(i)) by {
            if i == last {
                assert(more[places.len() as int] == i);
            } else {
                assert(places.contains(i) <==> wanted(i));
                if places.contains(i) {
                    let k = choose|k: int| 0 <= k < places.len() && places[k] == i;
                    assert(more[k] == i);
                }
                if more.contains(i) {
                    let k = choose|k: int| 0 <= k < more.len() && more[k] == i;
                    assert(places[k] == i);
                }
            }
        }
    } else {
        assert(stands_at(kept, list, places));
        assert forall|i: int|
            #![trigger wanted(i)]
            #![trigger places.contains(i)]
            0 <= i < list.len() implies (places.contains(i) <==> wanted(i)) by {
            if i == last && places.contains(i) {
                let k = choose|k: int| 0 <= k < places.len() && places[k] == i;
                assert(0 <= places[k] < rest.len());
            }
        }
    }
}

/// Nothing is picked out of nothing.
pub proof fn lemma_picked_none<T>(kept: Seq<T>, list: Seq<T>, wanted: spec_fn(int) -> bool)
    requires
        list.len() == 0,
        kept.len() == 0,
    ensures
        picked(kept, list, wanted),
{
    let places = Seq::<int>::empty();
    assert(stands_at(kept, list, places));
}

/// What is wanted alike in the list is picked alike.
pub proof fn lemma_picked_alike<T>(
    kept: Seq<T>,
    list: Seq<T>,
    wanted: spec_fn(int) -> bool,
    other: spec_fn(int) -> bool,
)
    requires
        picked(kept, list, wanted),
        forall|i: int| 0 <= i < list.len() ==> (#[trigger] wanted(i) <==> other(i)),
    ensures
        picked(kept, list, other),
{
    let places = choose|places: Seq<int>| #[trigger]
        stands_at(kept, list, places) && forall|i: int|
            #![trigger wanted(i)]
            #![trigger places.contains(i)]
            0 <= i < list.len() ==> (places.contains(i) <==> wanted(i));
    assert(stands_at(kept, list, places));
    assert forall|i: int|
        #![trigger other(i)]
        #![trigger places.contains(i)]
        0 <= i < list.len() implies (places.contains(i) <==> other(i)) by {
        assert(wanted(i) <==> other(i));
    }
}

/// A picked item is one of the list, at a place that is wanted, and an item at such a
/// place is picked.
pub proof fn lemma_picked_items<T>(kept: Seq<T>, list: Seq<T>, wanted: spec_fn(int) -> bool)
    requires
        picked(kept, list, wanted),
    ensures
        forall|k: int|
            0 <= k < kept.len() ==> exists|i: int|
                0 <= i < list.len() && wanted(i) && #[trigger] list[i] == #[trigger] kept[k],
        forall|i: int|
            0 <= i < list.len() && #[trigger] wanted(i) ==> kept.contains(list[i]),
        kept.len() <= list.len(),
{
    let places = choose|places: Seq<int>| #[trigger]
        stands_at(kept, list, places) && forall|i: int|
            #![trigger wanted(i)]
            #![trigger places.contains(i)]
            0 <= i < list.len() ==> (places.contains(i) <==> wanted(i));
    assert forall|k: int| 0 <= k < kept.len() implies exists|i: int|
        0 <= i < list.len() && wanted(i) && #[trigger] list[i] == #[trigger] kept[k] by {
        let i = places[k];
        assert(places.contains(i));
        assert(wanted(i));
        assert(list[i] == kept[k]);
    }
    assert forall|i: int| 0 <= i < list.len() && #[trigger] wanted(i) implies kept.contains(
        list[i],
    ) by {
        assert(places.contains(i));
        let k = choose|k: int| 0 <= k < places.len() && places[k] == i;
        assert(kept[k] == list[i]);
    }
    if kept.len() > 0 {
        lemma_places_grow(kept, list, places, kept.len() - 1);
    }
}

proof fn lemma_places_grow<T>(kept: Seq<T>, list: Seq<T>, places: Seq<int>, k: int)
    requires
        stands_at(kept, list, places),
        0 <= k < places.len(),
    ensures
        places[k] >= k,
    decreases k,
{
    if k > 0 {
        lemma_places_grow(kept, list, places, k - 1);
        assert(places[k - 1] < places[k]);
    }
}

} // verus!
