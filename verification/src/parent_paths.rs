//! The paths of records that have parents.
use vstd::prelude::*;
use crate::error;
use crate::error::SqlError;
use crate::sets;
use crate::store;
use crate::store::Store;
use crate::text;

verus! {

/// The parent of a record, where it has one that is there.
pub open spec fn parent(parents: Map<i64, Option<i64>>, id: i64) -> Option<i64> {
    match store::value(parents, id) {
        Some(Some(p)) => if parents.dom().contains(p) {
            Some(p)
        } else {
            None
        },
        _ => None,
    }
}

pub open spec fn step(id: i64) -> Seq<char> {
    text::signed_decimal(id as int) + "/"@
}

/// The path of a record that has at most so many records above it.
pub open spec fn path_within(parents: Map<i64, Option<i64>>, id: i64, n: nat) -> Option<Seq<char>>
    decreases n,
{
    match parent(parents, id) {
        None => Some(step(id)),
        Some(p) => if n == 0 {
            None
        } else {
            match path_within(parents, p, (n - 1) as nat) {
                Some(above) => Some(above + step(id)),
                None => None,
            }
        },
    }
}

pub open spec fn ends_within(parents: Map<i64, Option<i64>>, id: i64, n: nat) -> bool {
    path_within(parents, id, n) is Some
}

/// The path of a record: the numbers from the topmost record above it down to its
/// own, each with a slash. A record in or below a cycle has none.
pub open spec fn store_path(parents: Map<i64, Option<i64>>, id: i64) -> Option<Seq<char>> {
    if exists|n: nat| ends_within(parents, id, n) {
        path_within(parents, id, choose|n: nat| ends_within(parents, id, n))
    } else {
        None
    }
}

proof fn lemma_more_steps(parents: Map<i64, Option<i64>>, id: i64, n: nat, m: nat)
    requires
        n <= m,
        path_within(parents, id, n) is Some,
    ensures
        path_within(parents, id, m) == path_within(parents, id, n),
    decreases n,
{
    match parent(parents, id) {
        None => {},
        Some(p) => {
            lemma_more_steps(parents, p, (n - 1) as nat, (m - 1) as nat);
        },
    }
}

proof fn lemma_path(parents: Map<i64, Option<i64>>, id: i64, n: nat)
    requires
        path_within(parents, id, n) is Some,
    ensures
        store_path(parents, id) == path_within(parents, id, n),
{
    assert(ends_within(parents, id, n));
    let m = choose|m: nat| ends_within(parents, id, m);
    if m <= n {
        lemma_more_steps(parents, id, m, n);
    } else {
        lemma_more_steps(parents, id, n, m);
    }
}

/// A record without a parent has its own number as its path, and one with a parent
/// has the path of its parent and its own number.
pub proof fn law_path(parents: Map<i64, Option<i64>>, id: i64)
    ensures
        store_path(parents, id) == (match parent(parents, id) {
            None => Some(step(id)),
            Some(p) => match store_path(parents, p) {
                Some(above) => Some(above + step(id)),
                None => None,
            },
        }),
{
    match parent(parents, id) {
        None => {
            lemma_path(parents, id, 0);
        },
        Some(p) => {
            if store_path(parents, p) is Some {
                let n = choose|n: nat| ends_within(parents, p, n);
                assert(path_within(parents, id, n + 1) == Some(
                    path_within(parents, p, n)->0 + step(id),
                ));
                lemma_path(parents, id, n + 1);
            } else if store_path(parents, id) is Some {
                let n = choose|n: nat| ends_within(parents, id, n);
                assert(ends_within(parents, p, (n - 1) as nat));
                lemma_path(parents, p, (n - 1) as nat);
            }
        },
    }
}

/// Whether the parents of all records of a list are in it.
pub open spec fn closed_under_parent(parents: Map<i64, Option<i64>>, list: Seq<i64>) -> bool {
    forall|k: int|
        0 <= k < list.len() ==> parent(parents, #[trigger] list[k]) is Some && list.contains(
            parent(parents, list[k])->0,
        )
}

proof fn lemma_never_ends(parents: Map<i64, Option<i64>>, list: Seq<i64>, id: i64, n: nat)
    requires
        closed_under_parent(parents, list),
        list.contains(id),
    ensures
        path_within(parents, id, n) is None,
    decreases n,
{
    let k = choose|k: int| 0 <= k < list.len() && list[k] == id;
    assert(parent(parents, list[k]) is Some);
    if n > 0 {
        lemma_never_ends(parents, list, parent(parents, id)->0, (n - 1) as nat);
    }
}

/// Records whose parents are all among them have no path.
pub proof fn law_cycle_has_no_path(parents: Map<i64, Option<i64>>, list: Seq<i64>, id: i64)
    requires
        closed_under_parent(parents, list),
        list.contains(id),
    ensures
        store_path(parents, id) is None,
{
    assert forall|n: nat| !ends_within(parents, id, n) by {
        lemma_never_ends(parents, list, id, n);
    }
}

/// Whether each path that is kept is the path of its record.
pub open spec fn paths_hold(parents: Map<i64, Option<i64>>, cache: Map<i64, String>) -> bool {
    forall|id: i64| #[trigger]
        cache.dom().contains(id) ==> store_path(parents, id) == Some(cache[id]@)
}

pub open spec fn cycle_error() -> error::ErrorView {
    error::invalid_sql_error("cycle detected while computing parent_path"@)
}

/// Whether each record of a list has the next as its parent.
spec fn linked(parents: Map<i64, Option<i64>>, chain: Seq<i64>) -> bool {
    forall|k: int|
        0 <= k < chain.len() - 1 ==> parent(parents, #[trigger] chain[k]) == Some(chain[k + 1])
}

/// The path of a record. Paths that are kept are used, and those that are found on
/// the way are kept.
pub fn parent_store_path_for_id(
    id: i64,
    parents: &Store<i64, Option<i64>>,
    cache: &mut Store<i64, String>,
) -> (r: Result<String, SqlError>)
    requires
        paths_hold(parents@, old(cache)@),
    ensures
        paths_hold(parents@, final(cache)@),
        forall|kept: i64| #[trigger]
            old(cache)@.dom().contains(kept) ==> final(cache)@.dom().contains(kept),
        match (r, store_path(parents@, id)) {
            (Ok(path), Some(view)) => path@ == view && final(cache)@.dom().contains(id),
            (Err(e), None) => e@ == cycle_error(),
            _ => false,
        },
{
    let keys = parents.keys();
    let ghost known = store::key_views(keys@);
    let ghost map = parents@;
    let mut chain: Vec<i64> = Vec::new();
    let mut current: i64 = id;
    let mut base = String::new();
    let mut above: bool = false;
    let mut done: bool = false;
    assert(base@ =~= Seq::empty());
    while !done
        invariant
            map == parents@,
            cache@ == old(cache)@,
            paths_hold(map, cache@),
            known == store::key_views(keys@),
            forall|name: i64| #[trigger] known.contains(name) <==> map.dom().contains(name),
            chain@.no_duplicates(),
            linked(map, chain@),
            chain@.len() > 0 ==> chain@[0] == id,
            chain@.len() == 0 ==> current == id,
            !done ==> !above && (chain@.len() > 0 ==> parent(map, chain@.last()) == Some(current))
                && (forall|k: int|
                0 <= k < chain@.len() ==> map.dom().contains(#[trigger] chain@[k])),
            done && above ==> store_path(map, current) == Some(base@) && cache@.dom().contains(current)
                && (chain@.len() > 0 ==> parent(map, chain@.last()) == Some(current)),
            done && !above ==> chain@.len() > 0 && parent(map, chain@.last()) is None,
            !above ==> base@ == Seq::<char>::empty(),
        decreases keys.len() + 1 - chain.len() + (if done {
                0int
            } else {
                1
            }),
    {
        proof {
            assert(known.len() == keys@.len());
            assert forall|x: i64| chain@.contains(x) implies known.contains(x) by {
                let k = choose|k: int| 0 <= k < chain@.len() && chain@[k] == x;
                assert(map.dom().contains(chain@[k]));
            }
            sets::lemma_not_longer(chain@, known);
        }
        let cached = match cache.get(&current) {
            Some(path) => Some(path.clone()),
            None => None,
        };
        match cached {
            Some(path) => {
                base = path;
                above = true;
                done = true;
            },
            None => {
                if sets::holds(&chain, current) {
                    proof {
                        assert forall|k: int| 0 <= k < chain@.len() implies parent(
                            map,
                            #[trigger] chain@[k],
                        ) is Some && chain@.contains(parent(map, chain@[k])->0) by {
                            if k < chain@.len() - 1 {
                                assert(chain@.contains(chain@[k + 1]));
                            } else {
                                assert(chain@[k] == chain@.last());
                            }
                        }
                        assert(chain@.contains(chain@[0]));
                        law_cycle_has_no_path(map, chain@, id);
                    }
                    return Err(
                        SqlError::invalid_sql(
                            "cycle detected while computing parent_path".to_owned(),
                        ),
                    );
                }
                let ghost before = chain@;
                chain.push(current);
                let next = match parents.get(&current) {
                    Some(Some(p)) => if parents.get(p).is_some() {
                        Some(*p)
                    } else {
                        None
                    },
                    _ => None,
                };
                assert(next == parent(map, current));
                assert(linked(map, chain@)) by {
                    assert forall|k: int| 0 <= k < chain@.len() - 1 implies parent(
                        map,
                        #[trigger] chain@[k],
                    ) == Some(chain@[k + 1]) by {
                        if k < before.len() - 1 {
                            assert(parent(map, before[k]) == Some(before[k + 1]));
                        } else {
                            assert(before.last() == chain@[k]);
                        }
                    }
                }
                match next {
                    Some(p) => {
                        current = p;
                    },
                    None => {
                        done = true;
                    },
                }
            },
        }
    }
    let mut path = base;
    let mut i: usize = chain.len();
    let ghost start = cache@;
    while i > 0
        invariant
            i <= chain.len(),
            map == parents@,
            linked(map, chain@),
            chain@.len() > 0 ==> chain@[0] == id,
            start == old(cache)@,
            paths_hold(map, cache@),
            forall|kept: i64| #[trigger]
                start.dom().contains(kept) ==> cache@.dom().contains(kept),
            i < chain.len() ==> store_path(map, chain@[i as int]) == Some(path@)
                && cache@.dom().contains(chain@[i as int]),
            i == chain.len() && above ==> store_path(map, current) == Some(path@)
                && cache@.dom().contains(current) && (chain@.len() > 0 ==> parent(
                map,
                chain@.last(),
            ) == Some(current)),
            i == chain.len() && !above ==> chain@.len() > 0 && parent(map, chain@.last()) is None
                && path@ == Seq::<char>::empty(),
        decreases i,
    {
        let at = i - 1;
        let number = text::signed_text(chain[at]);
        let ghost prior = path@;
        let longer = text::concat3(path.as_str(), number.as_str(), "/");
        assert(longer@ =~= prior + step(chain@[at as int]));
        proof {
            law_path(map, chain@[at as int]);
            if i < chain.len() {
                assert(parent(map, chain@[at as int]) == Some(chain@[at + 1]));
            } else {
                assert(chain@.last() == chain@[at as int]);
                if !above {
                    assert(Seq::<char>::empty() + step(chain@[at as int]) =~= step(
                        chain@[at as int],
                    ));
                }
            }
            assert(store_path(map, chain@[at as int]) == Some(longer@));
        }
        cache.insert(chain[at], longer.clone());
        path = longer;
        i = at;
    }
    Ok(path)
}

} // verus!
