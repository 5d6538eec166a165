//! What can be reached from a start by steps.
use vstd::prelude::*;

verus! {

/// What is reached from the seeds by at most that many steps.
pub open spec fn reached<T>(
    seeds: spec_fn(T) -> bool,
    step: spec_fn(T, T) -> bool,
    steps: nat,
) -> Set<T>
    decreases steps,
{
    if steps == 0 {
        Set::new(seeds)
    } else {
        let before = reached(seeds, step, (steps - 1) as nat);
        before.union(
            Set::new(|y: T| exists|x: T| #[trigger] before.contains(x) && step(x, y)),
        )
    }
}

/// It is reached from the seeds by steps.
pub open spec fn reachable<T>(
    seeds: spec_fn(T) -> bool,
    step: spec_fn(T, T) -> bool,
    x: T,
) -> bool {
    exists|steps: nat| #[trigger] reached(seeds, step, steps).contains(x)
}

/// The seeds are reached.
pub proof fn law_seed<T>(seeds: spec_fn(T) -> bool, step: spec_fn(T, T) -> bool, x: T)
    requires
        seeds(x),
    ensures
        reachable(seeds, step, x),
{
    assert(reached(seeds, step, 0).contains(x));
}

/// What a step leads to from something reached is reached.
pub proof fn law_step<T>(seeds: spec_fn(T) -> bool, step: spec_fn(T, T) -> bool, x: T, y: T)
    requires
        reachable(seeds, step, x),
        step(x, y),
    ensures
        reachable(seeds, step, y),
{
    let steps = choose|steps: nat| #[trigger] reached(seeds, step, steps).contains(x);
    assert(reached(seeds, step, steps + 1).contains(y));
}

proof fn lemma_reached_in_closed<T>(
    seeds: spec_fn(T) -> bool,
    step: spec_fn(T, T) -> bool,
    found: Seq<T>,
    x: T,
    steps: nat,
)
    requires
        forall|s: T| #[trigger] seeds(s) ==> found.contains(s),
        forall|a: T, b: T| found.contains(a) && #[trigger] step(a, b) ==> found.contains(b),
        reached(seeds, step, steps).contains(x),
    ensures
        found.contains(x),
    decreases steps,
{
    if steps > 0 {
        let earlier = (steps - 1) as nat;
        let before = reached(seeds, step, earlier);
        if before.contains(x) {
            lemma_reached_in_closed(seeds, step, found, x, earlier);
        } else {
            let a = choose|a: T| #[trigger] before.contains(a) && step(a, x);
            lemma_reached_in_closed(seeds, step, found, a, earlier);
        }
    } else {
        assert(seeds(x));
    }
}

/// A list that holds the seeds and whatever a step leads to from its items holds
/// all that is reached.
pub proof fn law_closed<T>(
    seeds: spec_fn(T) -> bool,
    step: spec_fn(T, T) -> bool,
    found: Seq<T>,
    x: T,
)
    requires
        forall|s: T| #[trigger] seeds(s) ==> found.contains(s),
        forall|a: T, b: T| found.contains(a) && #[trigger] step(a, b) ==> found.contains(b),
        reachable(seeds, step, x),
    ensures
        found.contains(x),
{
    let steps = choose|steps: nat| #[trigger] reached(seeds, step, steps).contains(x);
    lemma_reached_in_closed(seeds, step, found, x, steps);
}

proof fn lemma_wider_reached<T>(
    seeds: spec_fn(T) -> bool,
    step: spec_fn(T, T) -> bool,
    wider: spec_fn(T, T) -> bool,
    x: T,
    steps: nat,
)
    requires
        forall|a: T, b: T| #[trigger] step(a, b) ==> wider(a, b),
        reached(seeds, step, steps).contains(x),
    ensures
        reachable(seeds, wider, x),
    decreases steps,
{
    if steps > 0 {
        let earlier = (steps - 1) as nat;
        let before = reached(seeds, step, earlier);
        if before.contains(x) {
            lemma_wider_reached(seeds, step, wider, x, earlier);
        } else {
            let a = choose|a: T| #[trigger] before.contains(a) && step(a, x);
            lemma_wider_reached(seeds, step, wider, a, earlier);
            law_step(seeds, wider, a, x);
        }
    } else {
        assert(seeds(x));
        law_seed(seeds, wider, x);
    }
}

/// What is reached by some steps is reached where further ones are allowed.
pub proof fn law_wider<T>(
    seeds: spec_fn(T) -> bool,
    step: spec_fn(T, T) -> bool,
    wider: spec_fn(T, T) -> bool,
    x: T,
)
    requires
        forall|a: T, b: T| #[trigger] step(a, b) ==> wider(a, b),
        reachable(seeds, step, x),
    ensures
        reachable(seeds, wider, x),
{
    let steps = choose|steps: nat| #[trigger] reached(seeds, step, steps).contains(x);
    lemma_wider_reached(seeds, step, wider, x, steps);
}

/// The pairs of an item of one list and an item of another.
pub open spec fn pairs<A, B>(a: Seq<A>, b: Seq<B>) -> Seq<(A, B)>
    decreases a.len(),
{
    if a.len() == 0 {
        Seq::empty()
    } else {
        pairs(a.drop_last(), b) + b.map_values(|y: B| (a.last(), y))
    }
}

/// A pair of items is among the pairs.
pub proof fn lemma_pairs<A, B>(a: Seq<A>, b: Seq<B>, x: A, y: B)
    requires
        a.contains(x),
        b.contains(y),
    ensures
        pairs(a, b).contains((x, y)),
    decreases a.len(),
{
    let before = pairs(a.drop_last(), b);
    let last = b.map_values(|y: B| (a.last(), y));
    let i = choose|i: int| 0 <= i < a.len() && a[i] == x;
    if i == a.len() - 1 {
        let j = choose|j: int| 0 <= j < b.len() && b[j] == y;
        assert(last[j] == (x, y));
        assert(pairs(a, b)[before.len() + j] == (x, y));
    } else {
        assert(a.drop_last()[i] == x);
        lemma_pairs(a.drop_last(), b, x, y);
        let k = choose|k: int| 0 <= k < before.len() && before[k] == (x, y);
        assert(pairs(a, b)[k] == (x, y));
    }
}

} // verus!
