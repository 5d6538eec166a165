//! Values under keys, of which only so many are kept.
use vstd::prelude::*;
use crate::store;
use crate::store::Keyed;

verus! {

/// Values under keys, each key once.
#[derive(Debug)]
pub struct Bounded<K: Keyed, V> {
    keys: Vec<K>,
    kept: Vec<V>,
}

/// The place of a key.
pub closed spec fn place<K: Keyed>(keys: Seq<K>, key: <K as View>::V) -> int {
    choose|i: int| 0 <= i < keys.len() && (#[trigger] keys[i])@ == key
}

impl<K: Keyed, V> View for Bounded<K, V> {
    type V = Map<<K as View>::V, V>;

    closed spec fn view(&self) -> Map<<K as View>::V, V> {
        Map::new(
            |key: <K as View>::V| store::key_views(self.keys@).contains(key),
            |key: <K as View>::V| self.kept@[place(self.keys@, key)],
        )
    }
}

impl<K: Keyed, V> Bounded<K, V> {
    #[verifier::type_invariant]
    spec fn well_formed(&self) -> bool {
        &&& self.keys@.len() == self.kept@.len()
        &&& store::key_views(self.keys@).no_duplicates()
    }

    pub fn new() -> (b: Bounded<K, V>)
        ensures
            b@ == Map::<<K as View>::V, V>::empty(),
    {
        let b = Bounded { keys: Vec::new(), kept: Vec::new() };
        assert(b@ =~= Map::<<K as View>::V, V>::empty());
        b
    }

    /// How many values are kept.
    pub fn len(&self) -> (n: usize)
        ensures
            self@.dom().finite(),
            n == self@.dom().len(),
    {
        proof {
            use_type_invariant(self);
            let views = store::key_views(self.keys@);
            views.unique_seq_to_set();
            assert(self@.dom() =~= views.to_set());
        }
        self.keys.len()
    }

    fn find(&self, key: &K) -> (r: Option<usize>)
        ensures
            match r {
                Some(i) => i < self.keys@.len() && self.keys@[i as int]@ == key@
                    && self@.dom().contains(key@) && place(self.keys@, key@) == i,
                None => !self@.dom().contains(key@),
            },
    {
        proof {
            use_type_invariant(self);
        }
        let ghost views = store::key_views(self.keys@);
        let mut i: usize = 0;
        while i < self.keys.len()
            invariant
                i <= self.keys.len(),
                views == store::key_views(self.keys@),
                views.no_duplicates(),
                forall|k: int| 0 <= k < i ==> #[trigger] views[k] != key@,
            decreases self.keys.len() - i,
        {
            assert(views[i as int] == self.keys@[i as int]@);
            if self.keys[i].same_key(key) {
                proof {
                    assert(views.contains(key@));
                    let at = place(self.keys@, key@);
                    assert(self.keys@[i as int]@ == key@);
                    assert(0 <= at < self.keys@.len() && self.keys@[at]@ == key@);
                    assert(views[at] == views[i as int]);
                }
                return Some(i);
            }
            i = i + 1;
        }
        None
    }

    /// The value under a key.
    pub fn get(&self, key: &K) -> (r: Option<&V>)
        ensures
            match (r, store::value(self@, key@)) {
                (Some(v), Some(view)) => *v == view,
                (None, None) => true,
                _ => false,
            },
    {
        proof {
            use_type_invariant(self);
        }
        match self.find(key) {
            Some(i) => Some(&self.kept[i]),
            None => None,
        }
    }

    /// Takes the value under a key out.
    pub fn take(&mut self, key: &K) -> (r: Option<V>)
        ensures
            r == store::value(old(self)@, key@),
            final(self)@ == old(self)@.remove(key@),
    {
        proof {
            use_type_invariant(&*self);
        }
        let ghost before = self@;
        match self.find(key) {
            None => {
                assert(before.remove(key@) =~= before);
                None
            },
            Some(at) => {
                let ghost old_keys = self.keys@;
                let ghost old_kept = self.kept@;
                let mut whole: Bounded<K, V> = Bounded::new();
                std::mem::swap(&mut whole, self);
                let Bounded { mut keys, mut kept } = whole;
                keys.remove(at);
                let value = kept.remove(at);
                proof {
                    lemma_removed::<K, V>(old_keys, old_kept, keys@, kept@, at as int, key@);
                }
                *self = Bounded { keys, kept };
                assert(self@ =~= before.remove(key@));
                Some(value)
            },
        }
    }

    /// Takes everything out.
    pub fn clear(&mut self)
        ensures
            final(self)@ == Map::<<K as View>::V, V>::empty(),
    {
        *self = Bounded::new();
    }

    /// Keeps a value under a key.
    pub fn insert(&mut self, key: K, value: V)
        ensures
            final(self)@ == old(self)@.insert(key@, value),
    {
        let ghost before = self@;
        let ghost k = key@;
        self.take(&key);
        proof {
            use_type_invariant(&*self);
        }
        let ghost without = self@;
        let ghost old_keys = self.keys@;
        let ghost old_kept = self.kept@;
        let mut whole: Bounded<K, V> = Bounded::new();
        std::mem::swap(&mut whole, self);
        let Bounded { mut keys, mut kept } = whole;
        keys.push(key);
        kept.push(value);
        proof {
            assert(keys@.drop_last() =~= old_keys);
            assert(kept@.drop_last() =~= old_kept);
            assert(!without.dom().contains(k));
            lemma_pushed::<K, V>(old_keys, old_kept, keys@, kept@, k);
        }
        *self = Bounded { keys, kept };
        assert(self@ =~= without.insert(k, value));
        assert(self@ =~= before.insert(k, value));
    }
}

proof fn lemma_place<K: Keyed>(keys: Seq<K>, i: int)
    requires
        0 <= i < keys.len(),
        store::key_views(keys).no_duplicates(),
    ensures
        place(keys, keys[i]@) == i,
{
    let views = store::key_views(keys);
    let at = place(keys, keys[i]@);
    assert(0 <= at < keys.len() && keys[at]@ == keys[i]@);
    assert(views[at] == views[i]);
}

proof fn lemma_removed<K: Keyed, V>(
    old_keys: Seq<K>,
    old_kept: Seq<V>,
    keys: Seq<K>,
    kept: Seq<V>,
    at: int,
    key: <K as View>::V,
)
    requires
        old_keys.len() == old_kept.len(),
        store::key_views(old_keys).no_duplicates(),
        0 <= at < old_keys.len(),
        old_keys[at]@ == key,
        keys == old_keys.remove(at),
        kept == old_kept.remove(at),
    ensures
        keys.len() == kept.len(),
        store::key_views(keys).no_duplicates(),
        forall|k: <K as View>::V| #[trigger]
            store::key_views(keys).contains(k) <==> store::key_views(old_keys).contains(k) && k
                != key,
        forall|k: <K as View>::V| #[trigger]
            store::key_views(keys).contains(k) ==> kept[place(keys, k)] == old_kept[place(
                old_keys,
                k,
            )],
{
    let views = store::key_views(keys);
    let old_views = store::key_views(old_keys);
    assert forall|i: int, j: int| 0 <= i < views.len() && 0 <= j < views.len() && i
        != j implies views[i] != views[j] by {
        let a = if i < at {
            i
        } else {
            i + 1
        };
        let b = if j < at {
            j
        } else {
            j + 1
        };
        assert(views[i] == old_views[a]);
        assert(views[j] == old_views[b]);
    }
    assert forall|k: <K as View>::V| #[trigger] views.contains(k) implies old_views.contains(k) && k
        != key && kept[place(keys, k)] == old_kept[place(old_keys, k)] by {
        let i = choose|i: int| 0 <= i < views.len() && views[i] == k;
        let a = if i < at {
            i
        } else {
            i + 1
        };
        assert(old_views[a] == k);
        assert(old_views[at] == key);
        assert(keys[i]@ == k);
        assert(old_keys[a]@ == k);
        lemma_place(keys, i);
        lemma_place(old_keys, a);
    }
    assert forall|k: <K as View>::V| old_views.contains(k) && k != key implies #[trigger] views.contains(
        k,
    ) by {
        let a = choose|a: int| 0 <= a < old_views.len() && old_views[a] == k;
        let i = if a < at {
            a
        } else {
            a - 1
        };
        assert(views[i] == k);
    }
}

proof fn lemma_pushed<K: Keyed, V>(
    old_keys: Seq<K>,
    old_kept: Seq<V>,
    keys: Seq<K>,
    kept: Seq<V>,
    key: <K as View>::V,
)
    requires
        old_keys.len() == old_kept.len(),
        store::key_views(old_keys).no_duplicates(),
        !store::key_views(old_keys).contains(key),
        keys.len() == old_keys.len() + 1,
        kept.len() == old_kept.len() + 1,
        keys.drop_last() == old_keys,
        kept.drop_last() == old_kept,
        keys.last()@ == key,
    ensures
        store::key_views(keys).no_duplicates(),
        forall|k: <K as View>::V| #[trigger]
            store::key_views(keys).contains(k) <==> store::key_views(old_keys).contains(k) || k
                == key,
        kept[place(keys, key)] == kept.last(),
        forall|k: <K as View>::V| #[trigger]
            store::key_views(old_keys).contains(k) ==> kept[place(keys, k)] == old_kept[place(
                old_keys,
                k,
            )],
{
    let views = store::key_views(keys);
    let old_views = store::key_views(old_keys);
    let n = old_keys.len() as int;
    assert(views[n] == key);
    assert forall|i: int| 0 <= i < n implies #[trigger] views[i] == old_views[i] by {
        assert(keys[i] == keys.drop_last()[i]);
    }
    assert forall|i: int, j: int| 0 <= i < views.len() && 0 <= j < views.len() && i
        != j implies views[i] != views[j] by {
        if i == n {
            assert(old_views.contains(old_views[j]));
        } else if j == n {
            assert(old_views.contains(old_views[i]));
        }
    }
    lemma_place(keys, n);
    assert forall|k: <K as View>::V| #[trigger] views.contains(k) implies old_views.contains(k) || k
        == key by {
        let i = choose|i: int| 0 <= i < views.len() && views[i] == k;
        if i < n {
            assert(old_views[i] == k);
        }
    }
    assert forall|k: <K as View>::V| #[trigger] old_views.contains(k) implies views.contains(k)
        && kept[place(keys, k)] == old_kept[place(old_keys, k)] by {
        let i = choose|i: int| 0 <= i < old_views.len() && old_views[i] == k;
        assert(views[i] == k);
        lemma_place(keys, i);
        lemma_place(old_keys, i);
        assert(keys[i]@ == k);
        assert(old_keys[i]@ == k);
        assert(kept[i] == kept.drop_last()[i]);
    }
}

} // verus!
