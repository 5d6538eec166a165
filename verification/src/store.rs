//! Values under keys.
use vstd::prelude::*;
use crate::sums;
use crate::text;

verus! {

/// Values under keys.
#[derive(Debug)]
pub struct Store<K: Keyed, V> {
    entries: Vec<(K, V)>,
}

/// `Vec::capacity`: how many items a list has room for, which is never less than
/// it has. What it is beyond that is up to the allocator.
#[verifier::external_body]
fn allocated<T>(list: &Vec<T>) -> (r: usize)
    ensures
        r >= list@.len(),
{
    list.capacity()
}

/// What values can stand under.
pub trait Keyed: Sized + View {
    fn same_key(&self, other: &Self) -> (r: bool)
        ensures
            r == (self@ == other@),
    ;

    fn copied_key(&self) -> (r: Self)
        ensures
            r@ == self@,
    ;
}

impl Keyed for String {
    fn same_key(&self, other: &Self) -> (r: bool) {
        text::text_eq(self.as_str(), other.as_str())
    }

    fn copied_key(&self) -> (r: Self) {
        self.clone()
    }
}

impl Keyed for i64 {
    fn same_key(&self, other: &Self) -> (r: bool) {
        *self == *other
    }

    fn copied_key(&self) -> (r: Self) {
        *self
    }
}

pub open spec fn key_views<K: Keyed>(v: Seq<K>) -> Seq<<K as View>::V> {
    v.map_values(|k: K| k@)
}

/// The value under a key, searched from there on.
pub closed spec fn lookup<K: Keyed, V>(entries: Seq<(K, V)>, name: <K as View>::V, from: int) -> Option<V>
    decreases entries.len() - from,
{
    if from < 0 || from >= entries.len() {
        None
    } else if entries[from].0@ == name {
        Some(entries[from].1)
    } else {
        lookup(entries, name, from + 1)
    }
}

pub closed spec fn store_map<K: Keyed, V>(entries: Seq<(K, V)>) -> Map<<K as View>::V, V> {
    Map::new(
        |name: <K as View>::V| lookup(entries, name, 0) is Some,
        |name: <K as View>::V| lookup(entries, name, 0)->0,
    )
}

impl<K: Keyed, V> View for Store<K, V> {
    type V = Map<<K as View>::V, V>;

    closed spec fn view(&self) -> Map<<K as View>::V, V> {
        store_map(self.entries@)
    }
}

/// The value under a key.
pub open spec fn value<A, V>(m: Map<A, V>, name: A) -> Option<V> {
    if m.dom().contains(name) {
        Some(m[name])
    } else {
        None
    }
}

proof fn lemma_value<K: Keyed, V>(entries: Seq<(K, V)>, name: <K as View>::V)
    ensures
        value(store_map(entries), name) == lookup(entries, name, 0),
{
}

proof fn lemma_no_lookup<K: Keyed, V>(entries: Seq<(K, V)>, name: <K as View>::V, from: int)
    requires
        0 <= from,
        forall|k: int| from <= k < entries.len() ==> (#[trigger] entries[k]).0@ != name,
    ensures
        lookup(entries, name, from) is None,
    decreases entries.len() - from,
{
    if from < entries.len() {
        lemma_no_lookup(entries, name, from + 1);
    }
}

/// Lists that agree on which entries a name leads to agree on its value.
proof fn lemma_replaced<K: Keyed, V>(
    entries: Seq<(K, V)>,
    replaced: Seq<(K, V)>,
    at: int,
    other: <K as View>::V,
    from: int,
)
    requires
        0 <= from,
        0 <= at < entries.len(),
        replaced.len() == entries.len(),
        forall|k: int| 0 <= k < entries.len() && k != at ==> #[trigger] replaced[k] == entries[k],
        replaced[at].0@ == entries[at].0@,
        other != entries[at].0@,
    ensures
        lookup(replaced, other, from) == lookup(entries, other, from),
    decreases entries.len() - from,
{
    if from < entries.len() {
        if from != at {
            assert(replaced[from] == entries[from]);
        }
        lemma_replaced(entries, replaced, at, other, from + 1);
    }
}

proof fn lemma_found<K: Keyed, V>(entries: Seq<(K, V)>, at: int, from: int)
    requires
        0 <= from <= at < entries.len(),
        forall|k: int| from <= k < at ==> (#[trigger] entries[k]).0@ != entries[at].0@,
    ensures
        lookup(entries, entries[at].0@, from) == Some(entries[at].1),
    decreases at - from,
{
    if from < at {
        assert(entries[from].0@ != entries[at].0@);
        lemma_found(entries, at, from + 1);
    }
}

proof fn lemma_pushed<K: Keyed, V>(
    entries: Seq<(K, V)>,
    entry: (K, V),
    name: <K as View>::V,
    from: int,
)
    requires
        0 <= from <= entries.len(),
    ensures
        lookup(entries.push(entry), name, from) == (match lookup(entries, name, from) {
            Some(value) => Some(value),
            None => if entry.0@ == name {
                Some(entry.1)
            } else {
                None
            },
        }),
    decreases entries.len() - from,
{
    let longer = entries.push(entry);
    if from < entries.len() {
        assert(longer[from] == entries[from]);
        lemma_pushed(entries, entry, name, from + 1);
    } else {
        assert(longer[from] == entry);
        assert(lookup(longer, name, from + 1) is None);
    }
}

proof fn lemma_removed<K: Keyed, V>(entries: Seq<(K, V)>, at: int, other: <K as View>::V, from: int)
    requires
        0 <= from,
        0 <= at < entries.len(),
        other != entries[at].0@,
    ensures
        from <= at ==> lookup(entries.remove(at), other, from) == lookup(entries, other, from),
        from > at ==> lookup(entries.remove(at), other, from - 1) == lookup(entries, other, from),
    decreases entries.len() - from,
{
    let rest = entries.remove(at);
    if from < entries.len() {
        lemma_removed(entries, at, other, from + 1);
        if from < at {
            assert(rest[from] == entries[from]);
        } else if from > at {
            assert(rest[from - 1] == entries[from]);
        }
    }
}

proof fn lemma_present<K: Keyed, V>(entries: Seq<(K, V)>, at: int, from: int)
    requires
        0 <= from <= at < entries.len(),
    ensures
        lookup(entries, entries[at].0@, from) is Some,
    decreases at - from,
{
    if from < at {
        lemma_present(entries, at, from + 1);
    }
}

proof fn lemma_where<K: Keyed, V>(entries: Seq<(K, V)>, name: <K as View>::V, from: int) -> (k: int)
    requires
        0 <= from,
        lookup(entries, name, from) is Some,
    ensures
        from <= k < entries.len(),
        entries[k].0@ == name,
        lookup(entries, name, from) == Some(entries[k].1),
    decreases entries.len() - from,
{
    if entries[from].0@ == name {
        from
    } else {
        lemma_where(entries, name, from + 1)
    }
}

impl<K: Keyed, V> Store<K, V> {
    pub fn new() -> (s: Store<K, V>)
        ensures
            s@ == Map::<<K as View>::V, V>::empty(),
    {
        let s = Store { entries: Vec::new() };
        assert(s@ =~= Map::<<K as View>::V, V>::empty());
        s
    }

    /// The value under a key.
    pub fn get(&self, name: &K) -> (r: Option<&V>)
        ensures
            match (r, value(self@, name@)) {
                (Some(v), Some(view)) => *v == view,
                (None, None) => true,
                _ => false,
            },
    {
        proof {
            lemma_value(self.entries@, name@);
        }
        let mut i: usize = 0;
        while i < self.entries.len()
            invariant
                i <= self.entries.len(),
                value(self@, name@) == lookup(self.entries@, name@, i as int),
            decreases self.entries.len() - i,
        {
            if self.entries[i].0.same_key(name) {
                return Some(&self.entries[i].1);
            }
            i = i + 1;
        }
        None
    }

    /// Puts a value under a key.
    pub fn insert(&mut self, name: K, value: V)
        ensures
            final(self)@ == old(self)@.insert(name@, value),
    {
        let ghost before = self.entries@;
        let ghost n = name@;
        let ghost v = value;
        let mut i: usize = 0;
        while i < self.entries.len()
            invariant
                i <= self.entries.len(),
                self.entries@ == before,
                self@ == old(self)@,
                n == name@,
                v == value,
                forall|k: int| 0 <= k < i ==> (#[trigger] before[k]).0@ != n,
            decreases self.entries.len() - i,
        {
            if self.entries[i].0.same_key(&name) {
                self.entries.set(i, (name, value));
                proof {
                    let after = self.entries@;
                    assert forall|k: int| 0 <= k < i implies (#[trigger] after[k]).0@
                        != after[i as int].0@ by {
                        assert(after[k] == before[k]);
                    }
                    lemma_found(after, i as int, 0);
                    assert forall|other: <K as View>::V| other != n implies #[trigger] lookup(
                        after,
                        other,
                        0,
                    ) == lookup(before, other, 0) by {
                        lemma_replaced(before, after, i as int, other, 0);
                    }
                    assert(self@ =~= store_map(before).insert(n, v));
                }
                return ;
            }
            i = i + 1;
        }
        self.entries.push((name, value));
        proof {
            let after = self.entries@;
            lemma_no_lookup(before, n, 0);
            assert forall|other: <K as View>::V| #[trigger]
                lookup(after, other, 0) == (if other == n {
                    Some(v)
                } else {
                    lookup(before, other, 0)
                }) by {
                lemma_pushed(before, after[before.len() as int], other, 0);
                assert(after =~= before.push(after[before.len() as int]));
            }
            assert(self@ =~= store_map(before).insert(n, v));
        }
    }

    /// Takes away what is under a key.
    pub fn remove(&mut self, name: &K)
        ensures
            final(self)@ == old(self)@.remove(name@),
    {
        let ghost before = self.entries@;
        let mut i: usize = 0;
        while i < self.entries.len()
            invariant
                i <= self.entries.len(),
                forall|k: int| 0 <= k < i ==> (#[trigger] self.entries@[k]).0@ != name@,
                forall|other: <K as View>::V| other != name@ ==> #[trigger] lookup(
                    self.entries@,
                    other,
                    0,
                ) == lookup(before, other, 0),
            decreases self.entries.len() - i,
        {
            if self.entries[i].0.same_key(name) {
                let ghost prior = self.entries@;
                let _ = self.entries.remove(i);
                proof {
                    assert forall|other: <K as View>::V| other != name@ implies #[trigger] lookup(
                        self.entries@,
                        other,
                        0,
                    ) == lookup(before, other, 0) by {
                        lemma_removed(prior, i as int, other, 0);
                        assert(self.entries@ == prior.remove(i as int));
                    }
                    assert forall|k: int| 0 <= k < i implies (#[trigger] self.entries@[k]).0@
                        != name@ by {
                        assert(self.entries@[k] == prior[k]);
                    }
                }
            } else {
                i = i + 1;
            }
        }
        proof {
            lemma_no_lookup(self.entries@, name@, 0);
            assert(self@ =~= store_map(before).remove(name@));
        }
    }

    /// The entries, key and value, in the order in which they are kept.
    pub closed spec fn pairs(&self) -> Seq<(<K as View>::V, V)> {
        self.entries@.map_values(|e: (K, V)| (e.0@, e.1))
    }

    proof fn lemma_covered(&self)
        ensures
            sums::covers(self.pairs(), self@),
    {
        assert forall|k: <K as View>::V| #[trigger] self@.dom().contains(k) implies self.pairs().contains(
            (k, self@[k]),
        ) by {
            assert(lookup(self.entries@, k, 0) is Some);
            lemma_value(self.entries@, k);
            let at = lemma_where(self.entries@, k, 0);
            assert(self.pairs()[at] == (k, self@[k]));
        }
    }

    /// There are only so many keys.
    pub proof fn lemma_finite(&self)
        ensures
            self@.dom().finite(),
    {
        self.lemma_covered();
        sums::lemma_covered(self@, self.pairs(), |k: <K as View>::V, v: V| 0nat);
    }

    /// How many entries there are, and how many there is room for.
    pub(crate) fn room(&self) -> (r: (usize, usize))
        ensures
            r.0 == self.pairs().len(),
            r.1 >= r.0,
            sums::covers(self.pairs(), self@),
    {
        proof {
            self.lemma_covered();
        }
        (self.entries.len(), allocated(&self.entries))
    }

    /// An entry.
    pub(crate) fn entry(&self, i: usize) -> (r: (&K, &V))
        requires
            i < self.pairs().len(),
        ensures
            self.pairs()[i as int] == (r.0@, *r.1),
    {
        let entry = &self.entries[i];
        (&entry.0, &entry.1)
    }

    /// The keys, those that came first first.
    pub fn keys(&self) -> (r: Vec<K>)
        ensures
            forall|name: <K as View>::V| #[trigger]
                key_views(r@).contains(name) <==> self@.dom().contains(name),
    {
        let ghost all = self.entries@;
        let mut out: Vec<K> = Vec::new();
        let mut i: usize = 0;
        while i < self.entries.len()
            invariant
                i <= self.entries.len(),
                all == self.entries@,
                out@.len() == i,
                forall|k: int| 0 <= k < i ==> (#[trigger] out@[k])@ == all[k].0@,
            decreases self.entries.len() - i,
        {
            out.push(self.entries[i].0.copied_key());
            i = i + 1;
        }
        proof {
            assert forall|name: <K as View>::V| #[trigger] key_views(
                out@,
            ).contains(name) <==> self@.dom().contains(name) by {
                if key_views(out@).contains(name) {
                    let k = choose|k: int|
                        0 <= k < key_views(out@).len() && key_views(out@)[k] == name;
                    assert(out@[k]@ == all[k].0@);
                    lemma_present(all, k, 0);
                }
                if self@.dom().contains(name) {
                    assert(lookup(all, name, 0) is Some);
                    let k = lemma_where(all, name, 0);
                    assert(out@[k]@ == all[k].0@);
                    assert(key_views(out@)[k] == name);
                }
            }
        }
        out
    }
}

} // verus!
