//! Values under names.
use vstd::prelude::*;
use crate::store;
use crate::store::Store;
use crate::sums;
use crate::text;

verus! {

/// Values under names.
#[derive(Debug)]
pub struct Named<V> {
    store: Store<String, V>,
}

impl<V> View for Named<V> {
    type V = Map<Seq<char>, V>;

    closed spec fn view(&self) -> Map<Seq<char>, V> {
        self.store@
    }
}

/// The value under a name.
pub open spec fn value<V>(m: Map<Seq<char>, V>, name: Seq<char>) -> Option<V> {
    store::value(m, name)
}

impl<V> Named<V> {
    pub fn new() -> (s: Named<V>)
        ensures
            s@ == Map::<Seq<char>, V>::empty(),
    {
        Named { store: Store::new() }
    }

    /// The value under a name.
    pub fn get(&self, name: &str) -> (r: Option<&V>)
        ensures
            match (r, value(self@, name@)) {
                (Some(v), Some(view)) => *v == view,
                (None, None) => true,
                _ => false,
            },
    {
        self.store.get(&name.to_owned())
    }

    /// Puts a value under a name.
    pub fn insert(&mut self, name: String, value: V)
        ensures
            final(self)@ == old(self)@.insert(name@, value),
    {
        self.store.insert(name, value);
    }

    /// Takes away what is under a name.
    pub fn remove(&mut self, name: &str)
        ensures
            final(self)@ == old(self)@.remove(name@),
    {
        self.store.remove(&name.to_owned());
    }

    /// The entries, name and value, in the order in which they are kept.
    pub closed spec fn pairs(&self) -> Seq<(Seq<char>, V)> {
        self.store.pairs()
    }

    /// There are only so many names.
    pub proof fn lemma_finite(&self)
        ensures
            self@.dom().finite(),
    {
        self.store.lemma_finite();
    }

    /// How many entries there are, and how many there is room for.
    pub(crate) fn room(&self) -> (r: (usize, usize))
        ensures
            r.0 == self.pairs().len(),
            r.1 >= r.0,
            sums::covers(self.pairs(), self@),
    {
        self.store.room()
    }

    /// An entry.
    pub(crate) fn entry(&self, i: usize) -> (r: (&String, &V))
        requires
            i < self.pairs().len(),
        ensures
            self.pairs()[i as int] == (r.0@, *r.1),
    {
        self.store.entry(i)
    }

    /// The names, those that came first first.
    pub fn names(&self) -> (r: Vec<String>)
        ensures
            forall|name: Seq<char>| #[trigger]
                text::views(r@).contains(name) <==> self@.dom().contains(name),
    {
        let r = self.store.keys();
        assert(text::views(r@) =~= store::key_views(r@));
        r
    }
}

} // verus!
