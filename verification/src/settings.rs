//! Named settings of a session.
use vstd::prelude::*;
use crate::counted;
use crate::counted::Counted;
use crate::memory;
use crate::named;
use crate::scan;
use crate::sums;
use crate::text;

verus! {

/// Settings: texts under names.
#[derive(Debug)]
pub struct Settings {
    named: Counted<String>,
}

/// The texts that strings are.
pub open spec fn texts(m: Map<Seq<char>, String>) -> Map<Seq<char>, Seq<char>> {
    Map::new(|name: Seq<char>| m.dom().contains(name), |name: Seq<char>| m[name]@)
}

impl View for Settings {
    type V = Map<Seq<char>, Seq<char>>;

    closed spec fn view(&self) -> Map<Seq<char>, Seq<char>> {
        texts(self.named@)
    }
}

/// The value of a setting.
pub open spec fn setting(m: Map<Seq<char>, Seq<char>>, name: Seq<char>) -> Option<Seq<char>> {
    named::value(m, name)
}

/// The bytes of a setting: of its name and of its value.
pub open spec fn setting_bytes(name: Seq<char>, value: Seq<char>) -> nat {
    scan::byte_len(name) + scan::byte_len(value)
}

/// The bytes of the texts of settings.
pub open spec fn texts_bytes(gucs: Map<Seq<char>, Seq<char>>) -> nat {
    sums::map_sum(gucs, |name: Seq<char>, value: Seq<char>| setting_bytes(name, value))
}

/// The bytes that settings hold at least: their table and their texts.
pub open spec fn least_held(gucs: Map<Seq<char>, Seq<char>>) -> nat {
    memory::table_bytes(gucs.dom().len(), vstd::layout::size_of::<(String, String)>())
        + texts_bytes(gucs)
}

impl Settings {
    pub fn new() -> (s: Settings)
        ensures
            s@ == Map::<Seq<char>, Seq<char>>::empty(),
    {
        let s = Settings { named: Counted::new() };
        assert(s@ =~= Map::<Seq<char>, Seq<char>>::empty());
        s
    }

    /// The value of a setting.
    pub fn get(&self, name: &str) -> (r: Option<&str>)
        ensures
            text::view_str(r) == setting(self@, name@),
    {
        match self.named.get(name) {
            Some(v) => Some(v.as_str()),
            None => None,
        }
    }

    /// Sets a setting to a value.
    pub fn insert(&mut self, name: String, value: String)
        ensures
            final(self)@ == old(self)@.insert(name@, value@),
    {
        let ghost before = self.named@;
        let ghost n = name@;
        let ghost v = value@;
        self.named.insert(name, value);
        assert(self@ =~= texts(before).insert(n, v));
    }

    /// Takes a setting out.
    pub fn remove(&mut self, name: &str)
        ensures
            final(self)@ == old(self)@.remove(name@),
    {
        let ghost before = self.named@;
        self.named.remove(name);
        assert(self@ =~= texts(before).remove(name@));
    }

    /// The memory that the settings hold.
    pub closed spec fn held(&self) -> nat {
        self.named.held()
    }

    /// Estimates the memory that the settings hold, from above.
    pub fn memory_estimate(&self) -> (r: usize)
        ensures
            r == self.held(),
            r >= memory::saturated(least_held(self@)),
    {
        proof {
            self.lemma_least_held();
        }
        self.named.memory_estimate()
    }

    proof fn lemma_least_held(&self)
        ensures
            least_held(self@) == counted::least_held(self.named@),
    {
        let m = self.named@;
        let f = |name: Seq<char>, value: String| counted::entry_bytes(name, value);
        let g = |name: Seq<char>, value: Seq<char>| setting_bytes(name, value);
        assert(m.dom() =~= self@.dom());
        assert forall|k: Seq<char>| m.dom().contains(k) implies #[trigger] f(k, m[k]) == g(
            k,
            self@[k],
        ) by {}
        sums::lemma_same_sum(m, self@, f, g);
        self.named.lemma_finite();
    }

    /// The names of the settings.
    pub fn names(&self) -> (r: Vec<String>)
        ensures
            forall|name: Seq<char>| #[trigger]
                text::views(r@).contains(name) <==> self@.dom().contains(name),
    {
        self.named.names()
    }

    /// The same settings.
    pub fn copied(&self) -> (s: Settings)
        ensures
            s@ == self@,
            s.held() >= memory::saturated(least_held(s@)),
    {
        let names = self.names();
        let ghost all = text::views(names@);
        let mut s = Settings::new();
        let mut i: usize = 0;
        while i < names.len()
            invariant
                i <= names.len(),
                all == text::views(names@),
                forall|name: Seq<char>| #[trigger]
                    s@.dom().contains(name) ==> self@.dom().contains(name) && s@[name] == self@[name],
                forall|k: int| 0 <= k < i && self@.dom().contains(#[trigger] all[k])
                    ==> s@.dom().contains(all[k]),
            decreases names.len() - i,
        {
            assert(all[i as int] == names@[i as int]@);
            match self.get(names[i].as_str()) {
                Some(v) => {
                    s.insert(names[i].clone(), v.to_owned());
                },
                None => {},
            }
            i = i + 1;
        }
        proof {
            assert forall|name: Seq<char>| s@.dom().contains(name) <==> self@.dom().contains(
                name,
            ) by {
                if self@.dom().contains(name) {
                    assert(all.contains(name));
                    let k = choose|k: int| 0 <= k < all.len() && all[k] == name;
                    assert(s@.dom().contains(all[k]));
                }
            }
            assert(s@ =~= self@);
            use_type_invariant(&s.named);
            s.named.lemma_counted();
            s.lemma_least_held();
        }
        s
    }
}

} // verus!
