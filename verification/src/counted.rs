//! Values under names, with the memory that they are estimated to hold.
use vstd::prelude::*;
use crate::memory;
use crate::named;
use crate::named::Named;
use crate::scan;
use crate::sums;
use crate::text;

verus! {

/// What holds memory beside itself.
pub trait Weighed: Sized {
    /// The bytes that it holds at least.
    spec fn least_bytes(&self) -> nat;

    fn held_bytes(&self) -> (r: usize)
        ensures
            r >= self.least_bytes(),
    ;
}

impl Weighed for String {
    open spec fn least_bytes(&self) -> nat {
        scan::byte_len(self@)
    }

    fn held_bytes(&self) -> (r: usize) {
        self.capacity()
    }
}

impl Weighed for Option<String> {
    open spec fn least_bytes(&self) -> nat {
        match *self {
            Some(s) => scan::byte_len(s@),
            None => 0,
        }
    }

    fn held_bytes(&self) -> (r: usize) {
        match self {
            Some(s) => s.capacity(),
            None => 0,
        }
    }
}

impl Weighed for i64 {
    open spec fn least_bytes(&self) -> nat {
        0
    }

    fn held_bytes(&self) -> (r: usize) {
        0
    }
}

/// Values under names, and the memory that they held after they changed last. It does
/// not change before they do.
#[derive(Debug)]
pub struct Counted<V: Weighed> {
    named: Named<V>,
    held: usize,
}

pub open spec fn entry_bytes<V: Weighed>(name: Seq<char>, value: V) -> nat {
    scan::byte_len(name) + value.least_bytes()
}

/// The bytes that values under names hold at least: their table, the names, and what
/// each value holds.
pub open spec fn least_held<V: Weighed>(m: Map<Seq<char>, V>) -> nat {
    memory::table_bytes(m.dom().len(), vstd::layout::size_of::<(String, V)>()) + sums::map_sum(
        m,
        |name: Seq<char>, value: V| entry_bytes(name, value),
    )
}

impl<V: Weighed> View for Counted<V> {
    type V = Map<Seq<char>, V>;

    closed spec fn view(&self) -> Map<Seq<char>, V> {
        self.named@
    }
}

fn measure<V: Weighed>(named: &Named<V>) -> (r: usize)
    ensures
        r >= memory::saturated(least_held(named@)),
{
    let ghost f = |name: Seq<char>, value: V| entry_bytes(name, value);
    let ghost all = named.pairs();
    let (count, capacity) = named.room();
    let mut keys: Vec<usize> = Vec::new();
    let mut values: Vec<usize> = Vec::new();
    let mut i: usize = 0;
    while i < count
        invariant
            i <= count == all.len(),
            all == named.pairs(),
            f == (|name: Seq<char>, value: V| entry_bytes(name, value)),
            memory::total(keys@) + memory::total(values@) >= sums::pair_sum(all.take(i as int), f),
        decreases count - i,
    {
        let (name, value) = named.entry(i);
        let ghost earlier_keys = keys@;
        let ghost earlier_values = values@;
        keys.push(name.capacity());
        values.push(value.held_bytes());
        proof {
            assert(keys@.drop_last() =~= earlier_keys);
            assert(values@.drop_last() =~= earlier_values);
            assert(all.take(i + 1).drop_last() =~= all.take(i as int));
            assert(all.take(i + 1).last() == all[i as int]);
        }
        i = i + 1;
    }
    let usage = memory::MapUsage {
        capacity,
        entry_size: core::mem::size_of::<(String, V)>(),
        keys,
        values,
    };
    proof {
        assert(all.take(all.len() as int) =~= all);
        sums::lemma_covered(named@, all, f);
        sums::lemma_counted(named@, all);
        memory::lemma_larger_table(
            named@.dom().len(),
            capacity as nat,
            usage.entry_size as nat,
        );
    }
    memory::map_memory_estimate(&usage)
}

impl<V: Weighed> Counted<V> {
    #[verifier::type_invariant]
    pub(crate) closed spec fn counted(self) -> bool {
        self.held >= memory::saturated(least_held(self.named@))
    }

    pub(crate) proof fn lemma_counted(&self)
        requires
            self.counted(),
        ensures
            self.held() >= memory::saturated(least_held(self@)),
    {
    }

    /// The memory that it holds.
    pub closed spec fn held(&self) -> nat {
        self.held as nat
    }

    pub fn new() -> (s: Counted<V>)
        ensures
            s@ == Map::<Seq<char>, V>::empty(),
    {
        let named = Named::new();
        let held = measure(&named);
        Counted { named, held }
    }

    /// Estimates the memory that it holds, from above.
    pub fn memory_estimate(&self) -> (r: usize)
        ensures
            r == self.held(),
            r >= memory::saturated(least_held(self@)),
    {
        proof {
            use_type_invariant(self);
        }
        self.held
    }

    /// There are only so many names.
    pub proof fn lemma_finite(&self)
        ensures
            self@.dom().finite(),
    {
        self.named.lemma_finite();
    }

    /// The value under a name.
    pub fn get(&self, name: &str) -> (r: Option<&V>)
        ensures
            match (r, named::value(self@, name@)) {
                (Some(v), Some(view)) => *v == view,
                (None, None) => true,
                _ => false,
            },
    {
        self.named.get(name)
    }

    fn take_named(&mut self) -> (r: Named<V>)
        ensures
            r@ == old(self)@,
    {
        proof {
            use_type_invariant(&*self);
        }
        let mut named = Named::new();
        let held = measure(&named);
        std::mem::swap(&mut named, &mut self.named);
        self.held = held;
        named
    }

    /// Puts a value under a name.
    pub fn insert(&mut self, name: String, value: V)
        ensures
            final(self)@ == old(self)@.insert(name@, value),
    {
        let mut named = self.take_named();
        named.insert(name, value);
        let held = measure(&named);
        *self = Counted { named, held };
    }

    /// Takes away what is under a name.
    pub fn remove(&mut self, name: &str)
        ensures
            final(self)@ == old(self)@.remove(name@),
    {
        let mut named = self.take_named();
        named.remove(name);
        let held = measure(&named);
        *self = Counted { named, held };
    }

    /// The names, those that came first first.
    pub fn names(&self) -> (r: Vec<String>)
        ensures
            forall|name: Seq<char>| #[trigger]
                text::views(r@).contains(name) <==> self@.dom().contains(name),
    {
        self.named.names()
    }
}

} // verus!
