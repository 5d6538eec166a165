//! Estimates of the memory that a session's settings hold.
use vstd::prelude::*;
use crate::counted;
use crate::counted::Counted;
use crate::guc;
use crate::guc::{GucView, SqlSessionGucSnapshot, SqlSessionGucState};
use crate::scan;
use crate::settings;
use crate::sums;

verus! {

/// What a map is measured to hold: its capacity, the size of an entry, and the
/// capacities of its keys and of its values.
#[derive(Debug)]
pub struct MapUsage {
    pub capacity: usize,
    pub entry_size: usize,
    pub keys: Vec<usize>,
    pub values: Vec<usize>,
}

/// A number, or the largest that a `usize` holds.
pub open spec fn saturated(n: nat) -> nat {
    if n <= usize::MAX {
        n
    } else {
        usize::MAX as nat
    }
}

pub open spec fn total(list: Seq<usize>) -> nat
    decreases list.len(),
{
    if list.len() == 0 {
        0
    } else {
        total(list.drop_last()) + list.last() as nat
    }
}

/// The buckets of a map with a capacity: two for each entry, each with a control
/// byte.
pub open spec fn table_bytes(capacity: nat, entry_size: nat) -> nat {
    if capacity == 0 {
        0
    } else {
        capacity * 2 * (entry_size + 1)
    }
}

/// The bytes that a map holds.
pub open spec fn map_bytes(u: MapUsage) -> nat {
    table_bytes(u.capacity as nat, u.entry_size as nat) + total(u.keys@) + total(u.values@)
}

proof fn lemma_saturated_product(a: nat, b: nat)
    requires
        a >= 1,
        b >= 1,
    ensures
        saturated(saturated(a) * saturated(b)) == saturated(a * b),
{
    if a > usize::MAX || b > usize::MAX {
        assert(a * b >= a && a * b >= b) by (nonlinear_arith)
            requires
                a >= 1,
                b >= 1,
        ;
        let x = saturated(a);
        let y = saturated(b);
        assert(x * y >= x && x * y >= y) by (nonlinear_arith)
            requires
                x >= 1,
                y >= 1,
        ;
    }
}

fn saturating_product(a: usize, b: usize) -> (r: usize)
    ensures
        r == saturated(a as nat * b as nat),
{
    match a.checked_mul(b) {
        Some(n) => n,
        None => usize::MAX,
    }
}

pub fn conservative_hash_map_table_memory_estimate(capacity: usize, entry_size: usize) -> (r: usize)
    ensures
        r == saturated(table_bytes(capacity as nat, entry_size as nat)),
{
    if capacity == 0 {
        return 0;
    }
    proof {
        lemma_saturated_product(capacity as nat * 2, entry_size as nat + 1);
    }
    saturating_product(saturating_product(capacity, 2), entry_size.saturating_add(1))
}

/// A map with room for more holds no less.
pub(crate) proof fn lemma_larger_table(count: nat, capacity: nat, entry_size: nat)
    requires
        count <= capacity,
    ensures
        table_bytes(count, entry_size) <= table_bytes(capacity, entry_size),
{
    let size = entry_size + 1;
    assert(count * 2 * size <= capacity * 2 * size) by (nonlinear_arith)
        requires
            count <= capacity,
            size >= 0,
    ;
    assert(capacity * 2 * size >= 0) by (nonlinear_arith)
        requires
            size >= 0,
            capacity >= 0,
    ;
}

fn with_total(start: usize, list: &Vec<usize>) -> (r: usize)
    ensures
        r == saturated(start as nat + total(list@)),
{
    let mut sum = start;
    let mut i: usize = 0;
    while i < list.len()
        invariant
            i <= list.len(),
            sum == saturated(start as nat + total(list@.take(i as int))),
        decreases list.len() - i,
    {
        assert(list@.take(i + 1).drop_last() =~= list@.take(i as int));
        assert(list@.take(i + 1).last() == list@[i as int]);
        sum = sum.saturating_add(list[i]);
        i = i + 1;
    }
    assert(list@.take(list@.len() as int) =~= list@);
    sum
}

/// Estimates what a map holds.
pub fn map_memory_estimate(usage: &MapUsage) -> (r: usize)
    ensures
        r == saturated(map_bytes(*usage)),
{
    let table = conservative_hash_map_table_memory_estimate(usage.capacity, usage.entry_size);
    let keys = with_total(table, &usage.keys);
    with_total(keys, &usage.values)
}

/// `String::capacity`: the bytes that a text has room for, which are never less than
/// it has. What it is beyond that is up to the allocator.
pub assume_specification[ String::capacity ](s: &String) -> (r: usize)
    ensures
        r >= scan::byte_len(s@),
;

/// The bytes of a setting to go back to, which may be to have no value.
pub open spec fn restore_bytes(name: Seq<char>, value: Option<Seq<char>>) -> nat {
    scan::byte_len(name) + match value {
        Some(value) => scan::byte_len(value),
        None => 0,
    }
}

/// The bytes that the settings to go back to hold at least: their table and their
/// texts.
pub open spec fn restore_held(local: Map<Seq<char>, Option<Seq<char>>>) -> nat {
    table_bytes(local.dom().len(), vstd::layout::size_of::<(String, Option<String>)>())
        + sums::map_sum(
        local,
        |name: Seq<char>, value: Option<Seq<char>>| restore_bytes(name, value),
    )
}

/// The bytes that the values of sequences hold at least: their table and the names.
pub open spec fn sequences_held(currvals: Map<Seq<char>, i64>) -> nat {
    table_bytes(currvals.dom().len(), vstd::layout::size_of::<(String, i64)>()) + sums::map_sum(
        currvals,
        |name: Seq<char>, value: i64| scan::byte_len(name),
    )
}

/// The bytes that a state holds at least: its own size, and the tables and the texts of
/// its settings, of those from before the transaction, of those to go back to, and of
/// the names of its sequences.
pub open spec fn owned_bytes(state: GucView) -> nat {
    vstd::layout::size_of::<SqlSessionGucState>() + settings::least_held(state.gucs)
        + match state.start {
        Some(snapshot) => vstd::layout::size_of::<SqlSessionGucSnapshot>() + settings::least_held(
            snapshot.gucs,
        ),
        None => 0,
    } + restore_held(state.local) + sequences_held(state.currvals)
}

fn restore_estimate(restore: &Counted<Option<String>>) -> (r: usize)
    ensures
        r == restore.held(),
        r >= saturated(restore_held(guc::local_texts(restore@))),
{
    let r = restore.memory_estimate();
    proof {
        let m = restore@;
        let n = guc::local_texts(m);
        let f = |name: Seq<char>, value: Option<String>| counted::entry_bytes(name, value);
        let g = |name: Seq<char>, value: Option<Seq<char>>| restore_bytes(name, value);
        assert(m.dom() =~= n.dom());
        assert forall|k: Seq<char>| m.dom().contains(k) implies #[trigger] f(k, m[k]) == g(
            k,
            n[k],
        ) by {}
        sums::lemma_same_sum(m, n, f, g);
        restore.lemma_finite();
    }
    r
}

fn sequences_estimate(currvals: &Counted<i64>) -> (r: usize)
    ensures
        r == currvals.held(),
        r >= saturated(sequences_held(currvals@)),
{
    let r = currvals.memory_estimate();
    proof {
        let m = currvals@;
        let f = |name: Seq<char>, value: i64| counted::entry_bytes(name, value);
        let g = |name: Seq<char>, value: i64| scan::byte_len(name);
        assert forall|k: Seq<char>| m.dom().contains(k) implies #[trigger] f(k, m[k]) == g(
            k,
            m[k],
        ) by {}
        sums::lemma_same_sum(m, m, f, g);
        currvals.lemma_finite();
    }
    r
}

impl SqlSessionGucState {
    /// Estimates the memory that this state owns, from above: the settings, those
    /// from before the transaction if there is one, and what goes back when it ends.
    /// What has been allocated beyond the tables and the texts is up to the allocator.
    pub fn memory_estimate(&self) -> (r: usize)
        ensures
            r == saturated(self.held()),
            r >= saturated(owned_bytes(self@)),
    {
        proof {
            guc::lemma_parts(*self);
        }
        let snapshot: usize = match &self.transaction_start {
            Some(snapshot) => core::mem::size_of::<SqlSessionGucSnapshot>().saturating_add(
                snapshot.session_gucs.memory_estimate(),
            ),
            None => 0,
        };
        let settings = core::mem::size_of::<SqlSessionGucState>().saturating_add(
            self.session_gucs.memory_estimate(),
        );
        settings.saturating_add(snapshot).saturating_add(
            restore_estimate(&self.local_restore),
        ).saturating_add(sequences_estimate(&self.currvals))
    }
}

/// What is estimated of a state before a transaction begins and after: the first
/// estimate is no less than the size of the state and the bytes of its settings, and the
/// second is higher by those bytes at least, as the settings of before are counted too.
pub proof fn law_transaction_is_counted(
    before: SqlSessionGucState,
    first: usize,
    after: SqlSessionGucState,
    second: usize,
)
    requires
        before@.start is None,
        guc::begins(before, after),
        first == saturated(before.held()),
        first >= saturated(owned_bytes(before@)),
        second == saturated(after.held()),
        owned_bytes(before@) <= usize::MAX,
        after.held() <= usize::MAX,
    ensures
        first >= vstd::layout::size_of::<SqlSessionGucState>() + settings::texts_bytes(before@.gucs),
        second >= first + settings::texts_bytes(before@.gucs),
{
}

} // verus!
