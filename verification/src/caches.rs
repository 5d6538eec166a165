//! What is remembered between statements: routines, names of relations, and parsed
//! templates.
use vstd::prelude::*;
use crate::bounded::Bounded;
use crate::error;
use crate::named;
use crate::named::Named;
use crate::sets;
use crate::store::Keyed;
use crate::text;

verus! {

#[derive(Clone, Copy, Debug, PartialEq, Eq, Structural)]
pub enum RoutineKind {
    Function,
    Procedure,
}

/// The key that a routine is stored under.
pub open spec fn stored_key(kind: RoutineKind, normal: Seq<char>) -> Seq<char> {
    match kind {
        RoutineKind::Function => "f:"@ + normal,
        RoutineKind::Procedure => "p:"@ + normal,
    }
}

/// The key that a routine is stored under. `normal` is its name in its normal form.
pub fn routine_key(kind: RoutineKind, normal: &str) -> (r: String)
    ensures
        r@ == stored_key(kind, normal@),
{
    match kind {
        RoutineKind::Function => text::concat("f:", normal),
        RoutineKind::Procedure => text::concat("p:", normal),
    }
}

/// Routines of different names, or of different kinds, have different keys.
pub proof fn law_routine_keys(a: RoutineKind, x: Seq<char>, b: RoutineKind, y: Seq<char>)
    requires
        stored_key(a, x) == stored_key(b, y),
    ensures
        a == b,
        x == y,
{
    reveal_strlit("f:");
    reveal_strlit("p:");
    assert(("f:"@ + x)[0] == 'f' && ("p:"@ + x)[0] == 'p');
    assert(("f:"@ + y)[0] == 'f' && ("p:"@ + y)[0] == 'p');
    assert(stored_key(a, x).skip(2) =~= x);
    assert(stored_key(b, y).skip(2) =~= y);
}

/// What is remembered of a name: under which state of the catalog, and what each kind
/// of routine was found to be: nothing so far, or a routine or none.
#[derive(Clone, Copy, Debug)]
pub struct RoutineCacheEntry {
    pub generation: u64,
    pub function: Option<Option<u64>>,
    pub procedure: Option<Option<u64>>,
}

/// The routines that have been resolved, by their names in lower case.
#[derive(Debug)]
pub struct RoutineCache {
    entries: Named<RoutineCacheEntry>,
}

impl View for RoutineCache {
    type V = Map<Seq<char>, RoutineCacheEntry>;

    closed spec fn view(&self) -> Map<Seq<char>, RoutineCacheEntry> {
        self.entries@
    }
}

pub open spec fn of_kind(e: RoutineCacheEntry, kind: RoutineKind) -> Option<Option<u64>> {
    match kind {
        RoutineKind::Function => e.function,
        RoutineKind::Procedure => e.procedure,
    }
}

/// What is remembered of a routine, where the catalog has not changed since.
pub open spec fn remembered(
    entries: Map<Seq<char>, RoutineCacheEntry>,
    kind: RoutineKind,
    name: Seq<char>,
    generation: u64,
) -> Option<Option<u64>> {
    match named::value(entries, text::lower(name)) {
        Some(e) => if e.generation == generation {
            of_kind(e, kind)
        } else {
            None
        },
        None => None,
    }
}

/// What is kept of a name once a routine of it has been resolved. What was found under
/// an earlier state of the catalog is forgotten.
pub open spec fn entry_with(
    before: Option<RoutineCacheEntry>,
    kind: RoutineKind,
    generation: u64,
    resolved: Option<u64>,
) -> RoutineCacheEntry {
    let base = match before {
        Some(e) if e.generation == generation => e,
        _ => RoutineCacheEntry { generation, function: None, procedure: None },
    };
    match kind {
        RoutineKind::Function => RoutineCacheEntry { function: Some(resolved), ..base },
        RoutineKind::Procedure => RoutineCacheEntry { procedure: Some(resolved), ..base },
    }
}

pub open spec fn with_routine(
    entries: Map<Seq<char>, RoutineCacheEntry>,
    kind: RoutineKind,
    name: Seq<char>,
    generation: u64,
    resolved: Option<u64>,
) -> Map<Seq<char>, RoutineCacheEntry> {
    let key = text::lower(name);
    entries.insert(key, entry_with(named::value(entries, key), kind, generation, resolved))
}

impl RoutineCache {
    pub fn new() -> (c: RoutineCache)
        ensures
            c@ == Map::<Seq<char>, RoutineCacheEntry>::empty(),
    {
        RoutineCache { entries: Named::new() }
    }

    /// What is remembered of a routine: nothing, or that it is there, or that it is not.
    pub fn look_up(&self, kind: RoutineKind, name: &str, generation: u64) -> (r: Option<Option<u64>>)
        ensures
            r == remembered(self@, kind, name@, generation),
    {
        let lowered = text::to_lower(name);
        match self.entries.get(lowered.as_str()) {
            Some(e) => {
                if e.generation != generation {
                    return None;
                }
                match kind {
                    RoutineKind::Function => e.function,
                    RoutineKind::Procedure => e.procedure,
                }
            },
            None => None,
        }
    }

    /// Remembers what a routine was resolved to.
    pub fn remember(&mut self, kind: RoutineKind, name: &str, generation: u64, resolved: Option<u64>)
        ensures
            final(self)@ == with_routine(old(self)@, kind, name@, generation, resolved),
    {
        let lowered = text::to_lower(name);
        let base = match self.entries.get(lowered.as_str()) {
            Some(e) => if e.generation == generation {
                *e
            } else {
                RoutineCacheEntry { generation, function: None, procedure: None }
            },
            None => RoutineCacheEntry { generation, function: None, procedure: None },
        };
        let entry = match kind {
            RoutineKind::Function => RoutineCacheEntry {
                generation: base.generation,
                function: Some(resolved),
                procedure: base.procedure,
            },
            RoutineKind::Procedure => RoutineCacheEntry {
                generation: base.generation,
                function: base.function,
                procedure: Some(resolved),
            },
        };
        self.entries.insert(lowered, entry);
    }

    /// What a routine is resolved to: what is remembered, or else what was loaded, which
    /// is remembered from then on.
    pub fn resolve_routine_cached(
        &mut self,
        kind: RoutineKind,
        name: &str,
        generation: u64,
        loaded: Option<u64>,
    ) -> (r: Option<u64>)
        ensures
            match remembered(old(self)@, kind, name@, generation) {
                Some(resolved) => r == resolved && final(self)@ == old(self)@,
                None => r == loaded && final(self)@ == with_routine(
                    old(self)@,
                    kind,
                    name@,
                    generation,
                    loaded,
                ),
            },
    {
        match self.look_up(kind, name, generation) {
            Some(resolved) => resolved,
            None => {
                self.remember(kind, name, generation, loaded);
                loaded
            },
        }
    }
}

/// What has been remembered of a routine is found, under any case of its name, as long
/// as the catalog stays as it is, and no longer; and nothing else that was found under
/// that state of the catalog is forgotten.
pub proof fn law_routine_cache(
    entries: Map<Seq<char>, RoutineCacheEntry>,
    kind: RoutineKind,
    name: Seq<char>,
    written: Seq<char>,
    generation: u64,
    later: u64,
    resolved: Option<u64>,
    other_kind: RoutineKind,
    other: Seq<char>,
)
    requires
        text::same_ignoring_case(name, written),
    ensures
        ({
            let after = with_routine(entries, kind, name, generation, resolved);
            &&& remembered(after, kind, written, generation) == Some(resolved)
            &&& later != generation ==> remembered(after, kind, written, later) is None
            &&& (other_kind != kind || !text::same_ignoring_case(other, name)) ==> remembered(
                after,
                other_kind,
                other,
                generation,
            ) == remembered(entries, other_kind, other, generation)
        }),
{
}

/// The key of a remembered name: which database, and the name.
#[derive(Debug)]
pub struct RelationKey {
    pub database: u64,
    pub name: String,
}

impl View for RelationKey {
    type V = (u64, Seq<char>);

    open spec fn view(&self) -> (u64, Seq<char>) {
        (self.database, self.name@)
    }
}

impl Keyed for RelationKey {
    fn same_key(&self, other: &Self) -> (r: bool) {
        self.database == other.database && text::text_eq(self.name.as_str(), other.name.as_str())
    }

    fn copied_key(&self) -> (r: Self) {
        RelationKey { database: self.database, name: self.name.clone() }
    }
}

/// The state of a catalog.
#[derive(Clone, Copy, Debug, PartialEq, Eq, Structural)]
pub struct CatalogState {
    pub schema_generation: u64,
    pub view_generation: u64,
    pub collection_count: usize,
}

/// Whether a name was found to be a table, under a state of the catalog.
#[derive(Clone, Copy, Debug)]
pub struct RelationMemoEntry {
    pub state: CatalogState,
    pub found: bool,
}

/// The names that have been looked up.
#[derive(Debug)]
pub struct RelationMemo {
    entries: Bounded<RelationKey, RelationMemoEntry>,
}

impl View for RelationMemo {
    type V = Map<(u64, Seq<char>), RelationMemoEntry>;

    closed spec fn view(&self) -> Map<(u64, Seq<char>), RelationMemoEntry> {
        self.entries@
    }
}

pub const RELATION_NAME_MEMO_CAP: usize = 1024;

/// Whether what is remembered of names is so: under the state of the catalog that it is
/// now, a name is remembered as a table where it is one.
pub open spec fn memo_holds(
    entries: Map<(u64, Seq<char>), RelationMemoEntry>,
    database: u64,
    state: CatalogState,
    tables: Seq<Seq<char>>,
) -> bool {
    forall|name: Seq<char>| #[trigger]
        entries.dom().contains((database, name)) && entries[(database, name)].state == state
            ==> entries[(database, name)].found == tables.contains(name)
}

impl RelationMemo {
    pub fn new() -> (m: RelationMemo)
        ensures
            m@ == Map::<(u64, Seq<char>), RelationMemoEntry>::empty(),
    {
        RelationMemo { entries: Bounded::new() }
    }

    /// The table of exactly that name, if there is one, from memory where the catalog
    /// has not changed.
    pub fn resolve_relation_name_memoized(
        &mut self,
        database: u64,
        state: CatalogState,
        name: &str,
        tables: &Vec<String>,
    ) -> (r: Option<String>)
        requires
            memo_holds(old(self)@, database, state, text::views(tables@)),
        ensures
            error::view_option(r) == (if text::views(tables@).contains(name@) {
                Some(name@)
            } else {
                None
            }),
            memo_holds(final(self)@, database, state, text::views(tables@)),
            final(self)@.dom().contains((database, name@)),
            final(self)@.dom().finite(),
            old(self)@.dom().finite() && old(self)@.dom().len() <= RELATION_NAME_MEMO_CAP
                ==> final(self)@.dom().len() <= RELATION_NAME_MEMO_CAP,
    {
        let key = RelationKey { database, name: name.to_owned() };
        let known = match self.entries.get(&key) {
            Some(e) => if e.state == state {
                Some(e.found)
            } else {
                None
            },
            None => None,
        };
        let found = match known {
            Some(found) => {
                let _ = self.entries.len();
                found
            },
            None => {
                let found = sets::holds_text(tables, name);
                let ghost before = self.entries@;
                if self.entries.len() >= RELATION_NAME_MEMO_CAP {
                    self.entries.clear();
                }
                let ghost trimmed = self.entries@;
                self.entries.insert(key, RelationMemoEntry { state, found });
                proof {
                    assert(trimmed.dom().finite());
                    assert(trimmed.dom().len() < RELATION_NAME_MEMO_CAP);
                    assert forall|n: Seq<char>| #[trigger]
                        self@.dom().contains((database, n)) && self@[(database, n)].state
                            == state implies self@[(database, n)].found == text::views(
                        tables@,
                    ).contains(n) by {
                        if n != name@ {
                            assert(before.dom().contains((database, n)));
                        }
                    }
                }
                found
            },
        };
        if found {
            Some(name.to_owned())
        } else {
            None
        }
    }
}

/// The templates that have been parsed, by their texts. A parsed template is known by a
/// number.
#[derive(Debug)]
pub struct TemplateCache {
    entries: Bounded<String, u64>,
}

impl View for TemplateCache {
    type V = Map<Seq<char>, u64>;

    closed spec fn view(&self) -> Map<Seq<char>, u64> {
        self.entries@
    }
}

impl TemplateCache {
    pub fn new() -> (c: TemplateCache)
        ensures
            c@ == Map::<Seq<char>, u64>::empty(),
    {
        TemplateCache { entries: Bounded::new() }
    }

    /// Takes a parsed template out to run it.
    pub fn check_out(&mut self, template: &str) -> (r: Option<u64>)
        ensures
            r == named::value(old(self)@, template@),
            final(self)@ == old(self)@.remove(template@),
    {
        let key = template.to_owned();
        self.entries.take(&key)
    }

    /// Makes room for another template: everything goes where there are too many.
    pub fn make_room(&mut self, limit: usize)
        ensures
            old(self)@.dom().finite(),
            final(self)@ == (if old(self)@.dom().len() >= limit {
                Map::<Seq<char>, u64>::empty()
            } else {
                old(self)@
            }),
    {
        if self.entries.len() >= limit {
            self.entries.clear();
        }
    }

    /// Puts a parsed template back after it has run.
    pub fn check_in(&mut self, template: &str, parsed: u64)
        ensures
            final(self)@ == old(self)@.insert(template@, parsed),
    {
        self.entries.insert(template.to_owned(), parsed);
    }
}

/// A template that is taken out and put back is there again, with all others, and there
/// are as many as before; one that is new, put in where room was made, leaves no more
/// than there may be.
pub proof fn law_template_cache(
    entries: Map<Seq<char>, u64>,
    template: Seq<char>,
    parsed: u64,
    limit: nat,
)
    requires
        entries.dom().finite(),
        limit > 0,
    ensures
        named::value(entries, template) == Some(parsed) ==> entries.remove(template).insert(
            template,
            parsed,
        ) == entries,
        entries.dom().len() < limit ==> entries.insert(template, parsed).dom().len() <= limit,
        Map::<Seq<char>, u64>::empty().insert(template, parsed).dom().len() <= limit,
{
    if named::value(entries, template) == Some(parsed) {
        assert(entries.remove(template).insert(template, parsed) =~= entries);
    }
    assert(entries.insert(template, parsed).dom() =~= entries.dom().insert(template));
    assert(Map::<Seq<char>, u64>::empty().insert(template, parsed).dom() =~= Set::empty().insert(
        template,
    ));
}

} // verus!
