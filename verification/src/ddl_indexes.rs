//! Indexes and sequences that go with tables.
use vstd::prelude::*;
use crate::ddl;
use crate::ddl::{ObjectKey, ObjectKind};
use crate::ddl_session;
use crate::ddl_session::DdlSession;
use crate::error;
use crate::error::SqlError;
use crate::text;

verus! {

/// An index that a table's schema lists, with the indexes that carry it out.
#[derive(Debug)]
pub struct ListedIndex {
    pub name: String,
    pub internal_index_names: Vec<String>,
}

/// The indexes that a table's schema lists.
#[derive(Debug)]
pub struct TableIndexes {
    pub table: String,
    pub indexes: Vec<ListedIndex>,
}

/// A sequence and the table that owns it.
#[derive(Debug)]
pub struct OwnedSequence {
    pub name: String,
    pub owned_by_table: Option<String>,
}

pub struct ListedView {
    pub name: Seq<char>,
    pub internal: Seq<Seq<char>>,
}

pub struct TableIndexesView {
    pub table: Seq<char>,
    pub indexes: Seq<ListedView>,
}

pub struct OwnedView {
    pub name: Seq<char>,
    pub owner: Option<Seq<char>>,
}

impl View for ListedIndex {
    type V = ListedView;

    open spec fn view(&self) -> ListedView {
        ListedView { name: self.name@, internal: text::views(self.internal_index_names@) }
    }
}

impl View for TableIndexes {
    type V = TableIndexesView;

    open spec fn view(&self) -> TableIndexesView {
        TableIndexesView {
            table: self.table@,
            indexes: self.indexes@.map_values(|i: ListedIndex| i@),
        }
    }
}

impl View for OwnedSequence {
    type V = OwnedView;

    open spec fn view(&self) -> OwnedView {
        OwnedView { name: self.name@, owner: error::view_option(self.owned_by_table) }
    }
}

pub open spec fn table_views(v: Seq<TableIndexes>) -> Seq<TableIndexesView> {
    v.map_values(|t: TableIndexes| t@)
}

pub open spec fn sequence_views(v: Seq<OwnedSequence>) -> Seq<OwnedView> {
    v.map_values(|s: OwnedSequence| s@)
}

/// The first of the listed indexes with a name, without the case of its letters.
pub open spec fn listed(indexes: Seq<ListedView>, name: Seq<char>, from: int) -> Option<ListedView>
    decreases indexes.len() - from,
{
    if from < 0 || from >= indexes.len() {
        None
    } else if text::same_ignoring_case(indexes[from].name, name) {
        Some(indexes[from])
    } else {
        listed(indexes, name, from + 1)
    }
}

/// The first index with a name that a table lists.
pub open spec fn listed_anywhere(
    tables: Seq<TableIndexesView>,
    name: Seq<char>,
    from: int,
) -> Option<ListedView>
    decreases tables.len() - from,
{
    if from < 0 || from >= tables.len() {
        None
    } else {
        match listed(tables[from].indexes, name, 0) {
            Some(i) => Some(i),
            None => listed_anywhere(tables, name, from + 1),
        }
    }
}

/// The indexes that carry an index out: the one of its name and its internal
/// ones.
pub open spec fn carried_by(tables: Seq<TableIndexesView>, name: Seq<char>) -> Seq<Seq<char>> {
    seq![text::lower(name)] + (match listed_anywhere(tables, name, 0) {
        Some(i) => i.internal.map_values(|n: Seq<char>| text::lower(n)),
        None => Seq::empty(),
    })
}

/// The tables that list an index under just this name.
pub open spec fn listing_tables(tables: Seq<TableIndexesView>, name: Seq<char>) -> Seq<Seq<char>>
    decreases tables.len(),
{
    if tables.len() == 0 {
        Seq::empty()
    } else {
        let before = listing_tables(tables.drop_last(), name);
        if lists(tables.last().indexes, name) {
            before.push(tables.last().table)
        } else {
            before
        }
    }
}

pub open spec fn lists(indexes: Seq<ListedView>, name: Seq<char>) -> bool {
    exists|k: int| 0 <= k < indexes.len() && (#[trigger] indexes[k]).name == name
}

pub fn find_listed<'a>(indexes: &'a Vec<ListedIndex>, name: &str) -> (r: Option<&'a ListedIndex>)
    ensures
        match r {
            Some(i) => listed(indexes@.map_values(|i: ListedIndex| i@), name@, 0) == Some(i@),
            None => listed(indexes@.map_values(|i: ListedIndex| i@), name@, 0) is None,
        },
{
    let ghost all = indexes@.map_values(|i: ListedIndex| i@);
    let mut i: usize = 0;
    while i < indexes.len()
        invariant
            i <= indexes.len(),
            all == indexes@.map_values(|i: ListedIndex| i@),
            listed(all, name@, 0) == listed(all, name@, i as int),
        decreases indexes.len() - i,
    {
        if text::eq_ignore_case(indexes[i].name.as_str(), name) {
            return Some(&indexes[i]);
        }
        i = i + 1;
    }
    None
}

fn find_listed_anywhere<'a>(tables: &'a Vec<TableIndexes>, name: &str) -> (r: Option<
    &'a ListedIndex,
>)
    ensures
        match r {
            Some(i) => listed_anywhere(table_views(tables@), name@, 0) == Some(i@),
            None => listed_anywhere(table_views(tables@), name@, 0) is None,
        },
{
    let ghost all = table_views(tables@);
    let mut i: usize = 0;
    while i < tables.len()
        invariant
            i <= tables.len(),
            all == table_views(tables@),
            listed_anywhere(all, name@, 0) == listed_anywhere(all, name@, i as int),
        decreases tables.len() - i,
    {
        assert(all[i as int] == tables@[i as int]@);
        match find_listed(&tables[i].indexes, name) {
            Some(found) => {
                return Some(found);
            },
            None => {},
        }
        i = i + 1;
    }
    None
}

fn lower_names(names: &Vec<String>) -> (r: Vec<String>)
    ensures
        text::views(r@) == text::views(names@).map_values(|n: Seq<char>| text::lower(n)),
{
    let ghost all = text::views(names@);
    let mut out: Vec<String> = Vec::new();
    let mut i: usize = 0;
    while i < names.len()
        invariant
            i <= names.len(),
            all == text::views(names@),
            out@.len() == i,
            forall|k: int| 0 <= k < i ==> (#[trigger] out@[k])@ == text::lower(all[k]),
        decreases names.len() - i,
    {
        assert(all[i as int] == names@[i as int]@);
        out.push(text::to_lower(names[i].as_str()));
        i = i + 1;
    }
    assert(text::views(out@) =~= all.map_values(|n: Seq<char>| text::lower(n)));
    out
}

/// The names of the indexes that carry an index out.
pub fn carrying_indexes(tables: &Vec<TableIndexes>, name: &str) -> (r: Vec<String>)
    ensures
        text::views(r@) == carried_by(table_views(tables@), name@),
{
    let mut out: Vec<String> = Vec::new();
    out.push(text::to_lower(name));
    match find_listed_anywhere(tables, name) {
        Some(i) => {
            let mut internal = lower_names(&i.internal_index_names);
            let ghost given = text::views(internal@);
            out.append(&mut internal);
            assert(text::views(out@) =~= seq![text::lower(name@)] + given);
        },
        None => {
            assert(text::views(out@) =~= seq![text::lower(name@)] + Seq::<Seq<char>>::empty());
        },
    }
    out
}

fn has_listed(indexes: &Vec<ListedIndex>, name: &str) -> (r: bool)
    ensures
        r == lists(indexes@.map_values(|i: ListedIndex| i@), name@),
{
    let ghost all = indexes@.map_values(|i: ListedIndex| i@);
    let mut i: usize = 0;
    while i < indexes.len()
        invariant
            i <= indexes.len(),
            all == indexes@.map_values(|i: ListedIndex| i@),
            forall|k: int| 0 <= k < i ==> (#[trigger] all[k]).name != name@,
        decreases indexes.len() - i,
    {
        assert(all[i as int] == indexes@[i as int]@);
        if text::text_eq(indexes[i].name.as_str(), name) {
            return true;
        }
        i = i + 1;
    }
    false
}

/// The tables whose schemas lose an index when it is dropped.
pub fn remove_session_index_from_schemas(tables: &Vec<TableIndexes>, name: &str) -> (r: Vec<String>)
    ensures
        text::views(r@) == listing_tables(table_views(tables@), name@),
{
    let ghost all = table_views(tables@);
    let mut out: Vec<String> = Vec::new();
    let mut i: usize = 0;
    while i < tables.len()
        invariant
            i <= tables.len(),
            all == table_views(tables@),
            text::views(out@) == listing_tables(all.take(i as int), name@),
        decreases tables.len() - i,
    {
        assert(all.take(i + 1).drop_last() =~= all.take(i as int));
        assert(all.take(i + 1).last() == tables@[i as int]@);
        let ghost prior = out@;
        if has_listed(&tables[i].indexes, name) {
            out.push(tables[i].table.clone());
            assert(text::views(out@) =~= text::views(prior).push(tables@[i as int].table@));
        }
        i = i + 1;
    }
    assert(all.take(all.len() as int) =~= all);
    out
}

/// Whether one of some indexes is in the catalog.
pub open spec fn one_is_there(c: ddl::CatalogView, names: Seq<Seq<char>>) -> bool {
    exists|k: int|
        0 <= k < names.len() && ddl::definition_of(
            c,
            ddl::key(ObjectKind::Index, #[trigger] names[k]),
        ) is Some
}

/// Whether dropping an index takes anything out of the catalog or out of a table.
pub open spec fn drops_anything(
    c: ddl::CatalogView,
    tables: Seq<TableIndexesView>,
    name: Seq<char>,
) -> bool {
    one_is_there(c, carried_by(tables, name)) || listing_tables(tables, name).len() > 0
}

proof fn lemma_none_to_take_out(c: ddl::CatalogView, names: Seq<Seq<char>>)
    requires
        !one_is_there(c, names),
    ensures
        ddl_session::without_each(c, ObjectKind::Index, names) == c,
    decreases names.len(),
{
    if names.len() > 0 {
        let rest = names.drop_last();
        assert forall|k: int| 0 <= k < rest.len() implies ddl::definition_of(
            c,
            ddl::key(ObjectKind::Index, #[trigger] rest[k]),
        ) is None by {
            assert(rest[k] == names[k]);
        }
        lemma_none_to_take_out(c, rest);
        let last = ddl::key(ObjectKind::Index, names[names.len() - 1]);
        assert(ddl::definition_of(c, last) is None);
        assert(c.objects.remove(last) =~= c.objects);
    }
}

impl DdlSession {
    /// Makes an index. The name of one that is there is refused with the error
    /// for a duplicate.
    pub fn create_session_index(&mut self, name: &str, definition: String, duplicate: SqlError) -> (r:
        Result<(), SqlError>)
        ensures
            ddl_session::keeps_past(old(self)@, final(self)@),
            match r {
                Ok(()) => {
                    let k = ddl::key(ObjectKind::Index, text::lower(name@));
                    &&& old(self).exclusive
                    &&& ddl::definition_of(old(self)@.catalog, k) is None
                    &&& final(self)@.catalog == ddl::with(old(self)@.catalog, k, definition@)
                },
                Err(e) => {
                    &&& final(self)@ == old(self)@
                    &&& if !old(self).exclusive {
                        e@ == ddl_session::exclusive_error()
                    } else {
                        e@ == duplicate@ && ddl::definition_of(
                            old(self)@.catalog,
                            ddl::key(ObjectKind::Index, text::lower(name@)),
                        ) is Some
                    }
                },
            },
    {
        let k = ObjectKey::single(ObjectKind::Index, text::to_lower(name));
        match self.create_session_object_if_missing(k, definition, false, false, duplicate) {
            Ok(_) => Ok(()),
            Err(e) => Err(e),
        }
    }

    fn any_index(&self, names: &Vec<String>) -> (r: bool)
        ensures
            r == one_is_there(self@.catalog, text::views(names@)),
    {
        let ghost all = text::views(names@);
        let mut i: usize = 0;
        while i < names.len()
            invariant
                i <= names.len(),
                all == text::views(names@),
                forall|k: int|
                    0 <= k < i ==> ddl::definition_of(
                        self@.catalog,
                        ddl::key(ObjectKind::Index, #[trigger] all[k]),
                    ) is None,
            decreases names.len() - i,
        {
            assert(all[i as int] == names@[i as int]@);
            let k = ObjectKey::single(ObjectKind::Index, names[i].clone());
            if self.catalog.load(&k).is_some() {
                return true;
            }
            i = i + 1;
        }
        false
    }

    /// Drops an index with those that carry it out. `discarded` says whether a
    /// build of such a full text index has been given up. The result says whether
    /// there was such an index, and which tables listed it.
    pub fn drop_session_index(
        &mut self,
        name: &str,
        tables: &Vec<TableIndexes>,
        discarded: bool,
    ) -> (r: Result<(bool, Vec<String>), SqlError>)
        ensures
            ddl_session::keeps_past(old(self)@, final(self)@),
            match r {
                Ok((existed, listing)) => {
                    &&& old(self).exclusive || !drops_anything(
                        old(self)@.catalog,
                        table_views(tables@),
                        name@,
                    )
                    &&& final(self)@.catalog == ddl_session::without_each(
                        old(self)@.catalog,
                        ObjectKind::Index,
                        carried_by(table_views(tables@), name@),
                    )
                    &&& text::views(listing@) == listing_tables(table_views(tables@), name@)
                    &&& existed == (one_is_there(
                        old(self)@.catalog,
                        carried_by(table_views(tables@), name@),
                    ) || discarded || listing@.len() > 0)
                },
                Err(e) => {
                    &&& !old(self).exclusive
                    &&& drops_anything(old(self)@.catalog, table_views(tables@), name@)
                    &&& e@ == ddl_session::exclusive_error()
                    &&& final(self)@ == old(self)@
                },
            },
    {
        let names = carrying_indexes(tables, name);
        let executable = self.any_index(&names);
        let listing = remove_session_index_from_schemas(tables, name);
        assert(text::views(listing@).len() == listing@.len());
        if !executable && listing.len() == 0 {
            proof {
                assert(self@.log =~= self@.log.subrange(0, self@.log.len() as int));
                lemma_none_to_take_out(self@.catalog, text::views(names@));
            }
            return Ok((discarded, listing));
        }
        match self.db_mut() {
            Ok(()) => {},
            Err(e) => {
                assert(self@.log =~= self@.log.subrange(0, self@.log.len() as int));
                return Err(e);
            },
        }
        match self.delete_session_objects(ObjectKind::Index, &names) {
            Ok(()) => {},
            Err(e) => {
                return Err(e);
            },
        }
        Ok((executable || discarded || listing.len() > 0, listing))
    }

    /// Takes out the sequences that a table owns.
    pub fn drop_owned_sequences_for_table(&mut self, sequences: &Vec<OwnedSequence>, table: &str) -> (r:
        Result<(), SqlError>)
        ensures
            ddl_session::keeps_past(old(self)@, final(self)@),
            match r {
                Ok(()) => {
                    &&& old(self).exclusive || owned_names(
                        sequence_views(sequences@),
                        table@,
                    ).len() == 0
                    &&& final(self)@.catalog == ddl_session::without_each(
                        old(self)@.catalog,
                        ObjectKind::Sequence,
                        owned_names(sequence_views(sequences@), table@),
                    )
                },
                Err(e) => {
                    &&& !old(self).exclusive
                    &&& owned_names(sequence_views(sequences@), table@).len() > 0
                    &&& e@ == ddl_session::exclusive_error()
                    &&& final(self)@ == old(self)@
                },
            },
    {
        let names = owned_sequences(sequences, table);
        self.delete_session_objects(ObjectKind::Sequence, &names)
    }
}

/// The sequences that a table owns.
pub open spec fn owned_names(sequences: Seq<OwnedView>, table: Seq<char>) -> Seq<Seq<char>>
    decreases sequences.len(),
{
    if sequences.len() == 0 {
        Seq::empty()
    } else {
        let before = owned_names(sequences.drop_last(), table);
        match sequences.last().owner {
            Some(owner) => if text::same_ignoring_case(owner, table) {
                before.push(sequences.last().name)
            } else {
                before
            },
            None => before,
        }
    }
}

/// The names of the sequences that a table owns.
pub fn owned_sequences(sequences: &Vec<OwnedSequence>, table: &str) -> (r: Vec<String>)
    ensures
        text::views(r@) == owned_names(sequence_views(sequences@), table@),
{
    let ghost all = sequence_views(sequences@);
    let mut out: Vec<String> = Vec::new();
    let mut i: usize = 0;
    while i < sequences.len()
        invariant
            i <= sequences.len(),
            all == sequence_views(sequences@),
            text::views(out@) == owned_names(all.take(i as int), table@),
        decreases sequences.len() - i,
    {
        assert(all.take(i + 1).drop_last() =~= all.take(i as int));
        assert(all.take(i + 1).last() == sequences@[i as int]@);
        let ghost prior = out@;
        let owns = match &sequences[i].owned_by_table {
            Some(owner) => text::eq_ignore_case(owner.as_str(), table),
            None => false,
        };
        if owns {
            out.push(sequences[i].name.clone());
            assert(text::views(out@) =~= text::views(prior).push(sequences@[i as int].name@));
        }
        i = i + 1;
    }
    assert(all.take(all.len() as int) =~= all);
    out
}

} // verus!
