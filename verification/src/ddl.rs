//! Changes of the catalog and what undoes them.
//!
//! In a transaction each change leaves an entry that undoes it. To roll back is
//! to undo the entries from the last one on.
use vstd::prelude::*;
use crate::error;
use crate::named::Named;
use crate::store;
use crate::store::{Keyed, Store};
use crate::text;

verus! {

/// The kinds of objects that the catalog holds.
#[derive(Clone, Copy, Debug, PartialEq, Eq, Structural)]
pub enum ObjectKind {
    Role,
    Membership,
    Index,
    /// The schema of a table.
    Table,
    Sequence,
    /// A view.
    Query,
    /// A trigger, under its table and its name.
    Trigger,
    UserType,
    Privilege,
    DefaultPrivilege,
    /// A routine, under its kind and its name.
    Routine,
    Namespace,
    ExtensionInstallation,
    LegacyExtension,
    ExtensionResource,
    ExtensionEventBinding,
    ExtensionWebsite,
    ExtensionWebsiteRelease,
}

/// What an object is found by: its kind and one or two names.
#[derive(Debug)]
pub struct ObjectKey {
    pub kind: ObjectKind,
    pub first: String,
    pub second: String,
}

pub struct KeyView {
    pub kind: ObjectKind,
    pub first: Seq<char>,
    pub second: Seq<char>,
}

impl View for ObjectKey {
    type V = KeyView;

    open spec fn view(&self) -> KeyView {
        KeyView { kind: self.kind, first: self.first@, second: self.second@ }
    }
}

pub open spec fn key(kind: ObjectKind, name: Seq<char>) -> KeyView {
    KeyView { kind, first: name, second: Seq::empty() }
}

pub open spec fn pair_key(kind: ObjectKind, first: Seq<char>, second: Seq<char>) -> KeyView {
    KeyView { kind, first, second }
}

impl ObjectKey {
    /// The key of an object with one name.
    pub fn single(kind: ObjectKind, name: String) -> (k: ObjectKey)
        ensures
            k@ == key(kind, name@),
    {
        let second = text::string_of(&[]);
        assert(second@ =~= Seq::<char>::empty());
        ObjectKey { kind, first: name, second }
    }

    /// The key of an object with two names.
    pub fn pair(kind: ObjectKind, first: String, second: String) -> (k: ObjectKey)
        ensures
            k@ == pair_key(kind, first@, second@),
    {
        ObjectKey { kind, first, second }
    }
}

impl Keyed for ObjectKey {
    fn same_key(&self, other: &Self) -> (r: bool) {
        self.kind == other.kind && text::text_eq(self.first.as_str(), other.first.as_str())
            && text::text_eq(self.second.as_str(), other.second.as_str())
    }

    fn copied_key(&self) -> (r: Self) {
        ObjectKey { kind: self.kind, first: self.first.clone(), second: self.second.clone() }
    }
}

/// The catalog: the definitions of its objects, and the records of its
/// collections. The name of a collection counts without the case of its letters.
#[derive(Debug)]
pub struct DdlCatalog {
    objects: Store<ObjectKey, String>,
    collections: Named<Vec<String>>,
}

#[verifier::ext_equal]
pub struct CatalogView {
    pub objects: Map<KeyView, Seq<char>>,
    pub collections: Map<Seq<char>, Seq<Seq<char>>>,
}

pub open spec fn definition_texts(m: Map<KeyView, String>) -> Map<KeyView, Seq<char>> {
    Map::new(|k: KeyView| m.dom().contains(k), |k: KeyView| m[k]@)
}

pub open spec fn record_texts(m: Map<Seq<char>, Vec<String>>) -> Map<Seq<char>, Seq<Seq<char>>> {
    Map::new(
        |name: Seq<char>| m.dom().contains(name),
        |name: Seq<char>| text::views(m[name]@),
    )
}

impl View for DdlCatalog {
    type V = CatalogView;

    closed spec fn view(&self) -> CatalogView {
        CatalogView {
            objects: definition_texts(self.objects@),
            collections: record_texts(self.collections@),
        }
    }
}

/// The catalog with an object.
pub open spec fn with(c: CatalogView, k: KeyView, definition: Seq<char>) -> CatalogView {
    CatalogView { objects: c.objects.insert(k, definition), ..c }
}

/// The catalog without an object.
pub open spec fn without(c: CatalogView, k: KeyView) -> CatalogView {
    CatalogView { objects: c.objects.remove(k), ..c }
}

/// The definition of an object.
pub open spec fn definition_of(c: CatalogView, k: KeyView) -> Option<Seq<char>> {
    store::value(c.objects, k)
}

/// The records of a collection.
pub open spec fn records_of(c: CatalogView, name: Seq<char>) -> Option<Seq<Seq<char>>> {
    store::value(c.collections, text::lower(name))
}

/// The catalog with a collection, new and empty where there was none.
pub open spec fn with_collection(c: CatalogView, name: Seq<char>) -> CatalogView {
    if records_of(c, name) is Some {
        c
    } else {
        CatalogView { collections: c.collections.insert(text::lower(name), Seq::empty()), ..c }
    }
}

/// The catalog without a collection.
pub open spec fn without_collection(c: CatalogView, name: Seq<char>) -> CatalogView {
    CatalogView { collections: c.collections.remove(text::lower(name)), ..c }
}

/// The catalog with records added to a collection.
pub open spec fn with_records(c: CatalogView, name: Seq<char>, records: Seq<Seq<char>>) -> CatalogView {
    let made = with_collection(c, name);
    CatalogView {
        collections: made.collections.insert(
            text::lower(name),
            made.collections[text::lower(name)] + records,
        ),
        ..made
    }
}

/// The catalog with a collection that holds just these records.
pub open spec fn with_just(c: CatalogView, name: Seq<char>, records: Seq<Seq<char>>) -> CatalogView {
    CatalogView { collections: c.collections.insert(text::lower(name), records), ..c }
}

/// The catalog with an index under another name.
pub open spec fn index_renamed(c: CatalogView, from: Seq<char>, to: Seq<char>) -> CatalogView {
    match definition_of(c, key(ObjectKind::Index, from)) {
        Some(definition) => with(
            without(c, key(ObjectKind::Index, from)),
            key(ObjectKind::Index, to),
            definition,
        ),
        None => c,
    }
}

/// An object's name and definition.
#[derive(Debug)]
pub struct NamedDefinition {
    pub name: String,
    pub definition: String,
}

/// The catalog with each of some objects.
pub open spec fn with_each(
    c: CatalogView,
    kind: ObjectKind,
    list: Seq<NamedDefinition>,
) -> CatalogView
    decreases list.len(),
{
    if list.len() == 0 {
        c
    } else {
        with(
            with_each(c, kind, list.drop_last()),
            key(kind, list.last().name@),
            list.last().definition@,
        )
    }
}

/// An entry that undoes one change of the catalog. A definition does not hold
/// the names that the object is found by.
#[derive(Debug)]
pub enum DdlUndo {
    DropCollection { name: String },
    RestoreCollection { name: String, records: Vec<String> },
    RestoreTableState { table: String, definition: String, records: Vec<String> },
    RestoreRenamedTable {
        old_table: String,
        new_table: String,
        records: Vec<String>,
        indexes: Vec<NamedDefinition>,
        definition: String,
        sequences: Vec<NamedDefinition>,
    },
    RenameIndex { old_name: String, new_name: String },
    RestoreRole { name: String, previous: Option<String> },
    RestoreMembership { role: String, member: String, previous: Option<String> },
    DropIndex { name: String },
    RestoreIndex { name: String, definition: String },
    DeleteSchema { table: String },
    RestoreSchema { table: String, definition: String },
    DeleteSequence { sequence: String },
    RestoreSequence { sequence: String, definition: String },
    DeleteView { view: String },
    RestoreView { view: String, definition: String },
    DeleteTrigger { table: String, trigger: String },
    RestoreTrigger { table: String, trigger: String, definition: String },
    DeleteUserType { schema_name: String, name: String },
    RestoreUserType { schema_name: String, name: String, definition: String },
    DeletePrivilege { grant: String },
    RestorePrivilege { grant: String, definition: String },
    DeleteDefaultPrivilege { grant: String },
    RestoreDefaultPrivilege { grant: String, definition: String },
    DeleteRoutine { kind: String, name: String },
    RestoreRoutine { kind: String, name: String, definition: String },
    DeleteNamespace { namespace: String },
    RestoreNamespace { namespace: String, definition: String },
    DeleteExtensionInstallation { name: String },
    RestoreExtensionInstallation { name: String, definition: String },
    DeleteLegacyExtension { name: String },
    RestoreLegacyExtension { name: String, definition: String },
    DeleteExtensionResource { name: String },
    RestoreExtensionResource { name: String, definition: String },
    DeleteExtensionEventBinding { name: String },
    RestoreExtensionEventBinding { name: String, definition: String },
    DeleteExtensionWebsite { name: String },
    RestoreExtensionWebsite { name: String, definition: String },
    DeleteExtensionWebsiteRelease { website: String, version: String },
    RestoreExtensionWebsiteRelease { website: String, version: String, definition: String },
}

/// The catalog after an entry has been undone.
pub open spec fn undone(c: CatalogView, undo: DdlUndo) -> CatalogView {
    match undo {
        DdlUndo::DropCollection { name } => without_collection(c, name@),
        DdlUndo::RestoreCollection { name, records } => with_records(
            c,
            name@,
            text::views(records@),
        ),
        DdlUndo::RestoreTableState { table, definition, records } => with(
            with_just(c, table@, text::views(records@)),
            key(ObjectKind::Table, table@),
            definition@,
        ),
        DdlUndo::RestoreRenamedTable {
            old_table,
            new_table,
            records,
            indexes,
            definition,
            sequences,
        } => {
            let gone = without(
                without_collection(c, new_table@),
                key(ObjectKind::Table, new_table@),
            );
            let back = with(
                with_just(gone, old_table@, text::views(records@)),
                key(ObjectKind::Table, old_table@),
                definition@,
            );
            with_each(
                with_each(back, ObjectKind::Index, indexes@),
                ObjectKind::Sequence,
                sequences@,
            )
        },
        DdlUndo::RenameIndex { old_name, new_name } => index_renamed(c, new_name@, old_name@),
        DdlUndo::RestoreRole { name, previous } => match previous {
            Some(definition) => with(c, key(ObjectKind::Role, name@), definition@),
            None => without(c, key(ObjectKind::Role, name@)),
        },
        DdlUndo::RestoreMembership { role, member, previous } => match previous {
            Some(definition) => with(c, pair_key(ObjectKind::Membership, role@, member@), definition@),
            None => without(c, pair_key(ObjectKind::Membership, role@, member@)),
        },
        DdlUndo::DropIndex { name } => without(c, key(ObjectKind::Index, name@)),
        DdlUndo::RestoreIndex { name, definition } => with(c, key(ObjectKind::Index, name@), definition@),
        DdlUndo::DeleteSchema { table } => without(c, key(ObjectKind::Table, table@)),
        DdlUndo::RestoreSchema { table, definition } => with(c, key(ObjectKind::Table, table@), definition@),
        DdlUndo::DeleteSequence { sequence } => without(c, key(ObjectKind::Sequence, sequence@)),
        DdlUndo::RestoreSequence { sequence, definition } => with(c, key(ObjectKind::Sequence, sequence@), definition@),
        DdlUndo::DeleteView { view } => without(c, key(ObjectKind::Query, view@)),
        DdlUndo::RestoreView { view, definition } => with(c, key(ObjectKind::Query, view@), definition@),
        DdlUndo::DeleteTrigger { table, trigger } => without(c, pair_key(ObjectKind::Trigger, table@, trigger@)),
        DdlUndo::RestoreTrigger { table, trigger, definition } => with(c, pair_key(ObjectKind::Trigger, table@, trigger@), definition@),
        DdlUndo::DeleteUserType { schema_name, name } => without(c, pair_key(ObjectKind::UserType, schema_name@, name@)),
        DdlUndo::RestoreUserType { schema_name, name, definition } => with(c, pair_key(ObjectKind::UserType, schema_name@, name@), definition@),
        DdlUndo::DeletePrivilege { grant } => without(c, key(ObjectKind::Privilege, grant@)),
        DdlUndo::RestorePrivilege { grant, definition } => with(c, key(ObjectKind::Privilege, grant@), definition@),
        DdlUndo::DeleteDefaultPrivilege { grant } => without(c, key(ObjectKind::DefaultPrivilege, grant@)),
        DdlUndo::RestoreDefaultPrivilege { grant, definition } => with(c, key(ObjectKind::DefaultPrivilege, grant@), definition@),
        DdlUndo::DeleteRoutine { kind, name } => without(c, pair_key(ObjectKind::Routine, kind@, name@)),
        DdlUndo::RestoreRoutine { kind, name, definition } => with(c, pair_key(ObjectKind::Routine, kind@, name@), definition@),
        DdlUndo::DeleteNamespace { namespace } => without(c, key(ObjectKind::Namespace, namespace@)),
        DdlUndo::RestoreNamespace { namespace, definition } => with(c, key(ObjectKind::Namespace, namespace@), definition@),
        DdlUndo::DeleteExtensionInstallation { name } => without(c, key(ObjectKind::ExtensionInstallation, name@)),
        DdlUndo::RestoreExtensionInstallation { name, definition } => with(c, key(ObjectKind::ExtensionInstallation, name@), definition@),
        DdlUndo::DeleteLegacyExtension { name } => without(c, key(ObjectKind::LegacyExtension, name@)),
        DdlUndo::RestoreLegacyExtension { name, definition } => with(c, key(ObjectKind::LegacyExtension, name@), definition@),
        DdlUndo::DeleteExtensionResource { name } => without(c, key(ObjectKind::ExtensionResource, name@)),
        DdlUndo::RestoreExtensionResource { name, definition } => with(c, key(ObjectKind::ExtensionResource, name@), definition@),
        DdlUndo::DeleteExtensionEventBinding { name } => without(c, key(ObjectKind::ExtensionEventBinding, name@)),
        DdlUndo::RestoreExtensionEventBinding { name, definition } => with(c, key(ObjectKind::ExtensionEventBinding, name@), definition@),
        DdlUndo::DeleteExtensionWebsite { name } => without(c, key(ObjectKind::ExtensionWebsite, name@)),
        DdlUndo::RestoreExtensionWebsite { name, definition } => with(c, key(ObjectKind::ExtensionWebsite, name@), definition@),
        DdlUndo::DeleteExtensionWebsiteRelease { website, version } => without(c, pair_key(ObjectKind::ExtensionWebsiteRelease, website@, version@)),
        DdlUndo::RestoreExtensionWebsiteRelease { website, version, definition } => with(c, pair_key(ObjectKind::ExtensionWebsiteRelease, website@, version@), definition@),
    }
}

/// The catalog after the entries of a log have been undone, the last first, down
/// to a length.
pub open spec fn undone_to(c: CatalogView, log: Seq<DdlUndo>, len: int) -> CatalogView
    decreases log.len(),
{
    if log.len() <= len || log.len() == 0 {
        c
    } else {
        undone_to(undone(c, log.last()), log.drop_last(), len)
    }
}

impl DdlCatalog {
    pub fn new() -> (c: DdlCatalog)
        ensures
            c@ == (CatalogView { objects: Map::empty(), collections: Map::empty() }),
    {
        let c = DdlCatalog { objects: Store::new(), collections: Named::new() };
        assert(c@.objects =~= Map::empty());
        assert(c@.collections =~= Map::empty());
        c
    }

    /// The definition of an object.
    pub fn load(&self, k: &ObjectKey) -> (r: Option<String>)
        ensures
            error::view_option(r) == definition_of(self@, k@),
    {
        match self.objects.get(k) {
            Some(d) => Some(d.clone()),
            None => None,
        }
    }

    /// Gives an object a definition.
    pub fn save(&mut self, k: ObjectKey, definition: String)
        ensures
            final(self)@ == with(old(self)@, k@, definition@),
    {
        let ghost before = self.objects@;
        let ghost view = k@;
        let ghost d = definition@;
        self.objects.insert(k, definition);
        assert(definition_texts(self.objects@) =~= definition_texts(before).insert(view, d));
    }

    /// Takes an object out and says whether it was there.
    pub fn delete(&mut self, k: &ObjectKey) -> (r: bool)
        ensures
            final(self)@ == without(old(self)@, k@),
            r == (definition_of(old(self)@, k@) is Some),
    {
        let ghost before = self.objects@;
        let existed = self.objects.get(k).is_some();
        self.objects.remove(k);
        assert(definition_texts(self.objects@) =~= definition_texts(before).remove(k@));
        existed
    }

    /// The records of a collection.
    pub fn scan_collection(&self, name: &str) -> (r: Option<Vec<String>>)
        ensures
            match r {
                Some(list) => records_of(self@, name@) == Some(text::views(list@)),
                None => records_of(self@, name@) is None,
            },
    {
        let lowered = text::to_lower(name);
        match self.collections.get(lowered.as_str()) {
            Some(list) => Some(text::copy_names(list)),
            None => None,
        }
    }

    fn put_collection(&mut self, name: &str, records: Vec<String>)
        ensures
            final(self)@ == with_just(old(self)@, name@, text::views(records@)),
    {
        let ghost before = self.collections@;
        let ghost list = text::views(records@);
        self.collections.insert(text::to_lower(name), records);
        assert(record_texts(self.collections@) =~= record_texts(before).insert(
            text::lower(name@),
            list,
        ));
    }

    /// Makes a collection where there is none and says whether there was one.
    pub fn create_collection(&mut self, name: &str) -> (r: bool)
        ensures
            final(self)@ == with_collection(old(self)@, name@),
            r == (records_of(old(self)@, name@) is Some),
    {
        let existed = self.scan_collection(name).is_some();
        if !existed {
            let none: Vec<String> = Vec::new();
            assert(text::views(none@) =~= Seq::empty());
            self.put_collection(name, none);
        }
        existed
    }

    /// Takes a collection out and says whether it was there.
    pub fn drop_collection(&mut self, name: &str) -> (r: bool)
        ensures
            final(self)@ == without_collection(old(self)@, name@),
            r == (records_of(old(self)@, name@) is Some),
    {
        let ghost before = self.collections@;
        let lowered = text::to_lower(name);
        let existed = self.collections.get(lowered.as_str()).is_some();
        self.collections.remove(lowered.as_str());
        assert(record_texts(self.collections@) =~= record_texts(before).remove(text::lower(name@)));
        existed
    }

    /// Adds records to a collection.
    pub fn batch_insert(&mut self, name: &str, records: Vec<String>)
        ensures
            final(self)@ == with_records(old(self)@, name@, text::views(records@)),
    {
        let mut list = match self.scan_collection(name) {
            Some(list) => list,
            None => Vec::new(),
        };
        let ghost given = text::views(list@);
        let ghost more = text::views(records@);
        assert(given =~= with_collection(self@, name@).collections[text::lower(name@)]);
        let mut added = records;
        list.append(&mut added);
        assert(text::views(list@) =~= given + more);
        self.put_collection(name, list);
        assert(self@.collections =~= with_records(old(self)@, name@, more).collections);
    }

    /// Gives an index another name and says whether there was one.
    pub fn rename_index(&mut self, from: &str, to: &str) -> (r: bool)
        ensures
            final(self)@ == index_renamed(old(self)@, from@, to@),
            r == (definition_of(old(self)@, key(ObjectKind::Index, from@)) is Some),
    {
        let k = ObjectKey::single(ObjectKind::Index, from.to_owned());
        match self.load(&k) {
            Some(definition) => {
                self.delete(&k);
                self.save(ObjectKey::single(ObjectKind::Index, to.to_owned()), definition);
                true
            },
            None => false,
        }
    }

    fn save_each(&mut self, kind: ObjectKind, list: Vec<NamedDefinition>)
        ensures
            final(self)@ == with_each(old(self)@, kind, list@),
    {
        let mut i: usize = 0;
        while i < list.len()
            invariant
                i <= list.len(),
                self@ == with_each(old(self)@, kind, list@.take(i as int)),
            decreases list.len() - i,
        {
            assert(list@.take(i + 1).drop_last() =~= list@.take(i as int));
            assert(list@.take(i + 1).last() == list@[i as int]);
            self.save(
                ObjectKey::single(kind, list[i].name.clone()),
                list[i].definition.clone(),
            );
            i = i + 1;
        }
        assert(list@.take(list@.len() as int) =~= list@);
    }

    /// Undoes an entry.
    pub fn undo(&mut self, undo: DdlUndo)
        ensures
            final(self)@ == undone(old(self)@, undo),
    {
        match undo {
            DdlUndo::DropCollection { name } => {
                self.drop_collection(name.as_str());
            },
            DdlUndo::RestoreCollection { name, records } => {
                self.batch_insert(name.as_str(), records);
            },
            DdlUndo::RestoreTableState { table, definition, records } => {
                self.put_collection(table.as_str(), records);
                self.save(ObjectKey::single(ObjectKind::Table, table), definition);
            },
            DdlUndo::RestoreRenamedTable {
                old_table,
                new_table,
                records,
                indexes,
                definition,
                sequences,
            } => {
                self.drop_collection(new_table.as_str());
                self.delete(&ObjectKey::single(ObjectKind::Table, new_table));
                self.put_collection(old_table.as_str(), records);
                self.save(ObjectKey::single(ObjectKind::Table, old_table), definition);
                self.save_each(ObjectKind::Index, indexes);
                self.save_each(ObjectKind::Sequence, sequences);
            },
            DdlUndo::RenameIndex { old_name, new_name } => {
                self.rename_index(new_name.as_str(), old_name.as_str());
            },
            DdlUndo::RestoreRole { name, previous } => {
                let k = ObjectKey::single(ObjectKind::Role, name);
                self.delete(&k);
                match previous {
                    Some(definition) => self.save(k, definition),
                    None => {},
                }
            },
            DdlUndo::RestoreMembership { role, member, previous } => {
                let k = ObjectKey::pair(ObjectKind::Membership, role, member);
                self.delete(&k);
                match previous {
                    Some(definition) => self.save(k, definition),
                    None => {},
                }
            },
            DdlUndo::DropIndex { name } => { self.delete(&ObjectKey::single(ObjectKind::Index, name)); },
            DdlUndo::RestoreIndex { name, definition } => { self.save(ObjectKey::single(ObjectKind::Index, name), definition); },
            DdlUndo::DeleteSchema { table } => { self.delete(&ObjectKey::single(ObjectKind::Table, table)); },
            DdlUndo::RestoreSchema { table, definition } => { self.save(ObjectKey::single(ObjectKind::Table, table), definition); },
            DdlUndo::DeleteSequence { sequence } => { self.delete(&ObjectKey::single(ObjectKind::Sequence, sequence)); },
            DdlUndo::RestoreSequence { sequence, definition } => { self.save(ObjectKey::single(ObjectKind::Sequence, sequence), definition); },
            DdlUndo::DeleteView { view } => { self.delete(&ObjectKey::single(ObjectKind::Query, view)); },
            DdlUndo::RestoreView { view, definition } => { self.save(ObjectKey::single(ObjectKind::Query, view), definition); },
            DdlUndo::DeleteTrigger { table, trigger } => { self.delete(&ObjectKey::pair(ObjectKind::Trigger, table, trigger)); },
            DdlUndo::RestoreTrigger { table, trigger, definition } => { self.save(ObjectKey::pair(ObjectKind::Trigger, table, trigger), definition); },
            DdlUndo::DeleteUserType { schema_name, name } => { self.delete(&ObjectKey::pair(ObjectKind::UserType, schema_name, name)); },
            DdlUndo::RestoreUserType { schema_name, name, definition } => { self.save(ObjectKey::pair(ObjectKind::UserType, schema_name, name), definition); },
            DdlUndo::DeletePrivilege { grant } => { self.delete(&ObjectKey::single(ObjectKind::Privilege, grant)); },
            DdlUndo::RestorePrivilege { grant, definition } => { self.save(ObjectKey::single(ObjectKind::Privilege, grant), definition); },
            DdlUndo::DeleteDefaultPrivilege { grant } => { self.delete(&ObjectKey::single(ObjectKind::DefaultPrivilege, grant)); },
            DdlUndo::RestoreDefaultPrivilege { grant, definition } => { self.save(ObjectKey::single(ObjectKind::DefaultPrivilege, grant), definition); },
            DdlUndo::DeleteRoutine { kind, name } => { self.delete(&ObjectKey::pair(ObjectKind::Routine, kind, name)); },
            DdlUndo::RestoreRoutine { kind, name, definition } => { self.save(ObjectKey::pair(ObjectKind::Routine, kind, name), definition); },
            DdlUndo::DeleteNamespace { namespace } => { self.delete(&ObjectKey::single(ObjectKind::Namespace, namespace)); },
            DdlUndo::RestoreNamespace { namespace, definition } => { self.save(ObjectKey::single(ObjectKind::Namespace, namespace), definition); },
            DdlUndo::DeleteExtensionInstallation { name } => { self.delete(&ObjectKey::single(ObjectKind::ExtensionInstallation, name)); },
            DdlUndo::RestoreExtensionInstallation { name, definition } => { self.save(ObjectKey::single(ObjectKind::ExtensionInstallation, name), definition); },
            DdlUndo::DeleteLegacyExtension { name } => { self.delete(&ObjectKey::single(ObjectKind::LegacyExtension, name)); },
            DdlUndo::RestoreLegacyExtension { name, definition } => { self.save(ObjectKey::single(ObjectKind::LegacyExtension, name), definition); },
            DdlUndo::DeleteExtensionResource { name } => { self.delete(&ObjectKey::single(ObjectKind::ExtensionResource, name)); },
            DdlUndo::RestoreExtensionResource { name, definition } => { self.save(ObjectKey::single(ObjectKind::ExtensionResource, name), definition); },
            DdlUndo::DeleteExtensionEventBinding { name } => { self.delete(&ObjectKey::single(ObjectKind::ExtensionEventBinding, name)); },
            DdlUndo::RestoreExtensionEventBinding { name, definition } => { self.save(ObjectKey::single(ObjectKind::ExtensionEventBinding, name), definition); },
            DdlUndo::DeleteExtensionWebsite { name } => { self.delete(&ObjectKey::single(ObjectKind::ExtensionWebsite, name)); },
            DdlUndo::RestoreExtensionWebsite { name, definition } => { self.save(ObjectKey::single(ObjectKind::ExtensionWebsite, name), definition); },
            DdlUndo::DeleteExtensionWebsiteRelease { website, version } => { self.delete(&ObjectKey::pair(ObjectKind::ExtensionWebsiteRelease, website, version)); },
            DdlUndo::RestoreExtensionWebsiteRelease { website, version, definition } => { self.save(ObjectKey::pair(ObjectKind::ExtensionWebsiteRelease, website, version), definition); },
        }
    }
}

} // verus!
