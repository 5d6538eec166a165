//! Changes of the catalog in a session.
use vstd::prelude::*;
use crate::ddl;
use crate::ddl::{DdlCatalog, DdlUndo, NamedDefinition, ObjectKey, ObjectKind};
use crate::error;
use crate::error::SqlError;
use crate::text;

verus! {

/// The entries that undo what a transaction did to the catalog.
#[derive(Debug)]
pub struct SqlSessionDdlUndoLog {
    pub(crate) entries: Vec<DdlUndo>,
}

impl View for SqlSessionDdlUndoLog {
    type V = Seq<DdlUndo>;

    closed spec fn view(&self) -> Seq<DdlUndo> {
        self.entries@
    }
}

impl SqlSessionDdlUndoLog {
    pub fn new() -> (l: SqlSessionDdlUndoLog)
        ensures
            l@ == Seq::<DdlUndo>::empty(),
    {
        SqlSessionDdlUndoLog { entries: Vec::new() }
    }

    pub fn is_empty(&self) -> (r: bool)
        ensures
            r == (self@.len() == 0),
    {
        self.entries.len() == 0
    }

    pub fn len(&self) -> (r: usize)
        ensures
            r == self@.len(),
    {
        self.entries.len()
    }

    pub(crate) fn push(&mut self, entry: DdlUndo)
        ensures
            final(self)@ == old(self)@.push(entry),
    {
        self.entries.push(entry);
    }

    /// Takes the last entry off.
    pub(crate) fn pop(&mut self) -> (r: Option<DdlUndo>)
        ensures
            match r {
                Some(entry) => old(self)@.len() > 0 && entry == old(self)@.last()
                    && final(self)@ == old(self)@.drop_last(),
                None => old(self)@.len() == 0 && final(self)@ == old(self)@,
            },
    {
        self.entries.pop()
    }
}

/// The catalog as a session changes it. Only a session with exclusive access
/// changes it, and only in a transaction, which is known by a number, are its
/// changes logged.
#[derive(Debug)]
pub struct DdlSession {
    pub exclusive: bool,
    pub transaction: Option<u64>,
    pub catalog: DdlCatalog,
    pub log: SqlSessionDdlUndoLog,
}

#[verifier::ext_equal]
pub struct DdlView {
    pub exclusive: bool,
    pub transaction: Option<u64>,
    pub catalog: ddl::CatalogView,
    pub log: Seq<DdlUndo>,
}

impl View for DdlSession {
    type V = DdlView;

    open spec fn view(&self) -> DdlView {
        DdlView {
            exclusive: self.exclusive,
            transaction: self.transaction,
            catalog: self.catalog@,
            log: self.log@,
        }
    }
}

pub open spec fn exclusive_error() -> error::ErrorView {
    error::unsupported_error("operation requires exclusive database access"@)
}

/// Whether all that was logged before can still be undone to the same catalog.
pub open spec fn keeps_past(before: DdlView, after: DdlView) -> bool {
    &&& after.exclusive == before.exclusive
    &&& after.transaction == before.transaction
    &&& before.log.is_prefix_of(after.log)
    &&& before.transaction is None ==> after.log == before.log
    &&& before.transaction is Some ==> forall|len: int|
        0 <= len <= before.log.len() ==> #[trigger] ddl::undone_to(after.catalog, after.log, len)
            == ddl::undone_to(before.catalog, before.log, len)
}

/// What holds of two changes one after the other holds of both.
pub proof fn law_keeps_past_transitive(a: DdlView, b: DdlView, c: DdlView)
    requires
        keeps_past(a, b),
        keeps_past(b, c),
    ensures
        keeps_past(a, c),
{
    assert(a.log =~= c.log.subrange(0, a.log.len() as int));
    if a.transaction is Some {
        assert forall|len: int| 0 <= len <= a.log.len() implies #[trigger] ddl::undone_to(
            c.catalog,
            c.log,
            len,
        ) == ddl::undone_to(a.catalog, a.log, len) by {
            assert(ddl::undone_to(b.catalog, b.log, len) == ddl::undone_to(a.catalog, a.log, len));
        }
    }
}

/// An entry that gives back the catalog from before a change keeps the past.
proof fn lemma_logged(before: DdlView, after: DdlView, entry: DdlUndo)
    requires
        before.transaction is Some,
        after.exclusive == before.exclusive,
        after.transaction == before.transaction,
        after.log == before.log.push(entry),
        ddl::undone(after.catalog, entry) == before.catalog,
    ensures
        keeps_past(before, after),
{
    assert(after.log.drop_last() =~= before.log);
    assert(after.log.last() == entry);
    assert(before.log =~= after.log.subrange(0, before.log.len() as int));
    assert forall|len: int| 0 <= len <= before.log.len() implies #[trigger] ddl::undone_to(
        after.catalog,
        after.log,
        len,
    ) == ddl::undone_to(before.catalog, before.log, len) by {
        assert(ddl::undone_to(after.catalog, after.log, len) == ddl::undone_to(
            ddl::undone(after.catalog, entry),
            before.log,
            len,
        ));
    }
}

/// The catalog with an object as it was.
pub open spec fn as_it_was(
    c: ddl::CatalogView,
    k: ddl::KeyView,
    previous: Option<Seq<char>>,
) -> ddl::CatalogView {
    match previous {
        Some(definition) => ddl::with(c, k, definition),
        None => ddl::without(c, k),
    }
}

/// Whether objects of a kind have two names.
pub open spec fn has_two_names(kind: ObjectKind) -> bool {
    kind is Membership || kind is Trigger || kind is UserType || kind is Routine || kind is ExtensionWebsiteRelease
}

/// Whether a key is one that objects of its kind have.
pub open spec fn is_key(k: ddl::KeyView) -> bool {
    has_two_names(k.kind) || k.second.len() == 0
}

/// The entry that makes an object what it was.
pub fn undo_entry(k: &ObjectKey, previous: Option<String>) -> (r: DdlUndo)
    requires
        is_key(k@),
    ensures
        forall|c: ddl::CatalogView| #[trigger]
            ddl::undone(c, r) == as_it_was(c, k@, error::view_option(previous)),
{
    let ghost view = k@;
    assert(!has_two_names(view.kind) ==> view.second =~= Seq::empty());
    let first = k.first.clone();
    let second = k.second.clone();
    match k.kind {
        ObjectKind::Role => DdlUndo::RestoreRole { name: first, previous },
        ObjectKind::Membership => DdlUndo::RestoreMembership { role: first, member: second, previous },
        ObjectKind::Index => match previous {
            Some(definition) => DdlUndo::RestoreIndex { name: first, definition },
            None => DdlUndo::DropIndex { name: first },
        },
        ObjectKind::Table => match previous {
            Some(definition) => DdlUndo::RestoreSchema { table: first, definition },
            None => DdlUndo::DeleteSchema { table: first },
        },
        ObjectKind::Sequence => match previous {
            Some(definition) => DdlUndo::RestoreSequence { sequence: first, definition },
            None => DdlUndo::DeleteSequence { sequence: first },
        },
        ObjectKind::Query => match previous {
            Some(definition) => DdlUndo::RestoreView { view: first, definition },
            None => DdlUndo::DeleteView { view: first },
        },
        ObjectKind::Trigger => match previous {
            Some(definition) => DdlUndo::RestoreTrigger { table: first, trigger: second, definition },
            None => DdlUndo::DeleteTrigger { table: first, trigger: second },
        },
        ObjectKind::UserType => match previous {
            Some(definition) => DdlUndo::RestoreUserType { schema_name: first, name: second, definition },
            None => DdlUndo::DeleteUserType { schema_name: first, name: second },
        },
        ObjectKind::Privilege => match previous {
            Some(definition) => DdlUndo::RestorePrivilege { grant: first, definition },
            None => DdlUndo::DeletePrivilege { grant: first },
        },
        ObjectKind::DefaultPrivilege => match previous {
            Some(definition) => DdlUndo::RestoreDefaultPrivilege { grant: first, definition },
            None => DdlUndo::DeleteDefaultPrivilege { grant: first },
        },
        ObjectKind::Routine => match previous {
            Some(definition) => DdlUndo::RestoreRoutine { kind: first, name: second, definition },
            None => DdlUndo::DeleteRoutine { kind: first, name: second },
        },
        ObjectKind::Namespace => match previous {
            Some(definition) => DdlUndo::RestoreNamespace { namespace: first, definition },
            None => DdlUndo::DeleteNamespace { namespace: first },
        },
        ObjectKind::ExtensionInstallation => match previous {
            Some(definition) => DdlUndo::RestoreExtensionInstallation { name: first, definition },
            None => DdlUndo::DeleteExtensionInstallation { name: first },
        },
        ObjectKind::LegacyExtension => match previous {
            Some(definition) => DdlUndo::RestoreLegacyExtension { name: first, definition },
            None => DdlUndo::DeleteLegacyExtension { name: first },
        },
        ObjectKind::ExtensionResource => match previous {
            Some(definition) => DdlUndo::RestoreExtensionResource { name: first, definition },
            None => DdlUndo::DeleteExtensionResource { name: first },
        },
        ObjectKind::ExtensionEventBinding => match previous {
            Some(definition) => DdlUndo::RestoreExtensionEventBinding { name: first, definition },
            None => DdlUndo::DeleteExtensionEventBinding { name: first },
        },
        ObjectKind::ExtensionWebsite => match previous {
            Some(definition) => DdlUndo::RestoreExtensionWebsite { name: first, definition },
            None => DdlUndo::DeleteExtensionWebsite { name: first },
        },
        ObjectKind::ExtensionWebsiteRelease => match previous {
            Some(definition) => DdlUndo::RestoreExtensionWebsiteRelease { website: first, version: second, definition },
            None => DdlUndo::DeleteExtensionWebsiteRelease { website: first, version: second },
        },
    }
}

impl DdlSession {
    /// Whether the session may change the catalog.
    pub fn db_mut(&self) -> (r: Result<(), SqlError>)
        ensures
            match r {
                Ok(()) => self.exclusive,
                Err(e) => !self.exclusive && e@ == exclusive_error(),
            },
    {
        if self.exclusive {
            Ok(())
        } else {
            Err(SqlError::unsupported("operation requires exclusive database access".to_owned()))
        }
    }

    /// Undoes one entry.
    pub fn apply_ddl_undo(&mut self, undo: DdlUndo) -> (r: Result<(), SqlError>)
        ensures
            match r {
                Ok(()) => old(self).exclusive && final(self)@ == (DdlView {
                    catalog: ddl::undone(old(self)@.catalog, undo),
                    ..old(self)@
                }),
                Err(e) => !old(self).exclusive && e@ == exclusive_error() && final(self)@ == old(
                    self,
                )@,
            },
    {
        match self.db_mut() {
            Ok(()) => {
                self.catalog.undo(undo);
                Ok(())
            },
            Err(e) => Err(e),
        }
    }

    /// Undoes the entries of the log, the last first, down to a length. A session
    /// without exclusive access loses the entry that it cannot undo.
    pub fn rollback_ddl_to_len(&mut self, len: usize) -> (r: Result<(), SqlError>)
        ensures
            match r {
                Ok(()) => {
                    &&& old(self)@.log.len() <= len || old(self).exclusive
                    &&& final(self)@ == (DdlView {
                        catalog: ddl::undone_to(old(self)@.catalog, old(self)@.log, len as int),
                        log: if old(self)@.log.len() <= len {
                            old(self)@.log
                        } else {
                            old(self)@.log.take(len as int)
                        },
                        ..old(self)@
                    })
                },
                Err(e) => {
                    &&& old(self)@.log.len() > len && !old(self).exclusive
                    &&& e@ == exclusive_error()
                    &&& final(self)@ == (DdlView { log: old(self)@.log.drop_last(), ..old(self)@ })
                },
            },
    {
        let ghost before = self@;
        while self.log.len() > len
            invariant
                before == old(self)@,
                self.exclusive == before.exclusive,
                self.transaction == before.transaction,
                self.log@.is_prefix_of(before.log),
                before.log.len() <= len ==> self.log@ == before.log,
                before.log.len() > len ==> self.log@.len() >= len,
                self.log@.len() < before.log.len() ==> self.exclusive,
                self.log@.len() == before.log.len() ==> self.catalog@ == before.catalog,
                ddl::undone_to(self.catalog@, self.log@, len as int) == ddl::undone_to(
                    before.catalog,
                    before.log,
                    len as int,
                ),
            decreases self.log@.len(),
        {
            let ghost was = self.log@;
            match self.log.pop() {
                Some(undo) => {
                    assert(self.log@ =~= before.log.take(was.len() - 1));
                    match self.apply_ddl_undo(undo) {
                        Ok(()) => {},
                        Err(e) => {
                            assert(was =~= before.log);
                            return Err(e);
                        },
                    }
                },
                None => {},
            }
        }
        proof {
            if before.log.len() > len {
                assert(self.log@ =~= before.log.take(len as int));
            } else {
                assert(self.log@ =~= before.log);
            }
        }
        Ok(())
    }

    /// Gives an object a definition and says whether it is new.
    pub fn save_session_object(&mut self, k: ObjectKey, definition: String) -> (r: Result<
        bool,
        SqlError,
    >)
        requires
            is_key(k@),
        ensures
            keeps_past(old(self)@, final(self)@),
            match r {
                Ok(created) => {
                    &&& old(self).exclusive
                    &&& created == (ddl::definition_of(old(self)@.catalog, k@) is None)
                    &&& final(self)@.catalog == ddl::with(old(self)@.catalog, k@, definition@)
                },
                Err(e) => !old(self).exclusive && e@ == exclusive_error() && final(self)@ == old(
                    self,
                )@,
            },
    {
        let ghost before = self@;
        let ghost view = k@;
        let previous = self.catalog.load(&k);
        match self.db_mut() {
            Ok(()) => {},
            Err(e) => {
                assert(before.log =~= before.log.subrange(0, before.log.len() as int));
                return Err(e);
            },
        }
        let created = previous.is_none();
        let entry = undo_entry(&k, previous);
        self.catalog.save(k, definition);
        if self.transaction.is_some() {
            self.log.push(entry);
            proof {
                assert(ddl::undone(self@.catalog, entry).objects =~= before.catalog.objects);
                lemma_logged(before, self@, entry);
            }
        } else {
            assert(before.log =~= before.log.subrange(0, before.log.len() as int));
        }
        Ok(created)
    }

    /// Takes an object out and says whether it was there.
    pub fn delete_session_object(&mut self, k: &ObjectKey) -> (r: Result<bool, SqlError>)
        requires
            is_key(k@),
        ensures
            keeps_past(old(self)@, final(self)@),
            match r {
                Ok(existed) => {
                    &&& old(self).exclusive
                    &&& existed == (ddl::definition_of(old(self)@.catalog, k@) is Some)
                    &&& final(self)@.catalog == ddl::without(old(self)@.catalog, k@)
                },
                Err(e) => !old(self).exclusive && e@ == exclusive_error() && final(self)@ == old(
                    self,
                )@,
            },
    {
        let ghost before = self@;
        let previous = self.catalog.load(k);
        match self.db_mut() {
            Ok(()) => {},
            Err(e) => {
                assert(before.log =~= before.log.subrange(0, before.log.len() as int));
                return Err(e);
            },
        }
        let existed = self.catalog.delete(k);
        if self.transaction.is_some() && previous.is_some() {
            let entry = undo_entry(k, previous);
            self.log.push(entry);
            proof {
                assert(ddl::undone(self@.catalog, entry).objects =~= before.catalog.objects);
                lemma_logged(before, self@, entry);
            }
        } else {
            proof {
                assert(before.log =~= before.log.subrange(0, before.log.len() as int));
                if !existed {
                    assert(self@.catalog.objects =~= before.catalog.objects);
                }
            }
        }
        Ok(existed)
    }

    /// Makes a collection where there is none.
    pub fn create_session_collection(&mut self, name: &str) -> (r: Result<(), SqlError>)
        ensures
            keeps_past(old(self)@, final(self)@),
            match r {
                Ok(()) => old(self).exclusive && final(self)@.catalog == ddl::with_collection(
                    old(self)@.catalog,
                    name@,
                ),
                Err(e) => !old(self).exclusive && e@ == exclusive_error() && final(self)@ == old(
                    self,
                )@,
            },
    {
        let ghost before = self@;
        assert(before.log =~= before.log.subrange(0, before.log.len() as int));
        match self.db_mut() {
            Ok(()) => {},
            Err(e) => {
                return Err(e);
            },
        }
        let existed = self.catalog.create_collection(name);
        if self.transaction.is_some() && !existed {
            let entry = DdlUndo::DropCollection { name: name.to_owned() };
            self.log.push(entry);
            proof {
                assert(ddl::undone(self@.catalog, entry).collections
                    =~= before.catalog.collections);
                lemma_logged(before, self@, entry);
            }
        }
        Ok(())
    }

    /// Takes a collection out and says whether it was there.
    pub fn drop_session_collection(&mut self, name: &str) -> (r: Result<bool, SqlError>)
        ensures
            keeps_past(old(self)@, final(self)@),
            match r {
                Ok(existed) => {
                    &&& old(self).exclusive
                    &&& existed == (ddl::records_of(old(self)@.catalog, name@) is Some)
                    &&& final(self)@.catalog == ddl::without_collection(old(self)@.catalog, name@)
                },
                Err(e) => !old(self).exclusive && e@ == exclusive_error() && final(self)@ == old(
                    self,
                )@,
            },
    {
        let ghost before = self@;
        assert(before.log =~= before.log.subrange(0, before.log.len() as int));
        let records = if self.transaction.is_some() {
            self.catalog.scan_collection(name)
        } else {
            None
        };
        match self.db_mut() {
            Ok(()) => {},
            Err(e) => {
                return Err(e);
            },
        }
        let existed = self.catalog.drop_collection(name);
        match records {
            Some(records) => {
                let entry = DdlUndo::RestoreCollection { name: name.to_owned(), records };
                self.log.push(entry);
                proof {
                    let back = ddl::undone(self@.catalog, entry).collections;
                    let list = text::views(records@);
                    assert(Seq::<Seq<char>>::empty() + list =~= list);
                    assert(back =~= before.catalog.collections);
                    lemma_logged(before, self@, entry);
                }
            },
            None => {
                proof {
                    if !existed {
                        assert(self@.catalog.collections =~= before.catalog.collections);
                    }
                }
            },
        }
        Ok(existed)
    }

    /// Gives an index another name and says whether there was one. The names of
    /// indexes count without the case of their letters; a name that is taken is
    /// refused.
    pub fn rename_session_index(&mut self, old_name: &str, new_name: &str) -> (r: Result<
        bool,
        SqlError,
    >)
        ensures
            keeps_past(old(self)@, final(self)@),
            match r {
                Ok(renamed) => {
                    let k = ddl::key(ObjectKind::Index, text::lower(old_name@));
                    let taken = ddl::key(ObjectKind::Index, text::lower(new_name@));
                    if ddl::definition_of(old(self)@.catalog, k) is None {
                        !renamed && final(self)@ == old(self)@
                    } else if text::same_ignoring_case(old_name@, new_name@) {
                        renamed && final(self)@ == old(self)@
                    } else {
                        &&& old(self).exclusive
                        &&& renamed == (ddl::definition_of(old(self)@.catalog, taken) is None)
                        &&& final(self)@.catalog == (if renamed {
                            ddl::index_renamed(
                                old(self)@.catalog,
                                text::lower(old_name@),
                                text::lower(new_name@),
                            )
                        } else {
                            old(self)@.catalog
                        })
                    }
                },
                Err(e) => {
                    &&& ddl::definition_of(
                        old(self)@.catalog,
                        ddl::key(ObjectKind::Index, text::lower(old_name@)),
                    ) is Some
                    &&& !text::same_ignoring_case(old_name@, new_name@)
                    &&& !old(self).exclusive
                    &&& e@ == exclusive_error()
                    &&& final(self)@ == old(self)@
                },
            },
    {
        let ghost before = self@;
        assert(before.log =~= before.log.subrange(0, before.log.len() as int));
        let from = text::to_lower(old_name);
        let to = text::to_lower(new_name);
        let k = ObjectKey::single(ObjectKind::Index, from.clone());
        let taken = ObjectKey::single(ObjectKind::Index, to.clone());
        let existed = self.catalog.load(&k).is_some();
        if !existed {
            return Ok(false);
        }
        if text::eq_ignore_case(old_name, new_name) {
            return Ok(true);
        }
        match self.db_mut() {
            Ok(()) => {},
            Err(e) => {
                return Err(e);
            },
        }
        let free = self.catalog.load(&taken).is_none();
        if !free {
            return Ok(false);
        }
        self.catalog.rename_index(from.as_str(), to.as_str());
        if self.transaction.is_some() {
            let entry = DdlUndo::RenameIndex { old_name: from, new_name: to };
            self.log.push(entry);
            proof {
                assert(ddl::undone(self@.catalog, entry).objects =~= before.catalog.objects);
                lemma_logged(before, self@, entry);
            }
        }
        Ok(true)
    }

    /// Notes the schema and the records of a table before they are changed.
    pub fn capture_table_state_undo(&mut self, table: &str) -> (r: bool)
        ensures
            keeps_past(old(self)@, final(self)@),
            final(self)@.catalog == old(self)@.catalog,
            r == (old(self).transaction is Some && ddl::definition_of(
                old(self)@.catalog,
                ddl::key(ObjectKind::Table, table@),
            ) is Some && ddl::records_of(old(self)@.catalog, table@) is Some),
            r ==> {
                &&& final(self)@.log.len() == old(self)@.log.len() + 1
                &&& forall|c: ddl::CatalogView| #[trigger]
                    ddl::undone(c, final(self)@.log.last()) == ddl::with(
                        ddl::with_just(
                            c,
                            table@,
                            ddl::records_of(old(self)@.catalog, table@)->0,
                        ),
                        ddl::key(ObjectKind::Table, table@),
                        ddl::definition_of(
                            old(self)@.catalog,
                            ddl::key(ObjectKind::Table, table@),
                        )->0,
                    )
            },
            !r ==> final(self)@ == old(self)@,
    {
        let ghost before = self@;
        assert(before.log =~= before.log.subrange(0, before.log.len() as int));
        if self.transaction.is_none() {
            return false;
        }
        let k = ObjectKey::single(ObjectKind::Table, table.to_owned());
        let records = match self.catalog.scan_collection(table) {
            Some(records) => records,
            None => {
                return false;
            },
        };
        match self.catalog.load(&k) {
            Some(definition) => {
                let entry = DdlUndo::RestoreTableState {
                    table: table.to_owned(),
                    definition,
                    records,
                };
                self.log.push(entry);
                proof {
                    let back = ddl::undone(self@.catalog, entry);
                    assert(back.objects =~= before.catalog.objects);
                    assert(back.collections =~= before.catalog.collections);
                    lemma_logged(before, self@, entry);
                }
                true
            },
            None => false,
        }
    }
}

/// The catalog without each of some objects.
pub open spec fn without_each(
    c: ddl::CatalogView,
    kind: ObjectKind,
    names: Seq<Seq<char>>,
) -> ddl::CatalogView
    decreases names.len(),
{
    if names.len() == 0 {
        c
    } else {
        ddl::without(without_each(c, kind, names.drop_last()), ddl::key(kind, names.last()))
    }
}

/// The catalog with an object, and with grants where it is new.
pub open spec fn with_defaults(
    c: ddl::CatalogView,
    k: ddl::KeyView,
    definition: Seq<char>,
    defaults: Seq<NamedDefinition>,
) -> ddl::CatalogView {
    if ddl::definition_of(c, k) is None {
        ddl::with_each(ddl::with(c, k, definition), ObjectKind::Privilege, defaults)
    } else {
        ddl::with(c, k, definition)
    }
}

/// What a change of a session comes to: with exclusive access the catalog is what
/// it should be, without it an error changes nothing.
pub open spec fn changed<T>(
    before: DdlView,
    after: DdlView,
    r: Result<T, SqlError>,
    catalog: ddl::CatalogView,
) -> bool {
    &&& keeps_past(before, after)
    &&& match r {
        Ok(_) => before.exclusive && after.catalog == catalog,
        Err(e) => !before.exclusive && e@ == exclusive_error() && after == before,
    }
}

impl DdlSession {
    /// Gives each of some objects its definition.
    pub fn save_session_objects(&mut self, kind: ObjectKind, list: &Vec<NamedDefinition>) -> (r:
        Result<(), SqlError>)
        ensures
            keeps_past(old(self)@, final(self)@),
            match r {
                Ok(()) => {
                    &&& old(self).exclusive || list@.len() == 0
                    &&& final(self)@.catalog == ddl::with_each(old(self)@.catalog, kind, list@)
                },
                Err(e) => {
                    &&& !old(self).exclusive && list@.len() > 0
                    &&& e@ == exclusive_error()
                    &&& final(self)@ == old(self)@
                },
            },
    {
        let ghost before = self@;
        assert(before.log =~= before.log.subrange(0, before.log.len() as int));
        let mut i: usize = 0;
        while i < list.len()
            invariant
                i <= list.len(),
                before == old(self)@,
                before.exclusive || i == 0,
                i == 0 ==> self@ == before,
                keeps_past(before, self@),
                self@.catalog == ddl::with_each(before.catalog, kind, list@.take(i as int)),
            decreases list.len() - i,
        {
            assert(list@.take(i + 1).drop_last() =~= list@.take(i as int));
            assert(list@.take(i + 1).last() == list@[i as int]);
            let ghost between = self@;
            let k = ObjectKey::single(kind, list[i].name.clone());
            match self.save_session_object(k, list[i].definition.clone()) {
                Ok(_) => {},
                Err(e) => {
                    return Err(e);
                },
            }
            proof {
                law_keeps_past_transitive(before, between, self@);
            }
            i = i + 1;
        }
        assert(list@.take(list@.len() as int) =~= list@);
        Ok(())
    }

    /// Takes each of some objects out.
    pub fn delete_session_objects(&mut self, kind: ObjectKind, names: &Vec<String>) -> (r: Result<
        (),
        SqlError,
    >)
        ensures
            keeps_past(old(self)@, final(self)@),
            match r {
                Ok(()) => {
                    &&& old(self).exclusive || names@.len() == 0
                    &&& final(self)@.catalog == without_each(
                old(self)@.catalog,
                kind,
                text::views(names@),
            )
                },
                Err(e) => {
                    &&& !old(self).exclusive && names@.len() > 0
                    &&& e@ == exclusive_error()
                    &&& final(self)@ == old(self)@
                },
            },
    {
        let ghost before = self@;
        let ghost all = text::views(names@);
        assert(before.log =~= before.log.subrange(0, before.log.len() as int));
        let mut i: usize = 0;
        while i < names.len()
            invariant
                i <= names.len(),
                all == text::views(names@),
                before == old(self)@,
                before.exclusive || i == 0,
                i == 0 ==> self@ == before,
                keeps_past(before, self@),
                self@.catalog == without_each(before.catalog, kind, all.take(i as int)),
            decreases names.len() - i,
        {
            assert(all.take(i + 1).drop_last() =~= all.take(i as int));
            assert(all.take(i + 1).last() == names@[i as int]@);
            let ghost between = self@;
            let k = ObjectKey::single(kind, names[i].clone());
            match self.delete_session_object(&k) {
                Ok(_) => {},
                Err(e) => {
                    return Err(e);
                },
            }
            proof {
                law_keeps_past_transitive(before, between, self@);
            }
            i = i + 1;
        }
        assert(all.take(all.len() as int) =~= all);
        Ok(())
    }

    /// Gives an object a definition, and the grants that are its defaults where it
    /// is new.
    fn save_with_defaults(
        &mut self,
        k: ObjectKey,
        definition: String,
        defaults: &Vec<NamedDefinition>,
    ) -> (r: Result<(), SqlError>)
        requires
            is_key(k@),
        ensures
            changed(
                old(self)@,
                final(self)@,
                r,
                with_defaults(old(self)@.catalog, k@, definition@, defaults@),
            ),
    {
        let ghost before = self@;
        match self.save_session_object(k, definition) {
            Err(e) => Err(e),
            Ok(created) => {
                if !created {
                    return Ok(());
                }
                let ghost between = self@;
                let r = self.save_session_objects(ObjectKind::Privilege, defaults);
                proof {
                    law_keeps_past_transitive(before, between, self@);
                }
                r
            },
        }
    }

    /// Gives a table a schema. A new table gets the default privileges.
    pub fn save_session_schema(
        &mut self,
        table: &str,
        definition: String,
        defaults: &Vec<NamedDefinition>,
    ) -> (r: Result<(), SqlError>)
        ensures
            changed(
                old(self)@,
                final(self)@,
                r,
                with_defaults(
                    old(self)@.catalog,
                    ddl::key(ObjectKind::Table, table@),
                    definition@,
                    defaults@,
                ),
            ),
    {
        self.save_with_defaults(
            ObjectKey::single(ObjectKind::Table, table.to_owned()),
            definition,
            defaults,
        )
    }

    /// Gives a sequence a definition. A new one gets the default privileges.
    pub fn save_session_sequence(
        &mut self,
        sequence: &str,
        definition: String,
        defaults: &Vec<NamedDefinition>,
    ) -> (r: Result<(), SqlError>)
        ensures
            changed(
                old(self)@,
                final(self)@,
                r,
                with_defaults(
                    old(self)@.catalog,
                    ddl::key(ObjectKind::Sequence, sequence@),
                    definition@,
                    defaults@,
                ),
            ),
    {
        self.save_with_defaults(
            ObjectKey::single(ObjectKind::Sequence, sequence.to_owned()),
            definition,
            defaults,
        )
    }

    /// Gives a view a definition. A new one gets the default privileges.
    pub fn save_session_view(
        &mut self,
        view: &str,
        definition: String,
        defaults: &Vec<NamedDefinition>,
    ) -> (r: Result<(), SqlError>)
        ensures
            changed(
                old(self)@,
                final(self)@,
                r,
                with_defaults(
                    old(self)@.catalog,
                    ddl::key(ObjectKind::Query, view@),
                    definition@,
                    defaults@,
                ),
            ),
    {
        self.save_with_defaults(
            ObjectKey::single(ObjectKind::Query, view.to_owned()),
            definition,
            defaults,
        )
    }

    /// Takes the schema of a table out, and the grants on the table.
    pub fn delete_session_schema(&mut self, table: &str, grants: &Vec<String>) -> (r: Result<
        (),
        SqlError,
    >)
        ensures
            changed(
                old(self)@,
                final(self)@,
                r,
                without_each(
                    ddl::without(old(self)@.catalog, ddl::key(ObjectKind::Table, table@)),
                    ObjectKind::Privilege,
                    text::views(grants@),
                ),
            ),
    {
        let ghost before = self@;
        let k = ObjectKey::single(ObjectKind::Table, table.to_owned());
        match self.delete_session_object(&k) {
            Err(e) => Err(e),
            Ok(_) => {
                let ghost between = self@;
                let r = self.delete_session_objects(ObjectKind::Privilege, grants);
                proof {
                    law_keeps_past_transitive(before, between, self@);
                }
                r
            },
        }
    }

    /// Makes an object that must not be there yet. One that is there is given its
    /// definition only if it may be replaced; otherwise it stays where that is
    /// allowed, and the error is the one for a duplicate where it is not.
    pub fn create_session_object_if_missing(
        &mut self,
        k: ObjectKey,
        definition: String,
        replace: bool,
        if_not_exists: bool,
        duplicate: SqlError,
    ) -> (r: Result<bool, SqlError>)
        requires
            is_key(k@),
        ensures
            keeps_past(old(self)@, final(self)@),
            match r {
                Ok(created) => {
                    &&& old(self).exclusive
                    &&& created == (ddl::definition_of(old(self)@.catalog, k@) is None)
                    &&& created || replace || if_not_exists
                    &&& final(self)@.catalog == (if created || replace {
                        ddl::with(old(self)@.catalog, k@, definition@)
                    } else {
                        old(self)@.catalog
                    })
                },
                Err(e) => {
                    &&& final(self)@ == old(self)@
                    &&& if !old(self).exclusive {
                        e@ == exclusive_error()
                    } else {
                        &&& e@ == duplicate@
                        &&& ddl::definition_of(old(self)@.catalog, k@) is Some
                        &&& !replace && !if_not_exists
                    }
                },
            },
    {
        let ghost before = self@;
        assert(before.log =~= before.log.subrange(0, before.log.len() as int));
        match self.db_mut() {
            Ok(()) => {},
            Err(e) => {
                return Err(e);
            },
        }
        let existed = self.catalog.load(&k).is_some();
        if existed && !replace {
            if if_not_exists {
                return Ok(false);
            }
            return Err(duplicate);
        }
        self.save_session_object(k, definition)
    }

    /// Makes a schema that must not be there yet.
    pub fn create_session_namespace_if_missing(
        &mut self,
        name: &str,
        definition: String,
        if_not_exists: bool,
    ) -> (r: Result<(), SqlError>)
        ensures
            keeps_past(old(self)@, final(self)@),
            match r {
                Ok(()) => {
                    let k = ddl::key(ObjectKind::Namespace, name@);
                    &&& old(self).exclusive
                    &&& final(self)@.catalog == (if ddl::definition_of(
                        old(self)@.catalog,
                        k,
                    ) is None {
                        ddl::with(old(self)@.catalog, k, definition@)
                    } else {
                        old(self)@.catalog
                    })
                    &&& ddl::definition_of(old(self)@.catalog, k) is None || if_not_exists
                },
                Err(e) => {
                    &&& final(self)@ == old(self)@
                    &&& if !old(self).exclusive {
                        e@ == exclusive_error()
                    } else {
                        &&& e@ == duplicate_namespace_error(name@)
                        &&& ddl::definition_of(
                            old(self)@.catalog,
                            ddl::key(ObjectKind::Namespace, name@),
                        ) is Some
                        &&& !if_not_exists
                    }
                },
            },
    {
        let duplicate = SqlError::invalid_sql(
            text::concat3("schema \"", name, "\" already exists"),
        );
        match self.create_session_object_if_missing(
            ObjectKey::single(ObjectKind::Namespace, name.to_owned()),
            definition,
            false,
            if_not_exists,
            duplicate,
        ) {
            Ok(_) => Ok(()),
            Err(e) => Err(e),
        }
    }
}

pub open spec fn duplicate_namespace_error(name: Seq<char>) -> error::ErrorView {
    error::invalid_sql_error("schema \""@ + name + "\" already exists"@)
}

/// Whatever a transaction does to the catalog, rolling its log back to the length
/// that it had gives the catalog back.
pub proof fn law_rollback_restores_catalog(before: DdlView, after: DdlView)
    requires
        before.transaction is Some,
        keeps_past(before, after),
    ensures
        ddl::undone_to(after.catalog, after.log, before.log.len() as int) == before.catalog,
        after.log.take(before.log.len() as int) == before.log,
{
    assert(ddl::undone_to(before.catalog, before.log, before.log.len() as int) == before.catalog);
    assert(after.log.take(before.log.len() as int) =~= before.log);
}

} // verus!
