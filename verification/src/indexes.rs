//! The indexes that carry out keys, and what partitions inherit.
use vstd::prelude::*;
use crate::error;
use crate::error::SqlError;
use crate::text;

verus! {

/// The kinds of indexes: B-trees, and others, which are known by a number.
#[derive(Clone, Copy, Debug, PartialEq, Eq, Structural)]
pub enum IndexKind {
    BTree,
    Other(u8),
}

/// The definition of an index.
#[derive(Debug)]
pub struct IndexDefinition {
    pub name: String,
    pub collection: String,
    pub fields: Vec<String>,
    pub unique: bool,
    pub kind: IndexKind,
    pub predicate: Option<String>,
    pub exclusion: Option<String>,
}

pub struct IndexView {
    pub name: Seq<char>,
    pub collection: Seq<char>,
    pub fields: Seq<Seq<char>>,
    pub unique: bool,
    pub kind: IndexKind,
    pub predicate: Option<Seq<char>>,
    pub exclusion: Option<Seq<char>>,
}

impl View for IndexDefinition {
    type V = IndexView;

    open spec fn view(&self) -> IndexView {
        IndexView {
            name: self.name@,
            collection: self.collection@,
            fields: text::views(self.fields@),
            unique: self.unique,
            kind: self.kind,
            predicate: error::view_option(self.predicate),
            exclusion: error::view_option(self.exclusion),
        }
    }
}

pub open spec fn index_views(v: Seq<IndexDefinition>) -> Seq<IndexView> {
    v.map_values(|i: IndexDefinition| i@)
}

/// A UNIQUE constraint, the fields that its index is on, and whether it is just
/// the primary key.
#[derive(Debug)]
pub struct UniqueConstraint {
    pub name: String,
    pub fields: Vec<String>,
    pub is_primary_key: bool,
}

/// A table and its keys. A primary key that is hidden or on no fields needs no
/// index.
#[derive(Debug)]
pub struct KeyedTable {
    pub name: String,
    pub hidden_primary_key: bool,
    pub primary_key_name: String,
    pub primary_key_fields: Vec<String>,
    pub unique: Vec<UniqueConstraint>,
}

/// The index that carries out a key.
pub open spec fn key_index(name: Seq<char>, table: Seq<char>, fields: Seq<Seq<char>>) -> IndexView {
    IndexView {
        name,
        collection: table,
        fields,
        unique: true,
        kind: IndexKind::BTree,
        predicate: None,
        exclusion: None,
    }
}

/// The index that carries out a table's primary key.
pub open spec fn primary_key_index(t: KeyedTable) -> Option<IndexView> {
    if t.hidden_primary_key || t.primary_key_fields@.len() == 0 {
        None
    } else {
        Some(key_index(t.primary_key_name@, t.name@, text::views(t.primary_key_fields@)))
    }
}

/// The indexes that carry out the first of a table's UNIQUE constraints.
pub open spec fn unique_indexes(table: Seq<char>, unique: Seq<UniqueConstraint>) -> Seq<IndexView>
    decreases unique.len(),
{
    if unique.len() == 0 {
        Seq::empty()
    } else {
        let before = unique_indexes(table, unique.drop_last());
        if unique.last().is_primary_key {
            before
        } else {
            before.push(
                key_index(unique.last().name@, table, text::views(unique.last().fields@)),
            )
        }
    }
}

/// Whether two lists of fields are the same, but for the case of the letters.
pub open spec fn fields_match(a: Seq<Seq<char>>, b: Seq<Seq<char>>) -> bool {
    a.len() == b.len() && forall|k: int|
        0 <= k < a.len() ==> text::same_ignoring_case(#[trigger] a[k], b[k])
}

/// Whether an index does for a primary key.
pub open spec fn does_for_primary_key(index: IndexView, wanted: IndexView) -> bool {
    &&& text::same_ignoring_case(index.name, wanted.name)
    &&& text::same_ignoring_case(index.collection, wanted.collection)
    &&& index.unique == wanted.unique
    &&& index.kind == wanted.kind
    &&& fields_match(index.fields, wanted.fields)
}

/// Whether an index does for a UNIQUE constraint.
pub open spec fn does_for_unique(index: IndexView, wanted: IndexView) -> bool {
    &&& text::same_ignoring_case(index.collection, wanted.collection)
    &&& index.unique == wanted.unique
    &&& index.kind == wanted.kind
    &&& fields_match(index.fields, wanted.fields)
    &&& index.predicate == wanted.predicate
    &&& index.exclusion == wanted.exclusion
}

/// The place of the first index with a name, without the case of its letters.
pub open spec fn named_index(indexes: Seq<IndexView>, name: Seq<char>, from: int) -> Option<int>
    decreases indexes.len() - from,
{
    if from < 0 || from >= indexes.len() {
        None
    } else if text::same_ignoring_case(indexes[from].name, name) {
        Some(from)
    } else {
        named_index(indexes, name, from + 1)
    }
}

/// Whether one of the indexes does for a primary key.
pub open spec fn has_primary_key_index(indexes: Seq<IndexView>, wanted: IndexView) -> bool {
    exists|k: int| 0 <= k < indexes.len() && does_for_primary_key(#[trigger] indexes[k], wanted)
}

pub open spec fn primary_key_error(name: Seq<char>) -> error::ErrorView {
    error::invalid_sql_error(
        "index \""@ + name + "\" already exists with a definition that does not match primary key \""@
            + name + "\""@,
    )
}

pub open spec fn unique_error(name: Seq<char>) -> error::ErrorView {
    error::invalid_sql_error(
        "index \""@ + name
            + "\" already exists with a definition that does not match UNIQUE constraint \""@ + name
            + "\""@,
    )
}

/// The indexes with that of a table's primary key.
pub open spec fn primary_key_ensured(indexes: Seq<IndexView>, t: KeyedTable) -> Result<
    Seq<IndexView>,
    error::ErrorView,
> {
    match primary_key_index(t) {
        None => Ok(indexes),
        Some(wanted) => if has_primary_key_index(indexes, wanted) {
            Ok(indexes)
        } else if named_index(indexes, wanted.name, 0) is Some {
            Err(primary_key_error(wanted.name))
        } else {
            Ok(indexes.push(wanted))
        },
    }
}

/// The indexes with one that a UNIQUE constraint wants.
pub open spec fn unique_ensured(indexes: Seq<IndexView>, wanted: IndexView) -> Result<
    Seq<IndexView>,
    error::ErrorView,
> {
    match named_index(indexes, wanted.name, 0) {
        Some(at) => if does_for_unique(indexes[at], wanted) {
            Ok(indexes)
        } else {
            Err(unique_error(wanted.name))
        },
        None => Ok(indexes.push(wanted)),
    }
}

/// The indexes with each that UNIQUE constraints want.
pub open spec fn all_unique_ensured(indexes: Seq<IndexView>, wanted: Seq<IndexView>) -> Result<
    Seq<IndexView>,
    error::ErrorView,
>
    decreases wanted.len(),
{
    if wanted.len() == 0 {
        Ok(indexes)
    } else {
        match all_unique_ensured(indexes, wanted.drop_last()) {
            Ok(list) => unique_ensured(list, wanted.last()),
            Err(e) => Err(e),
        }
    }
}

/// The indexes with those of the primary keys of tables.
pub open spec fn primary_keys_ensured(indexes: Seq<IndexView>, tables: Seq<KeyedTable>) -> Result<
    Seq<IndexView>,
    error::ErrorView,
>
    decreases tables.len(),
{
    if tables.len() == 0 {
        Ok(indexes)
    } else {
        match primary_keys_ensured(indexes, tables.drop_last()) {
            Ok(list) => primary_key_ensured(list, tables.last()),
            Err(e) => Err(e),
        }
    }
}

/// The indexes with those of the UNIQUE constraints of tables.
pub open spec fn unique_constraints_ensured(indexes: Seq<IndexView>, tables: Seq<KeyedTable>) -> Result<
    Seq<IndexView>,
    error::ErrorView,
>
    decreases tables.len(),
{
    if tables.len() == 0 {
        Ok(indexes)
    } else {
        match unique_constraints_ensured(indexes, tables.drop_last()) {
            Ok(list) => all_unique_ensured(
                list,
                unique_indexes(tables.last().name@, tables.last().unique@),
            ),
            Err(e) => Err(e),
        }
    }
}

/// The indexes by the time that no more UNIQUE constraints can have theirs.
pub open spec fn unique_reached(indexes: Seq<IndexView>, wanted: Seq<IndexView>) -> Seq<IndexView>
    decreases wanted.len(),
{
    match all_unique_ensured(indexes, wanted) {
        Ok(list) => list,
        Err(_) => if wanted.len() == 0 {
            indexes
        } else {
            unique_reached(indexes, wanted.drop_last())
        },
    }
}

/// The indexes by the time that no more primary keys can have theirs.
pub open spec fn primary_keys_reached(indexes: Seq<IndexView>, tables: Seq<KeyedTable>) -> Seq<
    IndexView,
>
    decreases tables.len(),
{
    match primary_keys_ensured(indexes, tables) {
        Ok(list) => list,
        Err(_) => if tables.len() == 0 {
            indexes
        } else {
            primary_keys_reached(indexes, tables.drop_last())
        },
    }
}

/// The indexes by the time that no more UNIQUE constraints of tables can have theirs.
pub open spec fn unique_constraints_reached(
    indexes: Seq<IndexView>,
    tables: Seq<KeyedTable>,
) -> Seq<IndexView>
    decreases tables.len(),
{
    if tables.len() == 0 {
        indexes
    } else {
        match unique_constraints_ensured(indexes, tables.drop_last()) {
            Ok(list) => unique_reached(
                list,
                unique_indexes(tables.last().name@, tables.last().unique@),
            ),
            Err(_) => unique_constraints_reached(indexes, tables.drop_last()),
        }
    }
}

fn key_index_definition(name: &str, table: &str, fields: &Vec<String>) -> (r: IndexDefinition)
    ensures
        r@ == key_index(name@, table@, text::views(fields@)),
{
    IndexDefinition {
        name: name.to_owned(),
        collection: table.to_owned(),
        fields: text::copy_names(fields),
        unique: true,
        kind: IndexKind::BTree,
        predicate: None,
        exclusion: None,
    }
}

/// The index that carries out a table's primary key.
pub fn primary_key_index_definition_for_schema(t: &KeyedTable) -> (r: Option<IndexDefinition>)
    ensures
        match (r, primary_key_index(*t)) {
            (Some(i), Some(view)) => i@ == view,
            (None, None) => true,
            _ => false,
        },
{
    if t.hidden_primary_key || t.primary_key_fields.len() == 0 {
        return None;
    }
    Some(
        key_index_definition(
            t.primary_key_name.as_str(),
            t.name.as_str(),
            &t.primary_key_fields,
        ),
    )
}

/// The indexes that carry out a table's UNIQUE constraints. One that is just the
/// primary key has that one's index.
pub fn unique_constraint_index_definitions_for_schema(t: &KeyedTable) -> (r: Vec<IndexDefinition>)
    ensures
        index_views(r@) == unique_indexes(t.name@, t.unique@),
{
    let mut out: Vec<IndexDefinition> = Vec::new();
    let mut i: usize = 0;
    while i < t.unique.len()
        invariant
            i <= t.unique.len(),
            index_views(out@) == unique_indexes(t.name@, t.unique@.take(i as int)),
        decreases t.unique.len() - i,
    {
        assert(t.unique@.take(i + 1).drop_last() =~= t.unique@.take(i as int));
        assert(t.unique@.take(i + 1).last() == t.unique@[i as int]);
        let ghost prior = out@;
        if !t.unique[i].is_primary_key {
            let definition = key_index_definition(
                t.unique[i].name.as_str(),
                t.name.as_str(),
                &t.unique[i].fields,
            );
            let ghost view = definition@;
            out.push(definition);
            assert(index_views(out@) =~= index_views(prior).push(view));
        }
        i = i + 1;
    }
    assert(t.unique@.take(t.unique@.len() as int) =~= t.unique@);
    out
}

fn same_fields(a: &Vec<String>, b: &Vec<String>) -> (r: bool)
    ensures
        r == fields_match(text::views(a@), text::views(b@)),
{
    let ghost x = text::views(a@);
    let ghost y = text::views(b@);
    if a.len() != b.len() {
        return false;
    }
    let mut i: usize = 0;
    while i < a.len()
        invariant
            i <= a.len(),
            a@.len() == b@.len(),
            x == text::views(a@),
            y == text::views(b@),
            forall|k: int| 0 <= k < i ==> text::same_ignoring_case(#[trigger] x[k], y[k]),
        decreases a.len() - i,
    {
        assert(x[i as int] == a@[i as int]@);
        assert(y[i as int] == b@[i as int]@);
        if !text::eq_ignore_case(a[i].as_str(), b[i].as_str()) {
            return false;
        }
        i = i + 1;
    }
    true
}

fn same_text(a: &Option<String>, b: &Option<String>) -> (r: bool)
    ensures
        r == (error::view_option(*a) == error::view_option(*b)),
{
    match (a, b) {
        (Some(a), Some(b)) => text::text_eq(a.as_str(), b.as_str()),
        (None, None) => true,
        _ => false,
    }
}

fn find_named(indexes: &Vec<IndexDefinition>, name: &str) -> (r: Option<usize>)
    ensures
        match (r, named_index(index_views(indexes@), name@, 0)) {
            (Some(at), Some(view)) => at == view && at < indexes@.len(),
            (None, None) => true,
            _ => false,
        },
{
    let ghost all = index_views(indexes@);
    let mut i: usize = 0;
    while i < indexes.len()
        invariant
            i <= indexes.len(),
            all == index_views(indexes@),
            named_index(all, name@, 0) == named_index(all, name@, i as int),
        decreases indexes.len() - i,
    {
        assert(all[i as int] == indexes@[i as int]@);
        if text::eq_ignore_case(indexes[i].name.as_str(), name) {
            return Some(i);
        }
        i = i + 1;
    }
    None
}

/// The index that carries out a table's primary key, if there is one.
pub fn executable_primary_key_index_for_schema(
    indexes: &Vec<IndexDefinition>,
    wanted: &IndexDefinition,
) -> (r: bool)
    ensures
        r == has_primary_key_index(index_views(indexes@), wanted@),
{
    let ghost all = index_views(indexes@);
    let mut i: usize = 0;
    while i < indexes.len()
        invariant
            i <= indexes.len(),
            all == index_views(indexes@),
            forall|k: int| 0 <= k < i ==> !does_for_primary_key(#[trigger] all[k], wanted@),
        decreases indexes.len() - i,
    {
        assert(all[i as int] == indexes@[i as int]@);
        let index = &indexes[i];
        if text::eq_ignore_case(index.name.as_str(), wanted.name.as_str()) && text::eq_ignore_case(
            index.collection.as_str(),
            wanted.collection.as_str(),
        ) && index.unique == wanted.unique && index.kind == wanted.kind && same_fields(
            &index.fields,
            &wanted.fields,
        ) {
            return true;
        }
        i = i + 1;
    }
    false
}

fn mismatch(name: &str, what: &str) -> (e: SqlError)
    ensures
        e@ == error::invalid_sql_error(
            "index \""@ + name@ + "\" already exists with a definition that does not match "@
                + what@ + " \""@ + name@ + "\""@,
        ),
{
    let a = text::concat3(
        "index \"",
        name,
        "\" already exists with a definition that does not match ",
    );
    let b = text::concat3(a.as_str(), what, " \"");
    SqlError::invalid_sql(text::concat3(b.as_str(), name, "\""))
}

/// Makes sure that a table's primary key has its index.
pub fn ensure_primary_key_index_for_schema(indexes: &mut Vec<IndexDefinition>, t: &KeyedTable) -> (r:
    Result<(), SqlError>)
    ensures
        match (r, primary_key_ensured(index_views(old(indexes)@), *t)) {
            (Ok(()), Ok(list)) => index_views(final(indexes)@) == list,
            (Err(e), Err(view)) => e@ == view && index_views(final(indexes)@) == index_views(
                old(indexes)@,
            ),
            _ => false,
        },
{
    let definition = match primary_key_index_definition_for_schema(t) {
        Some(d) => d,
        None => {
            return Ok(());
        },
    };
    if executable_primary_key_index_for_schema(indexes, &definition) {
        return Ok(());
    }
    if find_named(indexes, definition.name.as_str()).is_some() {
        let e = mismatch(definition.name.as_str(), "primary key");
        proof {
            lemma_mismatch(definition.name@);
        }
        return Err(e);
    }
    let ghost before = indexes@;
    let ghost view = definition@;
    indexes.push(definition);
    assert(index_views(indexes@) =~= index_views(before).push(view));
    Ok(())
}

proof fn lemma_mismatch(name: Seq<char>)
    ensures
        error::invalid_sql_error(
            "index \""@ + name + "\" already exists with a definition that does not match "@
                + "primary key"@ + " \""@ + name + "\""@,
        ) == primary_key_error(name),
        error::invalid_sql_error(
            "index \""@ + name + "\" already exists with a definition that does not match "@
                + "UNIQUE constraint"@ + " \""@ + name + "\""@,
        ) == unique_error(name),
{
    reveal_strlit("\" already exists with a definition that does not match ");
    reveal_strlit("primary key");
    reveal_strlit("UNIQUE constraint");
    reveal_strlit(" \"");
    reveal_strlit("\" already exists with a definition that does not match primary key \"");
    reveal_strlit("\" already exists with a definition that does not match UNIQUE constraint \"");
    assert("index \""@ + name + "\" already exists with a definition that does not match "@
        + "primary key"@ + " \""@ + name + "\""@ =~= "index \""@ + name
        + "\" already exists with a definition that does not match primary key \""@ + name
        + "\""@);
    assert("index \""@ + name + "\" already exists with a definition that does not match "@
        + "UNIQUE constraint"@ + " \""@ + name + "\""@ =~= "index \""@ + name
        + "\" already exists with a definition that does not match UNIQUE constraint \""@ + name
        + "\""@);
}

fn ensure_unique_index(indexes: &mut Vec<IndexDefinition>, definition: IndexDefinition) -> (r: Result<
    (),
    SqlError,
>)
    ensures
        match (r, unique_ensured(index_views(old(indexes)@), definition@)) {
            (Ok(()), Ok(list)) => index_views(final(indexes)@) == list,
            (Err(e), Err(view)) => e@ == view && index_views(final(indexes)@) == index_views(
                old(indexes)@,
            ),
            _ => false,
        },
{
    match find_named(indexes, definition.name.as_str()) {
        Some(at) => {
            assert(index_views(indexes@)[at as int] == indexes@[at as int]@);
            let existing = &indexes[at];
            if text::eq_ignore_case(
                existing.collection.as_str(),
                definition.collection.as_str(),
            ) && existing.unique == definition.unique && existing.kind == definition.kind
                && same_fields(&existing.fields, &definition.fields) && same_text(
                &existing.predicate,
                &definition.predicate,
            ) && same_text(&existing.exclusion, &definition.exclusion) {
                return Ok(());
            }
            let e = mismatch(definition.name.as_str(), "UNIQUE constraint");
            proof {
                lemma_mismatch(definition.name@);
            }
            Err(e)
        },
        None => {
            let ghost before = indexes@;
            let ghost view = definition@;
            indexes.push(definition);
            assert(index_views(indexes@) =~= index_views(before).push(view));
            Ok(())
        },
    }
}

/// Makes sure that a table's UNIQUE constraints have their indexes. Those before
/// one that cannot have it have theirs.
pub fn ensure_unique_constraint_indexes_for_schema(
    indexes: &mut Vec<IndexDefinition>,
    t: &KeyedTable,
) -> (r: Result<(), SqlError>)
    ensures
        match (
            r,
            all_unique_ensured(
                index_views(old(indexes)@),
                unique_indexes(t.name@, t.unique@),
            ),
        ) {
            (Ok(()), Ok(list)) => index_views(final(indexes)@) == list,
            (Err(e), Err(view)) => e@ == view && index_views(final(indexes)@) == unique_reached(
                index_views(old(indexes)@),
                unique_indexes(t.name@, t.unique@),
            ),
            _ => false,
        },
{
    let mut wanted = unique_constraint_index_definitions_for_schema(t);
    let ghost all = index_views(wanted@);
    let ghost given = index_views(indexes@);
    let count = wanted.len();
    let mut i: usize = 0;
    while i < count
        invariant
            i <= count,
            count == all.len(),
            wanted@.len() == count - i,
            all == unique_indexes(t.name@, t.unique@),
            given == index_views(old(indexes)@),
            forall|k: int| 0 <= k < wanted@.len() ==> (#[trigger] wanted@[k])@ == all[i + k],
            all_unique_ensured(given, all.take(i as int)) == Ok::<
                Seq<IndexView>,
                error::ErrorView,
            >(index_views(indexes@)),
        decreases count - i,
    {
        assert(all.take(i + 1).drop_last() =~= all.take(i as int));
        assert(all.take(i + 1).last() == all[i as int]);
        assert(wanted@[0]@ == all[i + 0]);
        let ghost was = wanted@;
        let definition = wanted.remove(0);
        match ensure_unique_index(indexes, definition) {
            Ok(()) => {},
            Err(e) => {
                proof {
                    lemma_unique_error_stays(given, all, i + 1);
                    assert(unique_reached(given, all.take(i as int)) == index_views(indexes@));
                }
                return Err(e);
            },
        }
        proof {
            assert forall|k: int| 0 <= k < wanted@.len() implies (#[trigger] wanted@[k])@ == all[i + 1
                + k] by {
                assert(wanted@[k] == was[k + 1]);
                assert(was[k + 1]@ == all[i + (k + 1)]);
            }
        }
        i = i + 1;
    }
    assert(all.take(all.len() as int) =~= all);
    Ok(())
}

proof fn lemma_unique_error_stays(indexes: Seq<IndexView>, wanted: Seq<IndexView>, i: int)
    requires
        0 <= i <= wanted.len(),
        all_unique_ensured(indexes, wanted.take(i)) is Err,
    ensures
        all_unique_ensured(indexes, wanted) == all_unique_ensured(indexes, wanted.take(i)),
        unique_reached(indexes, wanted) == unique_reached(indexes, wanted.take(i)),
    decreases wanted.len(),
{
    if i == wanted.len() {
        assert(wanted.take(i) =~= wanted);
    } else {
        assert(wanted.drop_last().take(i) =~= wanted.take(i));
        lemma_unique_error_stays(indexes, wanted.drop_last(), i);
    }
}

proof fn lemma_primary_error_stays(indexes: Seq<IndexView>, tables: Seq<KeyedTable>, i: int)
    requires
        0 <= i <= tables.len(),
        primary_keys_ensured(indexes, tables.take(i)) is Err,
    ensures
        primary_keys_ensured(indexes, tables) == primary_keys_ensured(indexes, tables.take(i)),
        primary_keys_reached(indexes, tables) == primary_keys_reached(indexes, tables.take(i)),
    decreases tables.len(),
{
    if i == tables.len() {
        assert(tables.take(i) =~= tables);
    } else {
        assert(tables.drop_last().take(i) =~= tables.take(i));
        lemma_primary_error_stays(indexes, tables.drop_last(), i);
    }
}

proof fn lemma_tables_error_stays(indexes: Seq<IndexView>, tables: Seq<KeyedTable>, i: int)
    requires
        0 <= i <= tables.len(),
        unique_constraints_ensured(indexes, tables.take(i)) is Err,
    ensures
        unique_constraints_ensured(indexes, tables) == unique_constraints_ensured(
            indexes,
            tables.take(i),
        ),
        unique_constraints_reached(indexes, tables) == unique_constraints_reached(
            indexes,
            tables.take(i),
        ),
    decreases tables.len(),
{
    if i == tables.len() {
        assert(tables.take(i) =~= tables);
    } else {
        assert(tables.drop_last().take(i) =~= tables.take(i));
        lemma_tables_error_stays(indexes, tables.drop_last(), i);
    }
}

/// Makes sure that the primary keys of tables have their indexes.
pub fn ensure_primary_key_indexes(indexes: &mut Vec<IndexDefinition>, tables: &Vec<KeyedTable>) -> (r:
    Result<(), SqlError>)
    ensures
        match (r, primary_keys_ensured(index_views(old(indexes)@), tables@)) {
            (Ok(()), Ok(list)) => index_views(final(indexes)@) == list,
            (Err(e), Err(view)) => e@ == view && index_views(final(indexes)@)
                == primary_keys_reached(index_views(old(indexes)@), tables@),
            _ => false,
        },
{
    let ghost given = index_views(indexes@);
    let mut i: usize = 0;
    while i < tables.len()
        invariant
            i <= tables.len(),
            given == index_views(old(indexes)@),
            primary_keys_ensured(given, tables@.take(i as int)) == Ok::<
                Seq<IndexView>,
                error::ErrorView,
            >(index_views(indexes@)),
        decreases tables.len() - i,
    {
        assert(tables@.take(i + 1).drop_last() =~= tables@.take(i as int));
        assert(tables@.take(i + 1).last() == tables@[i as int]);
        match ensure_primary_key_index_for_schema(indexes, &tables[i]) {
            Ok(()) => {},
            Err(e) => {
                proof {
                    lemma_primary_error_stays(given, tables@, i + 1);
                    assert(primary_keys_reached(given, tables@.take(i as int)) == index_views(
                        indexes@,
                    ));
                }
                return Err(e);
            },
        }
        i = i + 1;
    }
    assert(tables@.take(tables@.len() as int) =~= tables@);
    Ok(())
}

/// Makes sure that the UNIQUE constraints of tables have their indexes.
pub fn ensure_unique_constraint_indexes(indexes: &mut Vec<IndexDefinition>, tables: &Vec<KeyedTable>) -> (r:
    Result<(), SqlError>)
    ensures
        match (r, unique_constraints_ensured(index_views(old(indexes)@), tables@)) {
            (Ok(()), Ok(list)) => index_views(final(indexes)@) == list,
            (Err(e), Err(view)) => e@ == view && index_views(final(indexes)@)
                == unique_constraints_reached(index_views(old(indexes)@), tables@),
            _ => false,
        },
{
    let ghost given = index_views(indexes@);
    let mut i: usize = 0;
    while i < tables.len()
        invariant
            i <= tables.len(),
            given == index_views(old(indexes)@),
            unique_constraints_ensured(given, tables@.take(i as int)) == Ok::<
                Seq<IndexView>,
                error::ErrorView,
            >(index_views(indexes@)),
        decreases tables.len() - i,
    {
        assert(tables@.take(i + 1).drop_last() =~= tables@.take(i as int));
        assert(tables@.take(i + 1).last() == tables@[i as int]);
        match ensure_unique_constraint_indexes_for_schema(indexes, &tables[i]) {
            Ok(()) => {},
            Err(e) => {
                proof {
                    lemma_tables_error_stays(given, tables@, i + 1);
                }
                return Err(e);
            },
        }
        i = i + 1;
    }
    assert(tables@.take(tables@.len() as int) =~= tables@);
    Ok(())
}

/// Whether a table's primary key has its index, or needs none.
pub open spec fn primary_key_served(indexes: Seq<IndexView>, t: KeyedTable) -> bool {
    match primary_key_index(t) {
        Some(wanted) => has_primary_key_index(indexes, wanted),
        None => true,
    }
}

proof fn lemma_served_by_more(indexes: Seq<IndexView>, more: Seq<IndexView>, t: KeyedTable)
    requires
        indexes.is_prefix_of(more),
        primary_key_served(indexes, t),
    ensures
        primary_key_served(more, t),
{
    if primary_key_index(t) is Some {
        let wanted = primary_key_index(t)->0;
        let k = choose|k: int|
            0 <= k < indexes.len() && does_for_primary_key(#[trigger] indexes[k], wanted);
        assert(more[k] == indexes[k]);
    }
}

proof fn lemma_primary_keys_served(indexes: Seq<IndexView>, tables: Seq<KeyedTable>)
    requires
        primary_keys_ensured(indexes, tables) is Ok,
    ensures
        indexes.is_prefix_of(primary_keys_ensured(indexes, tables)->Ok_0),
        forall|k: int|
            0 <= k < tables.len() ==> primary_key_served(
                primary_keys_ensured(indexes, tables)->Ok_0,
                #[trigger] tables[k],
            ),
    decreases tables.len(),
{
    if tables.len() > 0 {
        let rest = tables.drop_last();
        lemma_primary_keys_served(indexes, rest);
        let before = primary_keys_ensured(indexes, rest)->Ok_0;
        let after = primary_keys_ensured(indexes, tables)->Ok_0;
        assert(before.is_prefix_of(after));
        assert(indexes.is_prefix_of(after)) by {
            assert(after.subrange(0, indexes.len() as int) =~= before.subrange(
                0,
                indexes.len() as int,
            ));
        }
        assert forall|k: int| 0 <= k < tables.len() implies primary_key_served(
            after,
            #[trigger] tables[k],
        ) by {
            if k < rest.len() {
                assert(primary_key_served(before, rest[k]));
                lemma_served_by_more(before, after, tables[k]);
            } else if primary_key_index(tables[k]) is Some {
                let wanted = primary_key_index(tables[k])->0;
                if !has_primary_key_index(before, wanted) {
                    assert(after[before.len() as int] == wanted);
                    assert(does_for_primary_key(wanted, wanted));
                }
            }
        }
    }
}

proof fn lemma_served_changes_nothing(indexes: Seq<IndexView>, tables: Seq<KeyedTable>)
    requires
        forall|k: int| 0 <= k < tables.len() ==> primary_key_served(indexes, #[trigger] tables[k]),
    ensures
        primary_keys_ensured(indexes, tables) == Ok::<Seq<IndexView>, error::ErrorView>(indexes),
    decreases tables.len(),
{
    if tables.len() > 0 {
        let rest = tables.drop_last();
        assert forall|k: int| 0 <= k < rest.len() implies primary_key_served(
            indexes,
            #[trigger] rest[k],
        ) by {
            assert(primary_key_served(indexes, tables[k]));
        }
        lemma_served_changes_nothing(indexes, rest);
        assert(primary_key_served(indexes, tables[tables.len() - 1]));
    }
}

/// Making sure of the indexes of primary keys takes none away, leaves no primary
/// key without one, and done again changes nothing.
pub proof fn law_primary_keys_ensured(indexes: Seq<IndexView>, tables: Seq<KeyedTable>)
    requires
        primary_keys_ensured(indexes, tables) is Ok,
    ensures
        ({
            let after = primary_keys_ensured(indexes, tables)->Ok_0;
            &&& indexes.is_prefix_of(after)
            &&& forall|k: int|
                0 <= k < tables.len() ==> primary_key_served(after, #[trigger] tables[k])
            &&& primary_keys_ensured(after, tables) == Ok::<Seq<IndexView>, error::ErrorView>(after)
        }),
{
    lemma_primary_keys_served(indexes, tables);
    lemma_served_changes_nothing(primary_keys_ensured(indexes, tables)->Ok_0, tables);
}

/// Whether a UNIQUE constraint has its index.
pub open spec fn unique_served(indexes: Seq<IndexView>, wanted: IndexView) -> bool {
    match named_index(indexes, wanted.name, 0) {
        Some(at) => does_for_unique(indexes[at], wanted),
        None => false,
    }
}

proof fn lemma_named_in_more(indexes: Seq<IndexView>, more: Seq<IndexView>, name: Seq<char>, from: int)
    requires
        indexes.is_prefix_of(more),
        0 <= from,
        named_index(indexes, name, from) is Some,
    ensures
        named_index(more, name, from) == named_index(indexes, name, from),
        0 <= named_index(indexes, name, from)->0 < indexes.len(),
    decreases indexes.len() - from,
{
    assert(more[from] == indexes[from]);
    if !text::same_ignoring_case(indexes[from].name, name) {
        lemma_named_in_more(indexes, more, name, from + 1);
    }
}

proof fn lemma_named_last(indexes: Seq<IndexView>, wanted: IndexView, from: int)
    requires
        0 <= from <= indexes.len(),
        named_index(indexes, wanted.name, from) is None,
    ensures
        named_index(indexes.push(wanted), wanted.name, from) == Some(indexes.len() as int),
    decreases indexes.len() - from,
{
    let more = indexes.push(wanted);
    if from < indexes.len() {
        assert(more[from] == indexes[from]);
        lemma_named_last(indexes, wanted, from + 1);
    } else {
        assert(more[from] == wanted);
    }
}

proof fn lemma_unique_served_by_more(indexes: Seq<IndexView>, more: Seq<IndexView>, wanted: IndexView)
    requires
        indexes.is_prefix_of(more),
        unique_served(indexes, wanted),
    ensures
        unique_served(more, wanted),
{
    lemma_named_in_more(indexes, more, wanted.name, 0);
    let at = named_index(indexes, wanted.name, 0)->0;
    assert(more[at] == indexes[at]);
}

/// Making sure of the indexes of UNIQUE constraints takes none away, leaves no
/// constraint without one, and done again changes nothing.
pub proof fn law_unique_ensured(indexes: Seq<IndexView>, wanted: Seq<IndexView>)
    requires
        all_unique_ensured(indexes, wanted) is Ok,
    ensures
        ({
            let after = all_unique_ensured(indexes, wanted)->Ok_0;
            &&& indexes.is_prefix_of(after)
            &&& forall|k: int|
                0 <= k < wanted.len() ==> unique_served(after, #[trigger] wanted[k])
            &&& all_unique_ensured(after, wanted) == Ok::<Seq<IndexView>, error::ErrorView>(after)
        }),
{
    lemma_unique_all_served(indexes, wanted);
    lemma_unique_changes_nothing(all_unique_ensured(indexes, wanted)->Ok_0, wanted);
}

proof fn lemma_unique_all_served(indexes: Seq<IndexView>, wanted: Seq<IndexView>)
    requires
        all_unique_ensured(indexes, wanted) is Ok,
    ensures
        indexes.is_prefix_of(all_unique_ensured(indexes, wanted)->Ok_0),
        forall|k: int|
            0 <= k < wanted.len() ==> unique_served(
                all_unique_ensured(indexes, wanted)->Ok_0,
                #[trigger] wanted[k],
            ),
    decreases wanted.len(),
{
    if wanted.len() > 0 {
        let rest = wanted.drop_last();
        let last = wanted.last();
        lemma_unique_all_served(indexes, rest);
        let before = all_unique_ensured(indexes, rest)->Ok_0;
        let after = all_unique_ensured(indexes, wanted)->Ok_0;
        assert(before.is_prefix_of(after));
        assert(after.subrange(0, indexes.len() as int) =~= before.subrange(
            0,
            indexes.len() as int,
        ));
        assert forall|k: int| 0 <= k < wanted.len() implies unique_served(
            after,
            #[trigger] wanted[k],
        ) by {
            if k < rest.len() {
                assert(unique_served(before, rest[k]));
                lemma_unique_served_by_more(before, after, wanted[k]);
            } else if named_index(before, last.name, 0) is None {
                lemma_named_last(before, last, 0);
                assert(after[before.len() as int] == last);
                assert(fields_match(last.fields, last.fields));
            }
        }
    }
}

proof fn lemma_unique_changes_nothing(indexes: Seq<IndexView>, wanted: Seq<IndexView>)
    requires
        forall|k: int| 0 <= k < wanted.len() ==> unique_served(indexes, #[trigger] wanted[k]),
    ensures
        all_unique_ensured(indexes, wanted) == Ok::<Seq<IndexView>, error::ErrorView>(indexes),
    decreases wanted.len(),
{
    if wanted.len() > 0 {
        let rest = wanted.drop_last();
        assert forall|k: int| 0 <= k < rest.len() implies unique_served(
            indexes,
            #[trigger] rest[k],
        ) by {
            assert(unique_served(indexes, wanted[k]));
        }
        lemma_unique_changes_nothing(indexes, rest);
        assert(unique_served(indexes, wanted[wanted.len() - 1]));
    }
}

/// Whether every UNIQUE constraint of a table that needs an index has it.
pub open spec fn table_served(indexes: Seq<IndexView>, t: KeyedTable) -> bool {
    forall|k: int|
        0 <= k < unique_indexes(t.name@, t.unique@).len() ==> unique_served(
            indexes,
            #[trigger] unique_indexes(t.name@, t.unique@)[k],
        )
}

proof fn lemma_table_served_by_more(indexes: Seq<IndexView>, more: Seq<IndexView>, t: KeyedTable)
    requires
        indexes.is_prefix_of(more),
        table_served(indexes, t),
    ensures
        table_served(more, t),
{
    let wanted = unique_indexes(t.name@, t.unique@);
    assert forall|k: int| 0 <= k < wanted.len() implies unique_served(more, #[trigger] wanted[k]) by {
        lemma_unique_served_by_more(indexes, more, wanted[k]);
    }
}

proof fn lemma_tables_served(indexes: Seq<IndexView>, tables: Seq<KeyedTable>)
    requires
        unique_constraints_ensured(indexes, tables) is Ok,
    ensures
        indexes.is_prefix_of(unique_constraints_ensured(indexes, tables)->Ok_0),
        forall|k: int|
            0 <= k < tables.len() ==> table_served(
                unique_constraints_ensured(indexes, tables)->Ok_0,
                #[trigger] tables[k],
            ),
    decreases tables.len(),
{
    if tables.len() > 0 {
        let rest = tables.drop_last();
        let last = tables.last();
        lemma_tables_served(indexes, rest);
        let before = unique_constraints_ensured(indexes, rest)->Ok_0;
        let after = unique_constraints_ensured(indexes, tables)->Ok_0;
        law_unique_ensured(before, unique_indexes(last.name@, last.unique@));
        assert(after.subrange(0, indexes.len() as int) =~= before.subrange(
            0,
            indexes.len() as int,
        ));
        assert forall|k: int| 0 <= k < tables.len() implies table_served(
            after,
            #[trigger] tables[k],
        ) by {
            if k < rest.len() {
                assert(table_served(before, rest[k]));
                lemma_table_served_by_more(before, after, tables[k]);
            }
        }
    }
}

proof fn lemma_served_tables_change_nothing(indexes: Seq<IndexView>, tables: Seq<KeyedTable>)
    requires
        forall|k: int| 0 <= k < tables.len() ==> table_served(indexes, #[trigger] tables[k]),
    ensures
        unique_constraints_ensured(indexes, tables) == Ok::<Seq<IndexView>, error::ErrorView>(
            indexes,
        ),
    decreases tables.len(),
{
    if tables.len() > 0 {
        let rest = tables.drop_last();
        let last = tables[tables.len() - 1];
        assert forall|k: int| 0 <= k < rest.len() implies table_served(
            indexes,
            #[trigger] rest[k],
        ) by {
            assert(table_served(indexes, tables[k]));
        }
        lemma_served_tables_change_nothing(indexes, rest);
        assert(table_served(indexes, last));
        lemma_unique_changes_nothing(indexes, unique_indexes(last.name@, last.unique@));
    }
}

/// Making sure of the indexes of the UNIQUE constraints of tables takes no index
/// away, leaves no constraint of any table without one, and done again changes
/// nothing. The index of a constraint has its name and its columns, is a unique
/// ordered one on its table, and has neither a predicate nor an exclusion.
pub proof fn law_unique_constraints_ensured(indexes: Seq<IndexView>, tables: Seq<KeyedTable>)
    requires
        unique_constraints_ensured(indexes, tables) is Ok,
    ensures
        ({
            let after = unique_constraints_ensured(indexes, tables)->Ok_0;
            &&& indexes.is_prefix_of(after)
            &&& forall|k: int| 0 <= k < tables.len() ==> table_served(after, #[trigger] tables[k])
            &&& unique_constraints_ensured(after, tables) == Ok::<Seq<IndexView>, error::ErrorView>(
                after,
            )
        }),
{
    lemma_tables_served(indexes, tables);
    lemma_served_tables_change_nothing(unique_constraints_ensured(indexes, tables)->Ok_0, tables);
}

} // verus!
