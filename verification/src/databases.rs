//! Databases, schemas, extensions and views by their names.
use vstd::prelude::*;
use crate::error;
use crate::error::SqlError;
use crate::name_order;
use crate::name_order::Titled;
use crate::text;

verus! {

/// A database: its name and its owner.
#[derive(Debug)]
pub struct DatabaseSchema {
    pub name: String,
    pub owner: String,
}

impl Titled for DatabaseSchema {
    open spec fn title(&self) -> Seq<char> {
        self.name@
    }

    fn name_of(&self) -> (r: &str) {
        self.name.as_str()
    }
}

pub open spec fn database(name: Seq<char>, owner: Seq<char>, d: DatabaseSchema) -> bool {
    d.name@ == name && d.owner@ == owner
}

/// The database that is always there.
pub fn default_database_schema(owner: &str) -> (d: DatabaseSchema)
    ensures
        database("bicdb"@, owner@, d),
{
    DatabaseSchema { name: "bicdb".to_owned(), owner: owner.to_owned() }
}

/// The first database of a list with a name, whatever the case of its letters, from a
/// place on.
pub open spec fn position_of(list: Seq<DatabaseSchema>, name: Seq<char>, from: int) -> Option<int>
    decreases list.len() - from,
{
    if from < 0 || from >= list.len() {
        None
    } else if text::same_ignoring_case(list[from].name@, name) {
        Some(from)
    } else {
        position_of(list, name, from + 1)
    }
}

/// A list with a database in the place of the one of its name, or behind the others.
pub open spec fn with_database(list: Seq<DatabaseSchema>, d: DatabaseSchema) -> Seq<DatabaseSchema> {
    match position_of(list, d.name@, 0) {
        Some(i) => list.update(i, d),
        None => list.push(d),
    }
}

pub open spec fn with_databases(
    list: Seq<DatabaseSchema>,
    records: Seq<DatabaseSchema>,
) -> Seq<DatabaseSchema>
    decreases records.len(),
{
    if records.len() == 0 {
        list
    } else {
        with_database(with_databases(list, records.drop_last()), records.last())
    }
}

fn find_database(list: &Vec<DatabaseSchema>, name: &str) -> (r: Option<usize>)
    ensures
        match (r, position_of(list@, name@, 0)) {
            (Some(i), Some(view)) => i == view && i < list@.len(),
            (None, None) => true,
            _ => false,
        },
{
    let mut i: usize = 0;
    while i < list.len()
        invariant
            i <= list.len(),
            position_of(list@, name@, 0) == position_of(list@, name@, i as int),
        decreases list.len() - i,
    {
        if text::eq_ignore_case(list[i].name.as_str(), name) {
            return Some(i);
        }
        i = i + 1;
    }
    None
}

/// The databases in the order of their names: the one that is always there, and those
/// that are kept. One that is kept under a name takes the place of the one before.
pub fn list_databases(default: DatabaseSchema, records: Vec<DatabaseSchema>) -> (r: Vec<DatabaseSchema>)
    ensures
        r@ == name_order::by_name(with_databases(seq![default], records@)),
{
    let ghost all = records@;
    let ghost start = seq![default];
    let mut list: Vec<DatabaseSchema> = Vec::new();
    list.push(default);
    assert(list@ =~= start);
    let mut rest = records;
    let mut i: usize = 0;
    let count = rest.len();
    while i < count
        invariant
            i <= count,
            count == all.len(),
            rest@ == all.skip(i as int),
            list@ == with_databases(start, all.take(i as int)),
        decreases count - i,
    {
        assert(all.take(i + 1).drop_last() =~= all.take(i as int));
        assert(all.take(i + 1).last() == all[i as int]);
        assert(rest@[0] == all[i as int]);
        let d = rest.remove(0);
        assert(rest@ =~= all.skip(i + 1));
        match find_database(&list, d.name.as_str()) {
            Some(at) => {
                list.set(at, d);
            },
            None => {
                list.push(d);
            },
        }
        i = i + 1;
    }
    assert(all.take(all.len() as int) =~= all);
    name_order::sort_by_name(list)
}

/// Whether there is a database of a name, whatever the case of its letters.
pub open spec fn exists_database(list: Seq<DatabaseSchema>, name: Seq<char>) -> bool {
    position_of(list, name, 0) is Some
}

/// Whether there is a database of a name.
pub fn database_exists(list: &Vec<DatabaseSchema>, name: &str) -> (r: bool)
    ensures
        r == exists_database(list@, name@),
{
    find_database(list, name).is_some()
}

pub open spec fn missing_database(name: Seq<char>) -> error::ErrorView {
    error::invalid_sql_error("database \""@ + name + "\" does not exist"@)
}

/// Checks that there is a database of a name.
pub fn ensure_database_exists(list: &Vec<DatabaseSchema>, name: &str) -> (r: Result<(), SqlError>)
    ensures
        match r {
            Ok(()) => exists_database(list@, name@),
            Err(e) => !exists_database(list@, name@) && e@ == missing_database(name@),
        },
{
    if database_exists(list, name) {
        return Ok(());
    }
    Err(SqlError::invalid_sql(text::concat3("database \"", name, "\" does not exist")))
}

/// A database name in its normal form.
pub open spec fn normal_name(name: Seq<char>) -> Seq<char> {
    text::lower(text::strip(name, '"'))
}

/// A database name in its normal form.
pub fn normalize_database_name(name: &str) -> (r: String)
    ensures
        r@ == normal_name(name@),
{
    let bare = text::stripped(name, '"');
    text::to_lower(bare.as_str())
}

/// Normalising a name a second time changes nothing.
pub proof fn law_normal_name(name: Seq<char>)
    ensures
        normal_name(normal_name(name)) == normal_name(name),
{
    let bare = text::strip(name, '"');
    text::law_strip_lower(bare, '"');
    text::law_strip_twice(name, '"');
    text::law_lower_twice(bare);
}

/// The key under which a new database is kept, where there is none of its name yet.
pub fn save_database_if_missing(list: &Vec<DatabaseSchema>, name: &str) -> (r: Result<
    String,
    SqlError,
>)
    ensures
        match r {
            Ok(key) => !exists_database(list@, name@) && key@ == normal_name(name@),
            Err(e) => exists_database(list@, name@) && e@ == error::invalid_sql_error(
                "database \""@ + name@ + "\" already exists"@,
            ),
        },
{
    if database_exists(list, name) {
        return Err(
            SqlError::invalid_sql(text::concat3("database \"", name, "\" already exists")),
        );
    }
    Ok(normalize_database_name(name))
}

/// The database as it is kept when it gets another owner.
pub fn save_database_owner(list: &Vec<DatabaseSchema>, name: &str, normal_owner: String) -> (r: Result<
    DatabaseSchema,
    SqlError,
>)
    ensures
        match r {
            Ok(d) => exists_database(list@, name@) && database(
                normal_name(name@),
                normal_owner@,
                d,
            ),
            Err(e) => !exists_database(list@, name@) && e@ == missing_database(name@),
        },
{
    match ensure_database_exists(list, name) {
        Ok(()) => Ok(DatabaseSchema { name: normalize_database_name(name), owner: normal_owner }),
        Err(e) => Err(e),
    }
}

proof fn lemma_position(list: Seq<DatabaseSchema>, name: Seq<char>, from: int)
    requires
        0 <= from,
    ensures
        match position_of(list, name, from) {
            Some(i) => from <= i < list.len() && text::same_ignoring_case(list[i].name@, name),
            None => forall|k: int|
                from <= k < list.len() ==> !text::same_ignoring_case(
                    (#[trigger] list[k]).name@,
                    name,
                ),
        },
    decreases list.len() - from,
{
    if from < list.len() {
        lemma_position(list, name, from + 1);
    }
}

/// Whether no two databases have one name, whatever the case of its letters.
pub open spec fn distinct_names(list: Seq<DatabaseSchema>) -> bool {
    forall|i: int, j: int|
        0 <= i < j < list.len() ==> !text::same_ignoring_case(
            (#[trigger] list[i]).name@,
            (#[trigger] list[j]).name@,
        )
}

/// Keeping a database keeps the names apart, and the database is there then.
pub proof fn law_with_database(list: Seq<DatabaseSchema>, d: DatabaseSchema)
    requires
        distinct_names(list),
    ensures
        distinct_names(with_database(list, d)),
        with_database(list, d).contains(d),
        forall|name: Seq<char>| #[trigger]
            exists_database(list, name) ==> exists_database(with_database(list, d), name),
{
    lemma_position(list, d.name@, 0);
    let after = with_database(list, d);
    match position_of(list, d.name@, 0) {
        Some(at) => {
            assert(after[at] == d);
            assert forall|i: int, j: int| 0 <= i < j < after.len() implies !text::same_ignoring_case(
                (#[trigger] after[i]).name@,
                (#[trigger] after[j]).name@,
            ) by {
                assert(!text::same_ignoring_case(list[i].name@, list[j].name@));
            }
        },
        None => {
            assert(after[after.len() - 1] == d);
            assert forall|i: int, j: int| 0 <= i < j < after.len() implies !text::same_ignoring_case(
                (#[trigger] after[i]).name@,
                (#[trigger] after[j]).name@,
            ) by {
                if j < list.len() {
                    assert(!text::same_ignoring_case(list[i].name@, list[j].name@));
                } else {
                    assert(!text::same_ignoring_case(list[i].name@, d.name@));
                }
            }
        },
    }
    assert forall|name: Seq<char>| #[trigger] exists_database(list, name) implies exists_database(
        after,
        name,
    ) by {
        lemma_position(list, name, 0);
        lemma_position(after, name, 0);
        let i = position_of(list, name, 0)->0;
        assert(text::same_ignoring_case(after[i].name@, name));
    }
}

/// The list of databases has each name once, whatever the case of its letters, and
/// the one that is always there.
pub proof fn law_databases(default: DatabaseSchema, records: Seq<DatabaseSchema>)
    ensures
        distinct_names(with_databases(seq![default], records)),
        exists_database(with_databases(seq![default], records), default.name@),
    decreases records.len(),
{
    if records.len() > 0 {
        law_databases(default, records.drop_last());
        law_with_database(with_databases(seq![default], records.drop_last()), records.last());
    } else {
        lemma_position(seq![default], default.name@, 0);
        assert(text::same_ignoring_case(seq![default][0].name@, default.name@));
    }
}

/// What is done with a new object.
#[derive(Clone, Copy, Debug, PartialEq, Eq, Structural)]
pub enum Creation {
    Insert,
    Nothing,
}

/// What is done with a new object where one may be there already.
pub open spec fn creation(
    kind: Seq<char>,
    name: Seq<char>,
    there: bool,
    if_not_exists: bool,
) -> Result<Creation, error::ErrorView> {
    if !there {
        Ok(Creation::Insert)
    } else if if_not_exists {
        Ok(Creation::Nothing)
    } else {
        Err(error::invalid_sql_error(kind + " \""@ + name + "\" already exists"@))
    }
}

fn create(kind: &str, name: &str, there: bool, if_not_exists: bool) -> (r: Result<Creation, SqlError>)
    ensures
        match (r, creation(kind@, name@, there, if_not_exists)) {
            (Ok(a), Ok(b)) => a == b,
            (Err(e), Err(view)) => e@ == view,
            _ => false,
        },
{
    if !there {
        return Ok(Creation::Insert);
    }
    if if_not_exists {
        return Ok(Creation::Nothing);
    }
    let start = text::concat3(kind, " \"", name);
    Err(SqlError::invalid_sql(text::concat(start.as_str(), "\" already exists")))
}

/// What is done with a new schema.
pub fn save_namespace_if_missing(name: &str, there: bool, if_not_exists: bool) -> (r: Result<
    Creation,
    SqlError,
>)
    ensures
        match (r, creation("schema"@, name@, there, if_not_exists)) {
            (Ok(a), Ok(b)) => a == b,
            (Err(e), Err(view)) => e@ == view,
            _ => false,
        },
{
    create("schema", name, there, if_not_exists)
}

/// What is done with a new extension. One of them is always there.
pub open spec fn extension_creation(
    name: Seq<char>,
    there: bool,
    if_not_exists: bool,
) -> Result<Creation, error::ErrorView> {
    if text::same_ignoring_case(name, "plpgsql"@) {
        creation("extension"@, "plpgsql"@, true, if_not_exists)
    } else {
        creation("extension"@, name, there, if_not_exists)
    }
}

/// What is done with a new extension.
pub fn save_extension_if_missing(name: &str, there: bool, if_not_exists: bool) -> (r: Result<
    Creation,
    SqlError,
>)
    ensures
        match (r, extension_creation(name@, there, if_not_exists)) {
            (Ok(a), Ok(b)) => a == b,
            (Err(e), Err(view)) => e@ == view,
            _ => false,
        },
{
    if text::eq_ignore_case(name, "plpgsql") {
        create("extension", "plpgsql", true, if_not_exists)
    } else {
        create("extension", name, there, if_not_exists)
    }
}

/// With IF NOT EXISTS nothing fails, and nothing that is there is replaced.
pub proof fn law_creation(kind: Seq<char>, name: Seq<char>, there: bool)
    ensures
        creation(kind, name, there, true) == Ok::<Creation, error::ErrorView>(
            if there {
                Creation::Nothing
            } else {
                Creation::Insert
            },
        ),
        creation(kind, name, there, false) is Err <==> there,
        extension_creation(name, there, true) is Ok,
{
}

/// The owner of a schema: its own where it is kept, and the role that acts otherwise.
pub fn namespace_owner(kept: Option<&str>, current_role: &str) -> (r: String)
    ensures
        r@ == (match text::view_str(kept) {
            Some(owner) => owner,
            None => current_role@,
        }),
{
    match kept {
        Some(owner) => owner.to_owned(),
        None => current_role.to_owned(),
    }
}

/// A view: its name and its definition.
#[derive(Debug)]
pub struct ViewSchema {
    pub name: String,
    pub definition: String,
}

impl Titled for ViewSchema {
    open spec fn title(&self) -> Seq<char> {
        self.name@
    }

    fn name_of(&self) -> (r: &str) {
        self.name.as_str()
    }
}

/// The views in the order of their names.
pub fn list_views(records: Vec<ViewSchema>) -> (r: Vec<ViewSchema>)
    ensures
        r@ == name_order::by_name(records@),
{
    name_order::sort_by_name(records)
}

} // verus!
