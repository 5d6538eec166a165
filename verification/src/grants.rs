//! GRANT: which privileges it names, which objects it is on, and how the catalog
//! shows what was granted.
use vstd::prelude::*;
use crate::catalog;
use crate::catalog::{CatalogRow, CellView};
use crate::error;
use crate::error::{ErrorView, SqlError};
use crate::order;
use crate::privileges;
use crate::privileges::{
    DefaultPrivilegeGrant, GrantView, PrivilegeGrant, PrivilegeObjectType, TypePrivileges,
};
use crate::roles;
use crate::text;

verus! {

#[derive(Clone, Copy, Debug, PartialEq, Eq, Structural)]
pub enum ActionKind {
    Connect,
    Create,
    Delete,
    Insert,
    References,
    Select,
    Trigger,
    Truncate,
    Update,
    Usage,
    Temporary,
    Execute,
    Other,
}

/// A privilege as GRANT names it: its kind, whether it lists columns or an
/// object type, and how it is written.
#[derive(Debug)]
pub struct PrivilegeAction {
    pub kind: ActionKind,
    pub columns: bool,
    pub object: bool,
    pub written: String,
}

/// The name of a privilege.
pub open spec fn action_name(a: PrivilegeAction) -> Result<Seq<char>, ErrorView> {
    let other = Err(
        error::unsupported_error("privilege "@ + a.written@ + " is not supported"@),
    );
    let by_column = Err(
        error::unsupported_error("column-level privileges are not supported"@),
    );
    match a.kind {
        ActionKind::Connect => Ok("CONNECT"@),
        ActionKind::Create => if a.object {
            other
        } else {
            Ok("CREATE"@)
        },
        ActionKind::Delete => Ok("DELETE"@),
        ActionKind::Insert => if a.columns {
            by_column
        } else {
            Ok("INSERT"@)
        },
        ActionKind::References => if a.columns {
            by_column
        } else {
            Ok("REFERENCES"@)
        },
        ActionKind::Select => if a.columns {
            by_column
        } else {
            Ok("SELECT"@)
        },
        ActionKind::Trigger => Ok("TRIGGER"@),
        ActionKind::Truncate => Ok("TRUNCATE"@),
        ActionKind::Update => if a.columns {
            by_column
        } else {
            Ok("UPDATE"@)
        },
        ActionKind::Usage => Ok("USAGE"@),
        ActionKind::Temporary => Ok("TEMPORARY"@),
        ActionKind::Execute => if a.object {
            other
        } else {
            Ok("EXECUTE"@)
        },
        ActionKind::Other => other,
    }
}

fn by_column_error() -> (e: SqlError)
    ensures
        e@ == error::unsupported_error("column-level privileges are not supported"@),
{
    SqlError::unsupported("column-level privileges are not supported".to_owned())
}

fn other_action_error(a: &PrivilegeAction) -> (e: SqlError)
    ensures
        e@ == error::unsupported_error("privilege "@ + a.written@ + " is not supported"@),
{
    SqlError::unsupported(
        text::concat3("privilege ", a.written.as_str(), " is not supported"),
    )
}

/// The name of a privilege.
pub fn privilege_action_name(a: &PrivilegeAction) -> (r: Result<&'static str, SqlError>)
    ensures
        match (r, action_name(*a)) {
            (Ok(name), Ok(view)) => name@ == view,
            (Err(e), Err(view)) => e@ == view,
            _ => false,
        },
{
    match a.kind {
        ActionKind::Connect => Ok("CONNECT"),
        ActionKind::Create => if a.object {
            Err(other_action_error(a))
        } else {
            Ok("CREATE")
        },
        ActionKind::Delete => Ok("DELETE"),
        ActionKind::Insert => if a.columns {
            Err(by_column_error())
        } else {
            Ok("INSERT")
        },
        ActionKind::References => if a.columns {
            Err(by_column_error())
        } else {
            Ok("REFERENCES")
        },
        ActionKind::Select => if a.columns {
            Err(by_column_error())
        } else {
            Ok("SELECT")
        },
        ActionKind::Trigger => Ok("TRIGGER"),
        ActionKind::Truncate => Ok("TRUNCATE"),
        ActionKind::Update => if a.columns {
            Err(by_column_error())
        } else {
            Ok("UPDATE")
        },
        ActionKind::Usage => Ok("USAGE"),
        ActionKind::Temporary => Ok("TEMPORARY"),
        ActionKind::Execute => if a.object {
            Err(other_action_error(a))
        } else {
            Ok("EXECUTE")
        },
        ActionKind::Other => Err(other_action_error(a)),
    }
}

/// An object that a GRANT names: its name, or why it has none, and whether it
/// exists.
#[derive(Debug)]
pub struct NamedObject {
    pub name: Result<String, SqlError>,
    pub exists: bool,
}

/// The objects that a GRANT is on.
#[derive(Debug)]
pub enum GrantObjects {
    Databases(Vec<NamedObject>),
    Schemas(Vec<NamedObject>),
    Tables(Vec<NamedObject>),
    AllTablesInSchema(Vec<NamedObject>),
    Sequences(Vec<NamedObject>),
    AllSequencesInSchema(Vec<NamedObject>),
    Function(NamedObject),
    AllFunctionsInSchema(Vec<NamedObject>),
    /// Objects of another kind, as they are written.
    Other(String),
}

/// The privileges that a GRANT names.
#[derive(Debug)]
pub enum GrantPrivileges {
    All,
    Actions(Vec<PrivilegeAction>),
}

/// The names of the listed privileges.
pub open spec fn action_names(actions: Seq<PrivilegeAction>, from: int, found: Seq<Seq<char>>) -> Result<
    Seq<Seq<char>>,
    ErrorView,
>
    decreases actions.len() - from,
{
    if from < 0 || from >= actions.len() {
        Ok(found)
    } else {
        match action_name(actions[from]) {
            Ok(name) => action_names(actions, from + 1, found.push(name)),
            Err(e) => Err(e),
        }
    }
}

/// The names of the privileges that a GRANT names. `ALL` stands for those that
/// there are on the kind of object.
pub open spec fn names_of(p: GrantPrivileges, objects: GrantObjects) -> Result<
    Seq<Seq<char>>,
    ErrorView,
> {
    match p {
        GrantPrivileges::Actions(actions) => action_names(actions@, 0, Seq::empty()),
        GrantPrivileges::All => match objects {
            GrantObjects::Databases(_) => Ok(seq!["CONNECT"@, "CREATE"@, "TEMPORARY"@]),
            GrantObjects::Schemas(_) => Ok(seq!["CREATE"@, "USAGE"@]),
            GrantObjects::Tables(_) | GrantObjects::AllTablesInSchema(_) => Ok(
                seq![
                    "DELETE"@,
                    "INSERT"@,
                    "REFERENCES"@,
                    "SELECT"@,
                    "TRIGGER"@,
                    "TRUNCATE"@,
                    "UPDATE"@,
                ],
            ),
            GrantObjects::Sequences(_) | GrantObjects::AllSequencesInSchema(_) => Ok(
                seq!["SELECT"@, "UPDATE"@, "USAGE"@],
            ),
            GrantObjects::Function(_) | GrantObjects::AllFunctionsInSchema(_) => Ok(
                seq!["EXECUTE"@],
            ),
            GrantObjects::Other(written) => Err(
                error::unsupported_error("privileges on "@ + written@ + " are not supported"@),
            ),
        },
    }
}

fn other_objects_error(written: &str) -> (e: SqlError)
    ensures
        e@ == error::unsupported_error("privileges on "@ + written@ + " are not supported"@),
{
    SqlError::unsupported(text::concat3("privileges on ", written, " are not supported"))
}

/// A list of texts or an error, and the outcome that it has to be.
pub open spec fn names_result(
    r: Result<Vec<String>, SqlError>,
    v: Result<Seq<Seq<char>>, ErrorView>,
) -> bool {
    match (r, v) {
        (Ok(list), Ok(view)) => text::views(list@) == view,
        (Err(e), Err(view)) => e@ == view,
        _ => false,
    }
}

fn collect_action_names(actions: &Vec<PrivilegeAction>) -> (r: Result<Vec<String>, SqlError>)
    ensures
        names_result(r, action_names(actions@, 0, Seq::empty())),
{
    let mut found: Vec<String> = Vec::new();
    let mut i: usize = 0;
    assert(text::views(found@) =~= Seq::<Seq<char>>::empty());
    while i < actions.len()
        invariant
            i <= actions.len(),
            action_names(actions@, 0, Seq::empty()) == action_names(
                actions@,
                i as int,
                text::views(found@),
            ),
        decreases actions.len() - i,
    {
        match privilege_action_name(&actions[i]) {
            Ok(name) => {
                let ghost prior = found@;
                found.push(name.to_owned());
                assert(text::views(found@) =~= text::views(prior).push(name@));
            },
            Err(e) => {
                return Err(e);
            },
        }
        i = i + 1;
    }
    Ok(found)
}

/// The names of the privileges that a GRANT names.
pub fn privilege_names(p: &GrantPrivileges, objects: &GrantObjects) -> (r: Result<
    Vec<String>,
    SqlError,
>)
    ensures
        names_result(r, names_of(*p, *objects)),
{
    match p {
        GrantPrivileges::Actions(actions) => collect_action_names(actions),
        GrantPrivileges::All => match objects {
            GrantObjects::Databases(_) => {
                let names = text::names(&["CONNECT", "CREATE", "TEMPORARY"]);
                assert(text::views(names@) =~= seq!["CONNECT"@, "CREATE"@, "TEMPORARY"@]);
                Ok(names)
            },
            GrantObjects::Schemas(_) => {
                let names = text::names(&["CREATE", "USAGE"]);
                assert(text::views(names@) =~= seq!["CREATE"@, "USAGE"@]);
                Ok(names)
            },
            GrantObjects::Tables(_) | GrantObjects::AllTablesInSchema(_) => {
                let names = text::names(
                    &[
                        "DELETE",
                        "INSERT",
                        "REFERENCES",
                        "SELECT",
                        "TRIGGER",
                        "TRUNCATE",
                        "UPDATE",
                    ],
                );
                assert(text::views(names@) =~= seq![
                    "DELETE"@,
                    "INSERT"@,
                    "REFERENCES"@,
                    "SELECT"@,
                    "TRIGGER"@,
                    "TRUNCATE"@,
                    "UPDATE"@,
                ]);
                Ok(names)
            },
            GrantObjects::Sequences(_) | GrantObjects::AllSequencesInSchema(_) => {
                let names = text::names(&["SELECT", "UPDATE", "USAGE"]);
                assert(text::views(names@) =~= seq!["SELECT"@, "UPDATE"@, "USAGE"@]);
                Ok(names)
            },
            GrantObjects::Function(_) | GrantObjects::AllFunctionsInSchema(_) => {
                let names = text::names(&["EXECUTE"]);
                assert(text::views(names@) =~= seq!["EXECUTE"@]);
                Ok(names)
            },
            GrantObjects::Other(written) => Err(other_objects_error(written.as_str())),
        },
    }
}

/// A routine that a GRANT can be on: its name, the schema that it is stored
/// with, its definition, and whether it is a function.
#[derive(Debug)]
pub struct GrantRoutine {
    pub name: String,
    pub schema: String,
    pub definition: String,
    pub function: bool,
}

/// The schema that a routine is in. One that is stored without its schema is in
/// `carrier_private` where its definition speaks of it.
pub open spec fn routine_schema(schema: Seq<char>, definition: Seq<char>) -> Seq<char> {
    if schema.len() > 0 {
        schema
    } else if text::find_from(text::lower(definition), "carrier_private."@, 0) is Some {
        "carrier_private"@
    } else {
        "public"@
    }
}

/// The schema that a routine is in.
pub fn routine_schema_name(schema: &str, definition: &str) -> (r: String)
    ensures
        r@ == routine_schema(schema@, definition@),
{
    let chars = text::chars_of(schema);
    if chars.len() > 0 {
        return schema.to_owned();
    }
    let lower = text::to_lower(definition);
    let haystack = text::chars_of(lower.as_str());
    let needle = text::chars_of("carrier_private.");
    match text::find(haystack.as_slice(), needle.as_slice(), 0) {
        Some(_) => "carrier_private".to_owned(),
        None => "public".to_owned(),
    }
}

/// What a GRANT on everything in a schema chooses from.
#[derive(Debug)]
pub struct GrantCatalog {
    pub tables: Vec<String>,
    pub sequences: Vec<String>,
    pub routines: Vec<GrantRoutine>,
}

/// The refusal of an object that does not exist.
pub open spec fn missing_object(kind: PrivilegeObjectType, name: Seq<char>) -> ErrorView {
    match kind {
        PrivilegeObjectType::Database => error::invalid_sql_error(
            "database `"@ + name + "` does not exist"@,
        ),
        PrivilegeObjectType::Sequence => error::invalid_sql_error(
            "relation \""@ + name + "\" does not exist"@,
        ),
        PrivilegeObjectType::Function => error::invalid_sql_error(
            "function \""@ + name + "\" does not exist"@,
        ),
        _ => error::invalid_collection_error(name),
    }
}

fn missing_object_error(kind: PrivilegeObjectType, name: String) -> (e: SqlError)
    ensures
        e@ == missing_object(kind, name@),
{
    match kind {
        PrivilegeObjectType::Database => SqlError::invalid_sql(
            text::concat3("database `", name.as_str(), "` does not exist"),
        ),
        PrivilegeObjectType::Sequence => SqlError::invalid_sql(
            text::concat3("relation \"", name.as_str(), "\" does not exist"),
        ),
        PrivilegeObjectType::Function => SqlError::invalid_sql(
            text::concat3("function \"", name.as_str(), "\" does not exist"),
        ),
        _ => SqlError::invalid_collection(name),
    }
}

/// The object exists for a GRANT: built-in schemas always do.
pub open spec fn object_exists(kind: PrivilegeObjectType, o: NamedObject, name: Seq<char>) -> bool {
    o.exists || (kind == PrivilegeObjectType::Schema && privileges::is_built_in_schema(name))
}

/// The name of an object that a GRANT is on.
pub open spec fn target_of(kind: PrivilegeObjectType, o: NamedObject) -> Result<
    Seq<char>,
    ErrorView,
> {
    match o.name {
        Err(e) => Err(e@),
        Ok(name) => if object_exists(kind, o, name@) {
            Ok(name@)
        } else {
            Err(missing_object(kind, name@))
        },
    }
}

/// The objects from there on, added to those found.
pub open spec fn targets_of(
    kind: PrivilegeObjectType,
    objects: Seq<NamedObject>,
    from: int,
    found: Seq<Seq<char>>,
) -> Result<Seq<Seq<char>>, ErrorView>
    decreases objects.len() - from,
{
    if from < 0 || from >= objects.len() {
        Ok(found)
    } else {
        match target_of(kind, objects[from]) {
            Ok(name) => targets_of(kind, objects, from + 1, found.push(name)),
            Err(e) => Err(e),
        }
    }
}

fn object_target(kind: PrivilegeObjectType, o: &NamedObject) -> (r: Result<String, SqlError>)
    ensures
        match (r, target_of(kind, *o)) {
            (Ok(name), Ok(view)) => name@ == view,
            (Err(e), Err(view)) => e@ == view,
            _ => false,
        },
{
    match &o.name {
        Err(e) => Err(e.copied()),
        Ok(name) => if o.exists || (kind == PrivilegeObjectType::Schema
            && privileges::is_known_schema(name.as_str())) {
            Ok(name.clone())
        } else {
            Err(missing_object_error(kind, name.clone()))
        },
    }
}

fn object_targets(kind: PrivilegeObjectType, objects: &Vec<NamedObject>) -> (r: Result<
    Vec<String>,
    SqlError,
>)
    ensures
        names_result(r, targets_of(kind, objects@, 0, Seq::empty())),
{
    let mut found: Vec<String> = Vec::new();
    let mut i: usize = 0;
    assert(text::views(found@) =~= Seq::<Seq<char>>::empty());
    while i < objects.len()
        invariant
            i <= objects.len(),
            targets_of(kind, objects@, 0, Seq::empty()) == targets_of(
                kind,
                objects@,
                i as int,
                text::views(found@),
            ),
        decreases objects.len() - i,
    {
        match object_target(kind, &objects[i]) {
            Ok(name) => {
                let ghost prior = found@;
                let ghost shown = name@;
                found.push(name);
                assert(text::views(found@) =~= text::views(prior).push(shown));
            },
            Err(e) => {
                return Err(e);
            },
        }
        i = i + 1;
    }
    Ok(found)
}

/// Why the schemas from there on are not all `public`.
pub open spec fn not_public(schemas: Seq<NamedObject>, from: int) -> Option<ErrorView>
    decreases schemas.len() - from,
{
    if from < 0 || from >= schemas.len() {
        None
    } else {
        match schemas[from].name {
            Err(e) => Some(e@),
            Ok(name) => if text::same_ignoring_case(name@, "public"@) {
                not_public(schemas, from + 1)
            } else {
                Some(error::invalid_collection_error(name@))
            },
        }
    }
}

fn check_public(schemas: &Vec<NamedObject>) -> (r: Option<SqlError>)
    ensures
        match (r, not_public(schemas@, 0)) {
            (Some(e), Some(view)) => e@ == view,
            (None, None) => true,
            _ => false,
        },
{
    let mut i: usize = 0;
    while i < schemas.len()
        invariant
            i <= schemas.len(),
            not_public(schemas@, 0) == not_public(schemas@, i as int),
        decreases schemas.len() - i,
    {
        match &schemas[i].name {
            Err(e) => {
                return Some(e.copied());
            },
            Ok(name) => {
                if !text::eq_ignore_case(name.as_str(), "public") {
                    return Some(SqlError::invalid_collection(name.clone()));
                }
            },
        }
        i = i + 1;
    }
    None
}

/// One of the names is that one, whatever the case of its letters.
pub open spec fn is_one_of(names: Seq<Seq<char>>, name: Seq<char>) -> bool {
    exists|i: int| 0 <= i < names.len() && text::same_ignoring_case(#[trigger] names[i], name)
}

fn named_among(names: &Vec<String>, name: &str) -> (r: bool)
    ensures
        r == is_one_of(text::views(names@), name@),
{
    let ghost all = text::views(names@);
    let mut i: usize = 0;
    while i < names.len()
        invariant
            i <= names.len(),
            all == text::views(names@),
            forall|k: int| 0 <= k < i ==> !text::same_ignoring_case(#[trigger] all[k], name@),
        decreases names.len() - i,
    {
        assert(all[i as int] == names@[i as int]@);
        if text::eq_ignore_case(names[i].as_str(), name) {
            return true;
        }
        i = i + 1;
    }
    false
}

/// The names of the functions that are in one of the schemas.
pub open spec fn functions_in(routines: Seq<GrantRoutine>, schemas: Seq<Seq<char>>) -> Seq<Seq<char>>
    decreases routines.len(),
{
    if routines.len() == 0 {
        Seq::empty()
    } else {
        let before = functions_in(routines.drop_last(), schemas);
        let f = routines.last();
        if f.function && is_one_of(schemas, routine_schema(f.schema@, f.definition@)) {
            before.push(f.name@)
        } else {
            before
        }
    }
}

fn collect_functions(routines: &Vec<GrantRoutine>, schemas: &Vec<String>) -> (r: Vec<String>)
    ensures
        text::views(r@) == functions_in(routines@, text::views(schemas@)),
{
    let ghost names = text::views(schemas@);
    let mut found: Vec<String> = Vec::new();
    let mut i: usize = 0;
    assert(routines@.take(0) =~= Seq::<GrantRoutine>::empty());
    assert(text::views(found@) =~= functions_in(routines@.take(0), names));
    while i < routines.len()
        invariant
            i <= routines.len(),
            names == text::views(schemas@),
            text::views(found@) == functions_in(routines@.take(i as int), names),
        decreases routines.len() - i,
    {
        let f = &routines[i];
        assert(routines@.take(i as int + 1).drop_last() =~= routines@.take(i as int));
        assert(routines@.take(i as int + 1).last() == *f);
        if f.function {
            let schema = routine_schema_name(f.schema.as_str(), f.definition.as_str());
            if named_among(schemas, schema.as_str()) {
                let ghost prior = found@;
                found.push(f.name.clone());
                assert(text::views(found@) =~= text::views(prior).push(f.name@));
            }
        }
        i = i + 1;
    }
    assert(routines@.take(routines@.len() as int) =~= routines@);
    found
}

/// The kind and the names of the objects that a GRANT is on.
pub open spec fn grant_target_names(c: GrantCatalog, objects: GrantObjects) -> Result<
    (PrivilegeObjectType, Seq<Seq<char>>),
    ErrorView,
> {
    match objects {
        GrantObjects::Databases(list) => of_kind(
            PrivilegeObjectType::Database,
            targets_of(PrivilegeObjectType::Database, list@, 0, Seq::empty()),
        ),
        GrantObjects::Schemas(list) => of_kind(
            PrivilegeObjectType::Schema,
            targets_of(PrivilegeObjectType::Schema, list@, 0, Seq::empty()),
        ),
        GrantObjects::Tables(list) => of_kind(
            PrivilegeObjectType::Table,
            targets_of(PrivilegeObjectType::Table, list@, 0, Seq::empty()),
        ),
        GrantObjects::AllTablesInSchema(schemas) => match not_public(schemas@, 0) {
            Some(e) => Err(e),
            None => Ok((PrivilegeObjectType::Table, text::views(c.tables@))),
        },
        GrantObjects::Sequences(list) => of_kind(
            PrivilegeObjectType::Sequence,
            targets_of(PrivilegeObjectType::Sequence, list@, 0, Seq::empty()),
        ),
        GrantObjects::AllSequencesInSchema(schemas) => match not_public(schemas@, 0) {
            Some(e) => Err(e),
            None => Ok((PrivilegeObjectType::Sequence, text::views(c.sequences@))),
        },
        GrantObjects::Function(o) => match target_of(PrivilegeObjectType::Function, o) {
            Err(e) => Err(e),
            Ok(name) => Ok((PrivilegeObjectType::Function, seq![name])),
        },
        GrantObjects::AllFunctionsInSchema(list) => match targets_of(
            PrivilegeObjectType::Schema,
            list@,
            0,
            Seq::empty(),
        ) {
            Err(e) => Err(e),
            Ok(schemas) => Ok(
                (PrivilegeObjectType::Function, functions_in(c.routines@, schemas)),
            ),
        },
        GrantObjects::Other(written) => Err(
            error::unsupported_error("privileges on "@ + written@ + " are not supported"@),
        ),
    }
}

pub open spec fn of_kind(kind: PrivilegeObjectType, names: Result<Seq<Seq<char>>, ErrorView>) -> Result<
    (PrivilegeObjectType, Seq<Seq<char>>),
    ErrorView,
> {
    match names {
        Ok(list) => Ok((kind, list)),
        Err(e) => Err(e),
    }
}

fn with_kind(kind: PrivilegeObjectType, names: Result<Vec<String>, SqlError>) -> (r: Result<
    (PrivilegeObjectType, Vec<String>),
    SqlError,
>)
    ensures
        match (r, names) {
            (Ok((k, list)), Ok(given)) => k == kind && list == given,
            (Err(e), Err(given)) => e == given,
            _ => false,
        },
{
    match names {
        Ok(list) => Ok((kind, list)),
        Err(e) => Err(e),
    }
}

/// The kind and the names of the objects that a GRANT is on.
pub fn grant_targets(c: &GrantCatalog, objects: &GrantObjects) -> (r: Result<
    (PrivilegeObjectType, Vec<String>),
    SqlError,
>)
    ensures
        match (r, grant_target_names(*c, *objects)) {
            (Ok((kind, list)), Ok((k, names))) => kind == k && text::views(list@) == names,
            (Err(e), Err(view)) => e@ == view,
            _ => false,
        },
{
    match objects {
        GrantObjects::Databases(list) => with_kind(
            PrivilegeObjectType::Database,
            object_targets(PrivilegeObjectType::Database, list),
        ),
        GrantObjects::Schemas(list) => with_kind(
            PrivilegeObjectType::Schema,
            object_targets(PrivilegeObjectType::Schema, list),
        ),
        GrantObjects::Tables(list) => with_kind(
            PrivilegeObjectType::Table,
            object_targets(PrivilegeObjectType::Table, list),
        ),
        GrantObjects::AllTablesInSchema(schemas) => match check_public(schemas) {
            Some(e) => Err(e),
            None => Ok((PrivilegeObjectType::Table, text::copy_names(&c.tables))),
        },
        GrantObjects::Sequences(list) => with_kind(
            PrivilegeObjectType::Sequence,
            object_targets(PrivilegeObjectType::Sequence, list),
        ),
        GrantObjects::AllSequencesInSchema(schemas) => match check_public(schemas) {
            Some(e) => Err(e),
            None => Ok((PrivilegeObjectType::Sequence, text::copy_names(&c.sequences))),
        },
        GrantObjects::Function(o) => match object_target(PrivilegeObjectType::Function, o) {
            Err(e) => Err(e),
            Ok(name) => {
                let ghost shown = name@;
                let mut list: Vec<String> = Vec::new();
                list.push(name);
                assert(text::views(list@) =~= seq![shown]);
                Ok((PrivilegeObjectType::Function, list))
            },
        },
        GrantObjects::AllFunctionsInSchema(list) => match object_targets(
            PrivilegeObjectType::Schema,
            list,
        ) {
            Err(e) => Err(e),
            Ok(schemas) => Ok(
                (PrivilegeObjectType::Function, collect_functions(&c.routines, &schemas)),
            ),
        },
        GrantObjects::Other(written) => Err(other_objects_error(written.as_str())),
    }
}

/// What kind of grantee a GRANT names.
#[derive(Debug)]
pub enum GranteeKind {
    Role,
    Public,
    /// A kind that is not supported, by its name.
    Other(String),
}

/// The name of the role that a GRANT is to.
pub open spec fn grantee_name(kind: GranteeKind, name: Option<Result<String, SqlError>>) -> Result<
    Seq<char>,
    ErrorView,
> {
    match kind {
        GranteeKind::Public => Ok("public"@),
        GranteeKind::Other(k) => Err(
            error::unsupported_error("grantee type "@ + k@ + " is not supported"@),
        ),
        GranteeKind::Role => match name {
            None => Err(error::invalid_sql_error("missing grantee name"@)),
            Some(Err(e)) => Err(e@),
            Some(Ok(name)) => Ok(roles::normal_role(name@)),
        },
    }
}

/// The name of the role that a GRANT is to.
pub fn grantee_role_name(kind: &GranteeKind, name: &Option<Result<String, SqlError>>) -> (r: Result<
    String,
    SqlError,
>)
    ensures
        match (r, grantee_name(*kind, *name)) {
            (Ok(s), Ok(view)) => s@ == view,
            (Err(e), Err(view)) => e@ == view,
            _ => false,
        },
{
    match kind {
        GranteeKind::Public => Ok("public".to_owned()),
        GranteeKind::Other(k) => Err(
            SqlError::unsupported(
                text::concat3("grantee type ", k.as_str(), " is not supported"),
            ),
        ),
        GranteeKind::Role => match name {
            None => Err(SqlError::invalid_sql("missing grantee name".to_owned())),
            Some(Err(e)) => Err(e.copied()),
            Some(Ok(name)) => Ok(roles::normalize_role_name(name.as_str())),
        },
    }
}

/// The letter of a privilege in an access list. One that has none stands for
/// itself.
pub open spec fn acl_code(privilege: Seq<char>) -> Seq<char> {
    let upper = text::upper(privilege);
    if upper == "INSERT"@ {
        "a"@
    } else if upper == "SELECT"@ {
        "r"@
    } else if upper == "UPDATE"@ {
        "w"@
    } else if upper == "DELETE"@ {
        "d"@
    } else if upper == "TRUNCATE"@ {
        "D"@
    } else if upper == "REFERENCES"@ {
        "x"@
    } else if upper == "TRIGGER"@ {
        "t"@
    } else if upper == "EXECUTE"@ {
        "X"@
    } else if upper == "USAGE"@ {
        "U"@
    } else if upper == "CREATE"@ {
        "C"@
    } else if upper == "TEMPORARY"@ {
        "T"@
    } else if upper == "CONNECT"@ {
        "c"@
    } else {
        privilege
    }
}

/// The letter of a privilege in an access list.
pub fn privilege_acl_code(privilege: &str) -> (r: &str)
    ensures
        r@ == acl_code(privilege@),
{
    let upper = text::to_upper(privilege);
    let name = upper.as_str();
    if text::text_eq(name, "INSERT") {
        "a"
    } else if text::text_eq(name, "SELECT") {
        "r"
    } else if text::text_eq(name, "UPDATE") {
        "w"
    } else if text::text_eq(name, "DELETE") {
        "d"
    } else if text::text_eq(name, "TRUNCATE") {
        "D"
    } else if text::text_eq(name, "REFERENCES") {
        "x"
    } else if text::text_eq(name, "TRIGGER") {
        "t"
    } else if text::text_eq(name, "EXECUTE") {
        "X"
    } else if text::text_eq(name, "USAGE") {
        "U"
    } else if text::text_eq(name, "CREATE") {
        "C"
    } else if text::text_eq(name, "TEMPORARY") {
        "T"
    } else if text::text_eq(name, "CONNECT") {
        "c"
    } else {
        privilege
    }
}

/// Where a code comes in an access list.
pub open spec fn code_position(code: Seq<char>) -> int {
    match text::find_from("arwdDxtXUCTc"@, code, 0) {
        Some(at) => at,
        None => "arwdDxtXUCTc"@.len() as int,
    }
}

fn position_of(code: &str) -> (r: usize)
    ensures
        r == code_position(code@),
{
    let order = text::chars_of("arwdDxtXUCTc");
    let chars = text::chars_of(code);
    match text::find(order.as_slice(), chars.as_slice(), 0) {
        Some(at) => at,
        None => order.len(),
    }
}

/// Codes in order with one more put in, behind those that do not come after it.
pub open spec fn code_put_in(list: Seq<Seq<char>>, code: Seq<char>) -> Seq<Seq<char>>
    decreases list.len(),
{
    if list.len() == 0 || code_position(code) >= code_position(list.last()) {
        list.push(code)
    } else {
        code_put_in(list.drop_last(), code).push(list.last())
    }
}

/// The codes in the order of an access list.
pub open spec fn codes_sorted(list: Seq<Seq<char>>) -> Seq<Seq<char>>
    decreases list.len(),
{
    if list.len() == 0 {
        Seq::empty()
    } else {
        code_put_in(codes_sorted(list.drop_last()), list.last())
    }
}

proof fn lemma_code_put_in(list: Seq<Seq<char>>, code: Seq<char>, at: int)
    requires
        0 <= at <= list.len(),
        at == 0 || code_position(code) >= code_position(list[at - 1]),
        forall|k: int| at <= k < list.len() ==> code_position(code) < code_position(
            #[trigger] list[k],
        ),
    ensures
        code_put_in(list, code) == list.insert(at, code),
    decreases list.len(),
{
    if at == list.len() {
        assert(list.insert(at, code) =~= list.push(code));
        if list.len() > 0 {
            assert(list.last() == list[at - 1]);
        }
    } else {
        let rest = list.drop_last();
        assert(list.last() == list[list.len() - 1]);
        assert forall|k: int| at <= k < rest.len() implies code_position(code) < code_position(
            #[trigger] rest[k],
        ) by {
            assert(rest[k] == list[k]);
        }
        lemma_code_put_in(rest, code, at);
        assert(rest.insert(at, code).push(list.last()) =~= list.insert(at, code));
    }
}

fn sort_codes(codes: &Vec<String>) -> (r: Vec<String>)
    ensures
        text::views(r@) == codes_sorted(text::views(codes@)),
{
    let ghost all = text::views(codes@);
    let mut out: Vec<String> = Vec::new();
    let mut i: usize = 0;
    assert(all.take(0) =~= Seq::<Seq<char>>::empty());
    assert(text::views(out@) =~= codes_sorted(all.take(0)));
    while i < codes.len()
        invariant
            i <= codes.len(),
            all == text::views(codes@),
            text::views(out@) == codes_sorted(all.take(i as int)),
        decreases codes.len() - i,
    {
        let ghost sorted = text::views(out@);
        let ghost code = codes@[i as int]@;
        let position = position_of(codes[i].as_str());
        let mut at: usize = out.len();
        while at > 0 && position < position_of(out[at - 1].as_str())
            invariant
                at <= out.len(),
                sorted == text::views(out@),
                position == code_position(code),
                forall|k: int|
                    at <= k < sorted.len() ==> code_position(code) < code_position(
                        #[trigger] sorted[k],
                    ),
            decreases at,
        {
            assert(sorted[at - 1] == out@[at - 1]@);
            at = at - 1;
        }
        proof {
            if at > 0 {
                assert(sorted[at - 1] == out@[at - 1]@);
            }
            lemma_code_put_in(sorted, code, at as int);
            assert(all.take(i as int + 1).drop_last() =~= all.take(i as int));
            assert(all.take(i as int + 1).last() == code);
        }
        out.insert(at, codes[i].clone());
        assert(text::views(out@) =~= sorted.insert(at as int, code));
        i = i + 1;
    }
    assert(all.take(all.len() as int) =~= all);
    out
}

/// The grantees of the grants.
pub open spec fn grantees(grants: Seq<GrantView>) -> Seq<Seq<char>> {
    grants.map_values(|g: GrantView| g.grantee)
}

/// The codes that a grantee has.
pub open spec fn codes_of(grants: Seq<GrantView>, grantee: Seq<char>) -> Seq<Seq<char>>
    decreases grants.len(),
{
    if grants.len() == 0 {
        Seq::empty()
    } else if grants.last().grantee == grantee {
        codes_of(grants.drop_last(), grantee).push(acl_code(grants.last().privilege))
    } else {
        codes_of(grants.drop_last(), grantee)
    }
}

/// A name as it is quoted, by the names from there on that need quotes.
pub open spec fn quoted(quotes: Seq<(String, String)>, name: Seq<char>, from: int) -> Seq<char>
    decreases quotes.len() - from,
{
    if from < 0 || from >= quotes.len() {
        name
    } else if quotes[from].0@ == name {
        quotes[from].1@
    } else {
        quoted(quotes, name, from + 1)
    }
}

/// How a grantee is shown. Everybody is shown as nothing.
pub open spec fn shown_grantee(quotes: Seq<(String, String)>, grantee: Seq<char>) -> Seq<char> {
    if text::same_ignoring_case(grantee, "public"@) {
        Seq::empty()
    } else {
        quoted(quotes, grantee, 0)
    }
}

/// The entry of a grantee in an access list.
pub open spec fn acl_entry(
    grants: Seq<GrantView>,
    quotes: Seq<(String, String)>,
    grantee: Seq<char>,
    grantor: Seq<char>,
) -> Seq<char> {
    shown_grantee(quotes, grantee) + "="@ + text::joined(
        codes_sorted(order::put_all(Seq::empty(), codes_of(grants, grantee))),
        ""@,
    ) + "/"@ + quoted(quotes, grantor, 0)
}

/// The access list of an object: an entry for each grantee in the order of their
/// names. No grants make no list.
pub open spec fn acl_text(
    grants: Seq<GrantView>,
    quotes: Seq<(String, String)>,
    grantor: Seq<char>,
) -> Option<Seq<char>> {
    if grants.len() == 0 {
        None
    } else {
        let names = order::put_all(Seq::empty(), grantees(grants));
        Some(
            "{"@ + text::joined(
                names.map_values(
                    |grantee: Seq<char>| acl_entry(grants, quotes, grantee, grantor),
                ),
                ","@,
            ) + "}"@,
        )
    }
}

/// What borrowed grants say.
pub open spec fn grant_refs(v: Seq<&PrivilegeGrant>) -> Seq<GrantView> {
    v.map_values(|g: &PrivilegeGrant| g@)
}

fn quote(quotes: &Vec<(String, String)>, name: &str) -> (r: String)
    ensures
        r@ == quoted(quotes@, name@, 0),
{
    let mut i: usize = 0;
    while i < quotes.len()
        invariant
            i <= quotes.len(),
            quoted(quotes@, name@, 0) == quoted(quotes@, name@, i as int),
        decreases quotes.len() - i,
    {
        if text::text_eq(quotes[i].0.as_str(), name) {
            return quotes[i].1.clone();
        }
        i = i + 1;
    }
    name.to_owned()
}

fn collect_codes(grants: &Vec<&PrivilegeGrant>, grantee: &str) -> (r: Vec<String>)
    ensures
        text::views(r@) == codes_of(grant_refs(grants@), grantee@),
{
    let ghost all = grant_refs(grants@);
    let mut out: Vec<String> = Vec::new();
    let mut i: usize = 0;
    assert(all.take(0) =~= Seq::<GrantView>::empty());
    assert(text::views(out@) =~= codes_of(all.take(0), grantee@));
    while i < grants.len()
        invariant
            i <= grants.len(),
            all == grant_refs(grants@),
            text::views(out@) == codes_of(all.take(i as int), grantee@),
        decreases grants.len() - i,
    {
        let g = grants[i];
        assert(all.take(i as int + 1).drop_last() =~= all.take(i as int));
        assert(all.take(i as int + 1).last() == g@);
        if text::text_eq(g.grantee.as_str(), grantee) {
            let code = privilege_acl_code(g.privilege.as_str());
            let ghost prior = out@;
            out.push(code.to_owned());
            assert(text::views(out@) =~= text::views(prior).push(code@));
        }
        i = i + 1;
    }
    assert(all.take(all.len() as int) =~= all);
    out
}

fn entry_of(
    grants: &Vec<&PrivilegeGrant>,
    quotes: &Vec<(String, String)>,
    grantee: &str,
    grantor: &str,
) -> (r: String)
    ensures
        r@ == acl_entry(grant_refs(grants@), quotes@, grantee@, grantor@),
{
    let shown = if text::eq_ignore_case(grantee, "public") {
        String::new()
    } else {
        quote(quotes, grantee)
    };
    let codes = collect_codes(grants, grantee);
    let mut distinct: Vec<String> = Vec::new();
    assert(text::views(distinct@) =~= Seq::<Seq<char>>::empty());
    order::put_each(&mut distinct, &codes);
    let sorted = sort_codes(&distinct);
    let letters = text::join(&sorted, "");
    let left = text::concat3(shown.as_str(), "=", letters.as_str());
    let by = quote(quotes, grantor);
    text::concat3(left.as_str(), "/", by.as_str())
}

fn collect_grantees(grants: &Vec<&PrivilegeGrant>) -> (r: Vec<String>)
    ensures
        text::views(r@) == grantees(grant_refs(grants@)),
{
    let ghost all = grantees(grant_refs(grants@));
    let mut out: Vec<String> = Vec::new();
    let mut i: usize = 0;
    while i < grants.len()
        invariant
            i <= grants.len(),
            all == grantees(grant_refs(grants@)),
            text::views(out@) == all.take(i as int),
        decreases grants.len() - i,
    {
        let ghost prior = out@;
        out.push(grants[i].grantee.clone());
        assert(text::views(out@) =~= text::views(prior).push(all[i as int]));
        assert(all.take(i as int + 1) =~= all.take(i as int).push(all[i as int]));
        i = i + 1;
    }
    assert(all.take(all.len() as int) =~= all);
    out
}

/// The access list that grants make. `quotes` are the names that need quotes
/// with their quoted forms.
pub fn acl_value_with_grantor(
    grants: &Vec<&PrivilegeGrant>,
    quotes: &Vec<(String, String)>,
    grantor: &str,
) -> (r: Option<String>)
    ensures
        error::view_option(r) == acl_text(grant_refs(grants@), quotes@, grantor@),
{
    if grants.len() == 0 {
        return None;
    }
    let ghost given = grant_refs(grants@);
    let all = collect_grantees(grants);
    let mut names: Vec<String> = Vec::new();
    assert(text::views(names@) =~= Seq::<Seq<char>>::empty());
    order::put_each(&mut names, &all);
    let ghost shown = text::views(names@);
    let ghost wanted = shown.map_values(
        |grantee: Seq<char>| acl_entry(given, quotes@, grantee, grantor@),
    );
    let mut entries: Vec<String> = Vec::new();
    let mut i: usize = 0;
    assert(text::views(entries@) =~= wanted.take(0));
    while i < names.len()
        invariant
            i <= names.len(),
            given == grant_refs(grants@),
            shown == text::views(names@),
            wanted == shown.map_values(
                |grantee: Seq<char>| acl_entry(given, quotes@, grantee, grantor@),
            ),
            text::views(entries@) == wanted.take(i as int),
        decreases names.len() - i,
    {
        let entry = entry_of(grants, quotes, names[i].as_str(), grantor);
        let ghost prior = entries@;
        let ghost text_of_entry = entry@;
        entries.push(entry);
        assert(shown[i as int] == names@[i as int]@);
        assert(wanted[i as int] == text_of_entry);
        assert(text::views(entries@) =~= text::views(prior).push(text_of_entry));
        assert(wanted.take(i as int + 1) =~= wanted.take(i as int).push(wanted[i as int]));
        i = i + 1;
    }
    assert(wanted.take(wanted.len() as int) =~= wanted);
    let inner = text::join(&entries, ",");
    Some(text::concat3("{", inner.as_str(), "}"))
}

/// The grants on an object as a whole.
pub open spec fn grants_on(
    grants: Seq<GrantView>,
    kind: PrivilegeObjectType,
    name: Seq<char>,
) -> Seq<GrantView>
    decreases grants.len(),
{
    if grants.len() == 0 {
        Seq::empty()
    } else {
        let before = grants_on(grants.drop_last(), kind, name);
        if is_grant_on(grants.last(), kind, name) {
            before.push(grants.last())
        } else {
            before
        }
    }
}

/// The grant is on that object. Of the grants on a table those on its columns do
/// not count.
pub open spec fn is_grant_on(g: GrantView, kind: PrivilegeObjectType, name: Seq<char>) -> bool {
    g.object_type == kind && g.object_name == name && (kind != PrivilegeObjectType::Table
        || g.column is None)
}

fn filter_grants<'a>(grants: &'a Vec<PrivilegeGrant>, kind: PrivilegeObjectType, name: &str) -> (r:
    Vec<&'a PrivilegeGrant>)
    ensures
        grant_refs(r@) == grants_on(privileges::grant_views(grants@), kind, name@),
{
    let ghost all = privileges::grant_views(grants@);
    let mut out: Vec<&'a PrivilegeGrant> = Vec::new();
    let mut i: usize = 0;
    assert(all.take(0) =~= Seq::<GrantView>::empty());
    assert(grant_refs(out@) =~= grants_on(all.take(0), kind, name@));
    while i < grants.len()
        invariant
            i <= grants.len(),
            all == privileges::grant_views(grants@),
            grant_refs(out@) == grants_on(all.take(i as int), kind, name@),
        decreases grants.len() - i,
    {
        let g = &grants[i];
        assert(all.take(i as int + 1).drop_last() =~= all.take(i as int));
        assert(all.take(i as int + 1).last() == g@);
        if g.object_type == kind && text::text_eq(g.object_name.as_str(), name) && (kind
            != PrivilegeObjectType::Table || g.column.is_none()) {
            let ghost prior = out@;
            out.push(g);
            assert(grant_refs(out@) =~= grant_refs(prior).push(g@));
        }
        i = i + 1;
    }
    assert(all.take(all.len() as int) =~= all);
    out
}

/// The access list of a schema.
pub fn schema_acl_value_from_privileges(
    grants: &Vec<PrivilegeGrant>,
    quotes: &Vec<(String, String)>,
    schema: &str,
) -> (r: Option<String>)
    ensures
        error::view_option(r) == acl_text(
            grants_on(
                privileges::grant_views(grants@),
                PrivilegeObjectType::Schema,
                schema@,
            ),
            quotes@,
            roles::bootstrap_role(),
        ),
{
    let chosen = filter_grants(grants, PrivilegeObjectType::Schema, schema);
    acl_value_with_grantor(&chosen, quotes, "bicdb")
}

/// The access list of a table.
pub fn table_acl_value_from_privileges(
    grants: &Vec<PrivilegeGrant>,
    quotes: &Vec<(String, String)>,
    table: &str,
) -> (r: Option<String>)
    ensures
        error::view_option(r) == acl_text(
            grants_on(privileges::grant_views(grants@), PrivilegeObjectType::Table, table@),
            quotes@,
            roles::bootstrap_role(),
        ),
{
    let chosen = filter_grants(grants, PrivilegeObjectType::Table, table);
    acl_value_with_grantor(&chosen, quotes, "bicdb")
}

/// The access list of a type, which has one only where it was ever changed.
pub fn type_acl_value_from_privileges(
    grants: &Vec<PrivilegeGrant>,
    quotes: &Vec<(String, String)>,
    t: &TypePrivileges,
) -> (r: Option<String>)
    ensures
        error::view_option(r) == (if !t.acl_explicit {
            None
        } else {
            acl_text(
                grants_on(
                    privileges::grant_views(grants@),
                    PrivilegeObjectType::Type,
                    privileges::type_object_name(t.schema_name@, t.name@),
                ),
                quotes@,
                t.owner@,
            )
        }),
{
    if !t.acl_explicit {
        return None;
    }
    let name = privileges::user_type_privilege_name(t.schema_name.as_str(), t.name.as_str());
    let chosen = filter_grants(grants, PrivilegeObjectType::Type, name.as_str());
    acl_value_with_grantor(&chosen, quotes, t.owner.as_str())
}

/// The code of a kind of object in `pg_default_acl`, which has none for some.
pub open spec fn default_code(kind: PrivilegeObjectType) -> Option<Seq<char>> {
    match kind {
        PrivilegeObjectType::Table => Some("r"@),
        PrivilegeObjectType::Sequence => Some("S"@),
        PrivilegeObjectType::Function => Some("f"@),
        _ => None,
    }
}

fn default_code_of(kind: PrivilegeObjectType) -> (r: Option<&'static str>)
    ensures
        text::view_str(r) == default_code(kind),
{
    match kind {
        PrivilegeObjectType::Table => Some("r"),
        PrivilegeObjectType::Sequence => Some("S"),
        PrivilegeObjectType::Function => Some("f"),
        _ => None,
    }
}

/// What a default access list belongs to: the role that grants, the schema, and
/// the code of the kind of object.
#[verifier::ext_equal]
pub struct DefaultKey {
    pub grantor: Seq<char>,
    pub schema_name: Seq<char>,
    pub code: Seq<char>,
}

/// The first key comes before the second one.
pub open spec fn key_precedes(a: DefaultKey, b: DefaultKey) -> bool {
    ||| order::precedes(a.grantor, b.grantor)
    ||| a.grantor == b.grantor && order::precedes(a.schema_name, b.schema_name)
    ||| a.grantor == b.grantor && a.schema_name == b.schema_name && order::precedes(a.code, b.code)
}

/// A default access list as it is collected.
#[derive(Debug)]
pub struct DefaultAcl {
    pub grantor: String,
    pub schema_name: String,
    pub code: String,
    pub grants: Vec<PrivilegeGrant>,
}

impl DefaultAcl {
    pub open spec fn key(self) -> DefaultKey {
        DefaultKey {
            grantor: self.grantor@,
            schema_name: self.schema_name@,
            code: self.code@,
        }
    }
}

/// Default access lists as they are collected: their keys, and the grants of
/// each.
pub open spec fn list_views(v: Seq<DefaultAcl>) -> Seq<(DefaultKey, Seq<GrantView>)> {
    v.map_values(|d: DefaultAcl| (d.key(), privileges::grant_views(d.grants@)))
}

/// The lists in the order of their keys with a grant added to that under its
/// key, which is begun where there is none.
pub open spec fn with_default_grant(
    lists: Seq<(DefaultKey, Seq<GrantView>)>,
    key: DefaultKey,
    g: GrantView,
) -> Seq<(DefaultKey, Seq<GrantView>)>
    decreases lists.len(),
{
    if lists.len() == 0 || key_precedes(lists.last().0, key) {
        lists.push((key, seq![g]))
    } else if lists.last().0 == key {
        lists.drop_last().push((key, lists.last().1.push(g)))
    } else {
        with_default_grant(lists.drop_last(), key, g).push(lists.last())
    }
}

/// The grant that a default grant amounts to, on an object without a name.
pub open spec fn default_as_grant(d: DefaultPrivilegeGrant) -> GrantView {
    GrantView {
        column: None,
        object_type: d.object_type,
        object_name: Seq::empty(),
        grantee: d.grantee@,
        privilege: d.privilege@,
    }
}

/// The default access lists of a database.
pub open spec fn default_lists(defaults: Seq<DefaultPrivilegeGrant>) -> Seq<
    (DefaultKey, Seq<GrantView>),
>
    decreases defaults.len(),
{
    if defaults.len() == 0 {
        Seq::empty()
    } else {
        let before = default_lists(defaults.drop_last());
        let d = defaults.last();
        match default_code(d.object_type) {
            Some(code) => with_default_grant(
                before,
                DefaultKey { grantor: d.grantor@, schema_name: d.schema_name@, code },
                default_as_grant(d),
            ),
            None => before,
        }
    }
}

fn key_before(a: &DefaultAcl, b: &DefaultAcl) -> (r: bool)
    ensures
        r == key_precedes(a.key(), b.key()),
{
    if order::before(a.grantor.as_str(), b.grantor.as_str()) {
        return true;
    }
    if !text::text_eq(a.grantor.as_str(), b.grantor.as_str()) {
        return false;
    }
    if order::before(a.schema_name.as_str(), b.schema_name.as_str()) {
        return true;
    }
    if !text::text_eq(a.schema_name.as_str(), b.schema_name.as_str()) {
        return false;
    }
    order::before(a.code.as_str(), b.code.as_str())
}

fn same_key(a: &DefaultAcl, b: &DefaultAcl) -> (r: bool)
    ensures
        r == (a.key() == b.key()),
{
    let r = text::text_eq(a.grantor.as_str(), b.grantor.as_str()) && text::text_eq(
        a.schema_name.as_str(),
        b.schema_name.as_str(),
    ) && text::text_eq(a.code.as_str(), b.code.as_str());
    assert(r ==> a.key() =~= b.key());
    r
}

fn add_default_grant(lists: &mut Vec<DefaultAcl>, item: DefaultAcl, g: PrivilegeGrant)
    requires
        item.grants@.len() == 0,
    ensures
        list_views(final(lists)@) == with_default_grant(list_views(old(lists)@), item.key(), g@),
{
    let ghost all = list_views(lists@);
    let ghost key = item.key();
    let ghost shown = g@;
    let mut n: usize = lists.len();
    assert(all.take(n as int) =~= all);
    assert(with_default_grant(all, key, shown) =~= with_default_grant(
        all.take(n as int),
        key,
        shown,
    ) + all.skip(n as int));
    while n > 0 && !key_before(&lists[n - 1], &item)
        invariant
            n <= lists.len(),
            all == list_views(lists@),
            all == list_views(old(lists)@),
            key == item.key(),
            shown == g@,
            item.grants@.len() == 0,
            with_default_grant(all, key, shown) == with_default_grant(
                all.take(n as int),
                key,
                shown,
            ) + all.skip(n as int),
        decreases n,
    {
        let ghost head = all.take(n as int);
        assert(head.last() == all[n - 1]);
        assert(all[n - 1].0 == lists@[n - 1].key());
        assert(head.drop_last() =~= all.take(n - 1));
        if same_key(&lists[n - 1], &item) {
            let mut found = lists.remove(n - 1);
            let ghost prior = found.grants@;
            found.grants.push(g);
            assert(privileges::grant_views(found.grants@) =~= privileges::grant_views(prior).push(
                shown,
            ));
            lists.insert(n - 1, found);
            assert(list_views(lists@) =~= all.take(n - 1).push(
                (key, all[n - 1].1.push(shown)),
            ) + all.skip(n as int));
            return ;
        }
        assert(with_default_grant(head, key, shown) + all.skip(n as int) =~= with_default_grant(
            all.take(n - 1),
            key,
            shown,
        ) + all.skip(n - 1));
        n = n - 1;
    }
    proof {
        if n > 0 {
            assert(all.take(n as int).last() == all[n - 1]);
            assert(all[n - 1].0 == lists@[n - 1].key());
        }
    }
    let mut item = item;
    item.grants.push(g);
    assert(privileges::grant_views(item.grants@) =~= seq![shown]);
    lists.insert(n, item);
    assert(list_views(lists@) =~= all.take(n as int).push((key, seq![shown])) + all.skip(
        n as int,
    ));
}

/// The default access lists of a database, in the order of their keys.
pub fn pg_default_acl_lists(defaults: &Vec<DefaultPrivilegeGrant>) -> (r: Vec<DefaultAcl>)
    ensures
        list_views(r@) == default_lists(defaults@),
{
    let mut lists: Vec<DefaultAcl> = Vec::new();
    let mut i: usize = 0;
    assert(defaults@.take(0) =~= Seq::<DefaultPrivilegeGrant>::empty());
    assert(list_views(lists@) =~= default_lists(defaults@.take(0)));
    while i < defaults.len()
        invariant
            i <= defaults.len(),
            list_views(lists@) == default_lists(defaults@.take(i as int)),
        decreases defaults.len() - i,
    {
        let d = &defaults[i];
        assert(defaults@.take(i as int + 1).drop_last() =~= defaults@.take(i as int));
        assert(defaults@.take(i as int + 1).last() == *d);
        match default_code_of(d.object_type) {
            Some(code) => {
                let item = DefaultAcl {
                    grantor: d.grantor.clone(),
                    schema_name: d.schema_name.clone(),
                    code: code.to_owned(),
                    grants: Vec::new(),
                };
                let g = PrivilegeGrant {
                    column: None,
                    object_type: d.object_type,
                    object_name: String::new(),
                    grantee: d.grantee.clone(),
                    privilege: d.privilege.clone(),
                };
                assert(g@ =~= default_as_grant(*d));
                assert(item.key() =~= (DefaultKey {
                    grantor: d.grantor@,
                    schema_name: d.schema_name@,
                    code: code@,
                }));
                add_default_grant(&mut lists, item, g);
            },
            None => {},
        }
        i = i + 1;
    }
    assert(defaults@.take(defaults@.len() as int) =~= defaults@);
    lists
}

/// The name whose hash is the number of a default access list.
pub open spec fn default_acl_name(key: DefaultKey) -> Seq<char> {
    "pg_default_acl:"@ + key.grantor + ":"@ + key.schema_name + ":"@ + key.code
}

/// The name whose hash is the number of a default access list.
pub fn default_acl_relation(d: &DefaultAcl) -> (r: String)
    ensures
        r@ == default_acl_name(d.key()),
{
    let a = text::concat3("pg_default_acl:", d.grantor.as_str(), ":");
    let b = text::concat3(a.as_str(), d.schema_name.as_str(), ":");
    text::concat(b.as_str(), d.code.as_str())
}

/// The row of `pg_default_acl` of a default access list. `oid` is its number,
/// and `namespace` that of its schema; the list of any schema has none.
pub open spec fn default_acl_row(
    key: DefaultKey,
    grants: Seq<GrantView>,
    quotes: Seq<(String, String)>,
    oid: i64,
    namespace: i64,
) -> Seq<(Seq<char>, CellView)> {
    seq![
        ("oid"@, CellView::Int(oid)),
        ("defaclrole"@, CellView::Int(roles::role_number(key.grantor) as i64)),
        (
            "defaclnamespace"@,
            CellView::Int(
                if key.schema_name == "*"@ {
                    0
                } else {
                    namespace
                },
            ),
        ),
        ("defaclobjtype"@, CellView::Text(key.code)),
        ("defaclacl"@, catalog::text_or_null(acl_text(grants, quotes, key.grantor))),
    ]
}

fn borrow_grants(grants: &Vec<PrivilegeGrant>) -> (r: Vec<&PrivilegeGrant>)
    ensures
        grant_refs(r@) == privileges::grant_views(grants@),
{
    let ghost all = privileges::grant_views(grants@);
    let mut out: Vec<&PrivilegeGrant> = Vec::new();
    let mut i: usize = 0;
    while i < grants.len()
        invariant
            i <= grants.len(),
            all == privileges::grant_views(grants@),
            grant_refs(out@) == all.take(i as int),
        decreases grants.len() - i,
    {
        let ghost prior = out@;
        out.push(&grants[i]);
        assert(grant_refs(out@) =~= grant_refs(prior).push(all[i as int]));
        assert(all.take(i as int + 1) =~= all.take(i as int).push(all[i as int]));
        i = i + 1;
    }
    assert(all.take(all.len() as int) =~= all);
    out
}

/// The row of `pg_default_acl` of a default access list.
pub fn pg_default_acl_row(
    d: &DefaultAcl,
    quotes: &Vec<(String, String)>,
    oid: i64,
    namespace: i64,
) -> (r: CatalogRow)
    ensures
        r@ == default_acl_row(
            d.key(),
            privileges::grant_views(d.grants@),
            quotes@,
            oid,
            namespace,
        ),
{
    let borrowed = borrow_grants(&d.grants);
    let acl = acl_value_with_grantor(&borrowed, quotes, d.grantor.as_str());
    let mut row = CatalogRow::new();
    row.put_int("oid", oid);
    row.put_int("defaclrole", roles::role_oid(d.grantor.as_str()));
    row.put_int(
        "defaclnamespace",
        if text::text_eq(d.schema_name.as_str(), "*") {
            0
        } else {
            namespace
        },
    );
    row.put_text("defaclobjtype", d.code.as_str());
    row.put_optional("defaclacl", catalog::borrowed(&acl));
    assert(row@ =~= default_acl_row(
        d.key(),
        privileges::grant_views(d.grants@),
        quotes@,
        oid,
        namespace,
    ));
    row
}

/// The row of `information_schema.role_table_grants` of a grant.
pub open spec fn table_grant_row(g: GrantView) -> Seq<(Seq<char>, CellView)> {
    seq![
        ("grantor"@, CellView::Text("bicdb"@)),
        ("grantee"@, CellView::Text(g.grantee)),
        ("table_catalog"@, CellView::Text("bicdb"@)),
        ("table_schema"@, CellView::Text("public"@)),
        ("table_name"@, CellView::Text(g.object_name)),
        ("privilege_type"@, CellView::Text(g.privilege)),
        ("is_grantable"@, CellView::Text("NO"@)),
        ("with_hierarchy"@, CellView::Text("NO"@)),
    ]
}

/// The rows of `information_schema.role_table_grants`: one for each grant on a
/// table as a whole.
pub open spec fn table_grant_rows(grants: Seq<GrantView>) -> Seq<Seq<(Seq<char>, CellView)>>
    decreases grants.len(),
{
    if grants.len() == 0 {
        Seq::empty()
    } else {
        let before = table_grant_rows(grants.drop_last());
        let g = grants.last();
        if g.object_type == PrivilegeObjectType::Table && g.column is None {
            before.push(table_grant_row(g))
        } else {
            before
        }
    }
}

/// The rows of `information_schema.role_table_grants`.
pub fn information_schema_role_table_grants(grants: &Vec<PrivilegeGrant>) -> (r: Vec<CatalogRow>)
    ensures
        catalog::row_views(r@) == table_grant_rows(privileges::grant_views(grants@)),
{
    let ghost all = privileges::grant_views(grants@);
    let mut rows: Vec<CatalogRow> = Vec::new();
    let mut i: usize = 0;
    assert(all.take(0) =~= Seq::<GrantView>::empty());
    assert(catalog::row_views(rows@) =~= table_grant_rows(all.take(0)));
    while i < grants.len()
        invariant
            i <= grants.len(),
            all == privileges::grant_views(grants@),
            catalog::row_views(rows@) == table_grant_rows(all.take(i as int)),
        decreases grants.len() - i,
    {
        let g = &grants[i];
        assert(all.take(i as int + 1).drop_last() =~= all.take(i as int));
        assert(all.take(i as int + 1).last() == g@);
        if g.object_type == PrivilegeObjectType::Table && g.column.is_none() {
            let mut row = CatalogRow::new();
            row.put_text("grantor", "bicdb");
            row.put_text("grantee", g.grantee.as_str());
            row.put_text("table_catalog", "bicdb");
            row.put_text("table_schema", "public");
            row.put_text("table_name", g.object_name.as_str());
            row.put_text("privilege_type", g.privilege.as_str());
            row.put_text("is_grantable", "NO");
            row.put_text("with_hierarchy", "NO");
            assert(row@ =~= table_grant_row(g@));
            catalog::push_row(&mut rows, row);
        }
        i = i + 1;
    }
    assert(all.take(all.len() as int) =~= all);
    rows
}

} // verus!
