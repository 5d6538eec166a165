//! User-defined types, the row types of tables, and how they are found.
use vstd::prelude::*;
use crate::error;
use crate::error::{SqlError, SqlErrorKind};
use crate::json;
use crate::oid_index;
use crate::oid_index::OidIndex;
use crate::order;
use crate::roles;
use crate::roles::Role;
use crate::text;

verus! {

/// A label of an enum.
#[derive(Debug)]
pub struct EnumLabel {
    pub name: String,
    pub oid: i64,
}

/// What a type modifier says: the length of a character type, the precision and
/// scale of a numeric one, or something else, as it is written.
#[derive(Debug)]
pub enum TypeModifier {
    Character { length: i64 },
    Numeric { precision: i64, scale: i64 },
    Other(String),
}

/// An attribute of a composite type.
#[derive(Debug)]
pub struct CompositeAttribute {
    pub name: String,
    pub pg_type: String,
    pub user_type: Option<UserTypeColumn>,
    pub collation: Option<String>,
    pub type_modifier: Option<TypeModifier>,
    pub array_ndims: i64,
    pub dropped: bool,
}

/// A user-defined type as a column has it: of one value or of an array, with the
/// type's name as it is displayed.
#[derive(Debug)]
pub struct UserTypeColumn {
    pub oid: i64,
    pub array_oid: i64,
    pub array: bool,
    pub display: String,
    pub array_display: String,
    pub kind: UserTypeKind,
}

/// What the values of a range type range over.
#[derive(Debug)]
pub struct RangeValue {
    pub subtype: String,
    pub subtype_oid: i64,
    pub canonical_discrete: bool,
    pub subtype_user_type: Option<Box<UserTypeColumn>>,
}

/// The kinds of user-defined types. The functions of a base type are its codecs;
/// `codec_oid` and `base_oid` identify the built-in types that values are kept
/// as.
#[derive(Debug)]
pub enum UserTypeKind {
    Shell,
    Base {
        input: String,
        output: String,
        receive: Option<String>,
        send: Option<String>,
        codec_oid: i64,
        delimiter: char,
    },
    Enumeration { labels: Vec<EnumLabel> },
    Composite { relation_oid: i64, attributes: Vec<CompositeAttribute> },
    Domain { base_type: String, base_oid: i64, base_user_type: Option<Box<UserTypeColumn>> },
    Range { value: RangeValue, multirange_oid: i64 },
    Multirange { value: RangeValue, range_oid: i64 },
}

/// A user-defined type. Its names as they are displayed are those of one value and
/// of an array.
#[derive(Debug)]
pub struct UserType {
    pub name: String,
    pub schema_name: String,
    pub owner: String,
    pub comment: Option<String>,
    pub acl_explicit: bool,
    pub oid: i64,
    pub array_oid: i64,
    pub display: String,
    pub array_display: String,
    pub kind: UserTypeKind,
}

/// A column of a table.
#[derive(Debug)]
pub struct TableColumn {
    pub name: String,
    pub pg_type: String,
    pub hidden: bool,
}

/// A table and the type of its rows.
#[derive(Debug)]
pub struct TableType {
    pub name: String,
    pub schema_name: String,
    pub row_type_oid: i64,
    pub row_array_type_oid: i64,
    pub columns: Vec<TableColumn>,
}

/// The user-defined types, in the order of their names, and the tables.
#[derive(Debug)]
pub struct TypeCatalog {
    pub types: Vec<UserType>,
    pub tables: Vec<TableType>,
}

/// The key of a type: its schema and its name as a JSON array.
pub open spec fn type_key(schema_name: Seq<char>, name: Seq<char>) -> Seq<char> {
    "["@ + json::serde_json_string(schema_name) + ","@ + json::serde_json_string(name) + "]"@
}

pub fn user_type_key(schema_name: &str, name: &str) -> (r: String)
    ensures
        r@ == type_key(schema_name@, name@),
{
    let schema = json::json_string(schema_name);
    let own = json::json_string(name);
    let first = text::concat3("[", schema.as_str(), ",");
    text::concat3(first.as_str(), own.as_str(), "]")
}

/// Whether one type is listed before another: by schema, then by name.
pub open spec fn listed_before(a: UserType, b: UserType) -> bool {
    order::precedes(a.schema_name@, b.schema_name@) || (a.schema_name@ == b.schema_name@
        && order::precedes(a.name@, b.name@))
}

/// The list with a type put in, before those that do not come before it.
pub open spec fn type_put_in(list: Seq<UserType>, t: UserType) -> Seq<UserType>
    decreases list.len(),
{
    if list.len() == 0 {
        seq![t]
    } else if listed_before(list[0], t) {
        seq![list[0]] + type_put_in(list.drop_first(), t)
    } else {
        seq![t] + list
    }
}

/// The types in the order of their schemas and names.
pub open spec fn types_listed(types: Seq<UserType>) -> Seq<UserType>
    decreases types.len(),
{
    if types.len() == 0 {
        Seq::empty()
    } else {
        type_put_in(types_listed(types.drop_first()), types[0])
    }
}

fn is_listed_before(a: &UserType, b: &UserType) -> (r: bool)
    ensures
        r == listed_before(*a, *b),
{
    order::before(a.schema_name.as_str(), b.schema_name.as_str()) || (text::text_eq(
        a.schema_name.as_str(),
        b.schema_name.as_str(),
    ) && order::before(a.name.as_str(), b.name.as_str()))
}

proof fn lemma_type_put_in(list: Seq<UserType>, t: UserType, at: int)
    requires
        0 <= at <= list.len(),
        forall|k: int| 0 <= k < at ==> listed_before(#[trigger] list[k], t),
        at < list.len() ==> !listed_before(list[at], t),
    ensures
        type_put_in(list, t) == list.insert(at, t),
    decreases list.len(),
{
    if list.len() > 0 && at > 0 {
        let rest = list.drop_first();
        assert(listed_before(list[0], t));
        assert forall|k: int| 0 <= k < at - 1 implies listed_before(#[trigger] rest[k], t) by {
            assert(rest[k] == list[k + 1]);
        }
        lemma_type_put_in(rest, t, at - 1);
        assert(list.insert(at, t) =~= seq![list[0]] + rest.insert(at - 1, t));
    } else if list.len() > 0 {
        assert(list.insert(0, t) =~= seq![t] + list);
    } else {
        assert(list.insert(0, t) =~= seq![t]);
    }
}

/// The types in the order of their schemas and names.
pub fn list_user_types(stored: Vec<UserType>) -> (r: Vec<UserType>)
    ensures
        r@ == types_listed(stored@),
{
    let ghost all = stored@;
    let mut left = stored;
    let mut out: Vec<UserType> = Vec::new();
    assert(all.skip(all.len() as int) =~= Seq::empty());
    while left.len() > 0
        invariant
            left@ == all.take(left@.len() as int),
            left@.len() <= all.len(),
            out@ == types_listed(all.skip(left@.len() as int)),
        decreases left.len(),
    {
        let ghost n = left@.len() as int;
        match left.pop() {
            Some(t) => {
                assert(t == all[n - 1]);
                assert(all.skip(n - 1).drop_first() =~= all.skip(n));
                assert(all.skip(n - 1)[0] == t);
                let mut at: usize = 0;
                while at < out.len() && is_listed_before(&out[at], &t)
                    invariant
                        at <= out.len(),
                        forall|k: int| 0 <= k < at ==> listed_before(#[trigger] out@[k], t),
                    decreases out.len() - at,
                {
                    at = at + 1;
                }
                proof {
                    lemma_type_put_in(out@, t, at as int);
                }
                out.insert(at, t);
                assert(left@ =~= all.take(n - 1));
            },
            None => {},
        }
    }
    assert(all.skip(0) =~= all);
    out
}

/// Sorting the types loses none and makes up none.
pub proof fn law_types_listed(types: Seq<UserType>)
    ensures
        types_listed(types).to_multiset() == types.to_multiset(),
    decreases types.len(),
{
    broadcast use vstd::seq_lib::group_to_multiset_ensures;

    if types.len() > 0 {
        law_types_listed(types.drop_first());
        lemma_put_in_multiset(types_listed(types.drop_first()), types[0]);
        assert(types =~= seq![types[0]] + types.drop_first());
        vstd::seq_lib::lemma_multiset_commutative(seq![types[0]], types.drop_first());
        assert(seq![types[0]] =~= Seq::<UserType>::empty().push(types[0]));
        assert(types.to_multiset() =~= types.drop_first().to_multiset().insert(types[0]));
    } else {
        assert(types =~= Seq::empty());
    }
}

proof fn lemma_put_in_multiset(list: Seq<UserType>, t: UserType)
    ensures
        type_put_in(list, t).to_multiset() == list.to_multiset().insert(t),
    decreases list.len(),
{
    broadcast use vstd::seq_lib::group_to_multiset_ensures;

    if list.len() == 0 {
        assert(list =~= Seq::empty());
        assert(seq![t] =~= Seq::<UserType>::empty().push(t));
    } else if listed_before(list[0], t) {
        let rest = list.drop_first();
        lemma_put_in_multiset(rest, t);
        vstd::seq_lib::lemma_multiset_commutative(seq![list[0]], type_put_in(rest, t));
        vstd::seq_lib::lemma_multiset_commutative(seq![list[0]], rest);
        assert(list =~= seq![list[0]] + rest);
        assert(type_put_in(list, t).to_multiset() =~= list.to_multiset().insert(t));
    } else {
        vstd::seq_lib::lemma_multiset_commutative(seq![t], list);
        assert(seq![t] =~= Seq::<UserType>::empty().push(t));
        assert(type_put_in(list, t).to_multiset() =~= list.to_multiset().insert(t));
    }
}

/// The place of the first type with a schema and a name, searched from there on.
pub open spec fn type_named(
    types: Seq<UserType>,
    schema_name: Seq<char>,
    name: Seq<char>,
    from: int,
) -> Option<int>
    decreases types.len() - from,
{
    if from < 0 || from >= types.len() {
        None
    } else if types[from].schema_name@ == schema_name && types[from].name@ == name {
        Some(from)
    } else {
        type_named(types, schema_name, name, from + 1)
    }
}

/// The type with a schema and a name.
pub fn load_user_type<'a>(types: &'a Vec<UserType>, schema_name: &str, name: &str) -> (r: Option<
    &'a UserType,
>)
    ensures
        match (r, type_named(types@, schema_name@, name@, 0)) {
            (Some(t), Some(at)) => 0 <= at < types@.len() && *t == types@[at],
            (None, None) => true,
            _ => false,
        },
{
    let mut i: usize = 0;
    while i < types.len()
        invariant
            i <= types.len(),
            type_named(types@, schema_name@, name@, 0) == type_named(
                types@,
                schema_name@,
                name@,
                i as int,
            ),
        decreases types.len() - i,
    {
        if text::text_eq(types[i].schema_name.as_str(), schema_name) && text::text_eq(
            types[i].name.as_str(),
            name,
        ) {
            return Some(&types[i]);
        }
        i = i + 1;
    }
    None
}

/// The first type that an identifier is that of, or of arrays of it, searched from
/// there on.
pub open spec fn type_with(types: Seq<UserType>, oid: i64, from: int) -> Option<UserType>
    decreases types.len() - from,
{
    if from < 0 || from >= types.len() {
        None
    } else if types[from].oid == oid || types[from].array_oid == oid {
        Some(types[from])
    } else {
        type_with(types, oid, from + 1)
    }
}

/// The type that an identifier is that of, or of arrays of it.
pub fn load_user_type_by_oid(types: &Vec<UserType>, oid: i64) -> (r: Option<&UserType>)
    ensures
        match (r, type_with(types@, oid, 0)) {
            (Some(t), Some(view)) => *t == view,
            (None, None) => true,
            _ => false,
        },
{
    let mut i: usize = 0;
    while i < types.len()
        invariant
            i <= types.len(),
            type_with(types@, oid, 0) == type_with(types@, oid, i as int),
        decreases types.len() - i,
    {
        if types[i].oid == oid || types[i].array_oid == oid {
            return Some(&types[i]);
        }
        i = i + 1;
    }
    None
}

/// The comment on the type that an identifier is that of. Arrays have none.
pub fn user_type_comment_by_oid(types: &Vec<UserType>, oid: i64) -> (r: Option<String>)
    ensures
        error::view_option(r) == (match type_with(types@, oid, 0) {
            Some(t) => if t.oid == oid {
                error::view_option(t.comment)
            } else {
                None
            },
            None => None,
        }),
{
    match load_user_type_by_oid(types, oid) {
        Some(t) => {
            if t.oid == oid {
                match &t.comment {
                    Some(c) => Some(c.clone()),
                    None => None,
                }
            } else {
                None
            }
        },
        None => None,
    }
}

/// An identifier as the wire has it.
pub open spec fn wire_oid(oid: i64, what: Seq<char>) -> Result<i32, error::ErrorView> {
    if i32::MIN <= oid <= i32::MAX {
        Ok(oid as i32)
    } else {
        Err(error::out_of_range_error(what))
    }
}

pub open spec fn result_is<T>(r: Result<T, SqlError>, view: Result<T, error::ErrorView>) -> bool {
    match (r, view) {
        (Ok(a), Ok(b)) => a == b,
        (Err(e), Err(v)) => e@ == v,
        _ => false,
    }
}

fn to_wire(oid: i64, what: &str) -> (r: Result<i32, SqlError>)
    ensures
        result_is(r, wire_oid(oid, what@)),
{
    if oid >= i32::MIN as i64 && oid <= i32::MAX as i64 {
        Ok(oid as i32)
    } else {
        Err(SqlError::out_of_range(what))
    }
}

pub open spec fn some_wire_oid(oid: i64, what: Seq<char>) -> Result<Option<i32>, error::ErrorView> {
    match wire_oid(oid, what) {
        Ok(n) => Ok(Some(n)),
        Err(e) => Err(e),
    }
}

fn to_some_wire(oid: i64, what: &str) -> (r: Result<Option<i32>, SqlError>)
    ensures
        result_is(r, some_wire_oid(oid, what@)),
{
    match to_wire(oid, what) {
        Ok(n) => Ok(Some(n)),
        Err(e) => Err(e),
    }
}

/// A type name without the brackets of an array, and whether it had them.
pub open spec fn array_name(written: Seq<char>) -> (Seq<char>, bool) {
    let bare = text::trim(written);
    if text::ends_with(bare, "[]"@) {
        (text::trim(bare.take(bare.len() - 2)), true)
    } else {
        (bare, false)
    }
}

/// The parts of a name, each without the space and the quotes round it.
pub open spec fn name_parts(name: Seq<char>) -> Seq<Seq<char>> {
    text::pieces(name, '.').map_values(|p: Seq<char>| text::strip(text::trim(p), '"'))
}

/// The schema and the name that a type name denotes.
pub open spec fn type_identity(name: Seq<char>) -> Option<(Seq<char>, Seq<char>)> {
    let parts = name_parts(name);
    if parts.len() == 1 {
        Some(("public"@, parts[0]))
    } else if parts.len() == 2 {
        Some((parts[0], parts[1]))
    } else {
        None
    }
}

/// The first table with a schema and a name, without the case of the letters.
pub open spec fn table_named(
    tables: Seq<TableType>,
    schema_name: Seq<char>,
    name: Seq<char>,
    from: int,
) -> Option<TableType>
    decreases tables.len() - from,
{
    if from < 0 || from >= tables.len() {
        None
    } else if text::same_ignoring_case(tables[from].schema_name@, schema_name)
        && text::same_ignoring_case(tables[from].name@, name) {
        Some(tables[from])
    } else {
        table_named(tables, schema_name, name, from + 1)
    }
}

/// The identifier of the type that a name denotes: a user-defined type, or else
/// the row type of a table.
pub open spec fn oid_named(c: TypeCatalog, written: Seq<char>) -> Option<i64> {
    let (name, array) = array_name(written);
    match type_identity(name) {
        None => None,
        Some((schema_name, own)) => match type_named(c.types@, schema_name, own, 0) {
            Some(at) => Some(
                if array {
                    c.types@[at].array_oid
                } else {
                    c.types@[at].oid
                },
            ),
            None => match table_named(c.tables@, schema_name, own, 0) {
                Some(t) => Some(
                    if array {
                        t.row_array_type_oid
                    } else {
                        t.row_type_oid
                    },
                ),
                None => None,
            },
        },
    }
}

fn split_array(written: &str) -> (r: (String, bool))
    ensures
        ((r.0)@, r.1) == array_name(written@),
{
    let bare = text::trimmed(written);
    if text::has_suffix(bare.as_str(), "[]") {
        proof {
            reveal_strlit("[]");
        }
        let chars = text::chars_of(bare.as_str());
        let own = text::string_range(chars.as_slice(), 0, chars.len() - 2);
        assert(own@ =~= bare@.take(bare@.len() - 2));
        (text::trimmed(own.as_str()), true)
    } else {
        (bare, false)
    }
}

fn parts_of(name: &str) -> (r: Vec<String>)
    ensures
        text::views(r@) == name_parts(name@),
{
    let pieces = text::split_on(name, '.');
    let ghost all = text::views(pieces@);
    let mut out: Vec<String> = Vec::new();
    let mut i: usize = 0;
    while i < pieces.len()
        invariant
            i <= pieces.len(),
            all == text::views(pieces@),
            out@.len() == i,
            forall|k: int|
                0 <= k < i ==> (#[trigger] out@[k])@ == text::strip(text::trim(all[k]), '"'),
        decreases pieces.len() - i,
    {
        assert(all[i as int] == pieces@[i as int]@);
        let trimmed = text::trimmed(pieces[i].as_str());
        out.push(text::stripped(trimmed.as_str(), '"'));
        i = i + 1;
    }
    assert(text::views(out@) =~= name_parts(name@));
    out
}

fn identity_of(name: &str) -> (r: Option<(String, String)>)
    ensures
        match (r, type_identity(name@)) {
            (Some((a, b)), Some(view)) => (a@, b@) == view,
            (None, None) => true,
            _ => false,
        },
{
    let parts = parts_of(name);
    let ghost all = text::views(parts@);
    assert(parts@.len() == all.len());
    if parts.len() == 1 {
        assert(all[0] == parts@[0]@);
        Some(("public".to_owned(), parts[0].clone()))
    } else if parts.len() == 2 {
        assert(all[0] == parts@[0]@);
        assert(all[1] == parts@[1]@);
        Some((parts[0].clone(), parts[1].clone()))
    } else {
        None
    }
}

fn find_table<'a>(tables: &'a Vec<TableType>, schema_name: &str, name: &str) -> (r: Option<
    &'a TableType,
>)
    ensures
        match (r, table_named(tables@, schema_name@, name@, 0)) {
            (Some(t), Some(view)) => *t == view,
            (None, None) => true,
            _ => false,
        },
{
    let mut i: usize = 0;
    while i < tables.len()
        invariant
            i <= tables.len(),
            table_named(tables@, schema_name@, name@, 0) == table_named(
                tables@,
                schema_name@,
                name@,
                i as int,
            ),
        decreases tables.len() - i,
    {
        if text::eq_ignore_case(tables[i].schema_name.as_str(), schema_name)
            && text::eq_ignore_case(tables[i].name.as_str(), name) {
            return Some(&tables[i]);
        }
        i = i + 1;
    }
    None
}

fn find_oid(c: &TypeCatalog, written: &str) -> (r: Option<i64>)
    ensures
        r == oid_named(*c, written@),
{
    let (name, array) = split_array(written);
    match identity_of(name.as_str()) {
        None => None,
        Some((schema_name, own)) => match load_user_type(
            &c.types,
            schema_name.as_str(),
            own.as_str(),
        ) {
            Some(t) => Some(
                if array {
                    t.array_oid
                } else {
                    t.oid
                },
            ),
            None => match find_table(&c.tables, schema_name.as_str(), own.as_str()) {
                Some(t) => Some(
                    if array {
                        t.row_array_type_oid
                    } else {
                        t.row_type_oid
                    },
                ),
                None => None,
            },
        },
    }
}

/// The identifier of the type that a name denotes.
pub fn pg_user_type_oid_by_name(c: &TypeCatalog, written: &str) -> (r: Result<
    Option<i32>,
    SqlError,
>)
    ensures
        result_is(
            r,
            match oid_named(*c, written@) {
                Some(oid) => some_wire_oid(oid, "user-defined type OID exceeds int4"@),
                None => Ok(None),
            },
        ),
{
    match find_oid(c, written) {
        Some(oid) => to_some_wire(oid, "user-defined type OID exceeds int4"),
        None => Ok(None),
    }
}

/// The tables by the identifiers of their row types, and of arrays of them.
#[derive(Debug)]
pub struct RowTypeOidIndex {
    pub row: OidIndex,
    pub array: OidIndex,
}

/// The last of the first tables whose row type, or arrays of it, an identifier
/// is that of.
pub open spec fn table_with(tables: Seq<TableType>, oid: i64, array: bool) -> Option<usize>
    decreases tables.len(),
{
    if tables.len() == 0 {
        None
    } else if (if array {
        tables.last().row_array_type_oid
    } else {
        tables.last().row_type_oid
    }) == oid {
        Some((tables.len() - 1) as usize)
    } else {
        table_with(tables.drop_last(), oid, array)
    }
}

/// Indexes the tables by the identifiers of their row types.
pub fn row_type_oid_index(tables: &Vec<TableType>) -> (r: RowTypeOidIndex)
    ensures
        forall|oid: i64| #[trigger]
            oid_index::position(r.row@, oid) == table_with(tables@, oid, false),
        forall|oid: i64| #[trigger]
            oid_index::position(r.array@, oid) == table_with(tables@, oid, true),
{
    let mut row = OidIndex::new();
    let mut array = OidIndex::new();
    let mut i: usize = 0;
    while i < tables.len()
        invariant
            i <= tables.len(),
            forall|oid: i64| #[trigger]
                oid_index::position(row@, oid) == table_with(tables@.take(i as int), oid, false),
            forall|oid: i64| #[trigger]
                oid_index::position(array@, oid) == table_with(tables@.take(i as int), oid, true),
        decreases tables.len() - i,
    {
        assert(tables@.take(i + 1).drop_last() =~= tables@.take(i as int));
        assert(tables@.take(i + 1).last() == tables@[i as int]);
        let ghost before_row = row@;
        let ghost before_array = array@;
        row.insert(tables[i].row_type_oid, i);
        array.insert(tables[i].row_array_type_oid, i);
        proof {
            assert forall|oid: i64| #[trigger] oid_index::position(row@, oid) == table_with(
                tables@.take(i + 1),
                oid,
                false,
            ) by {
                assert(oid_index::position(before_row, oid) == table_with(
                    tables@.take(i as int),
                    oid,
                    false,
                ));
            }
            assert forall|oid: i64| #[trigger] oid_index::position(array@, oid) == table_with(
                tables@.take(i + 1),
                oid,
                true,
            ) by {
                assert(oid_index::position(before_array, oid) == table_with(
                    tables@.take(i as int),
                    oid,
                    true,
                ));
            }
        }
        i = i + 1;
    }
    assert(tables@.take(tables@.len() as int) =~= tables@);
    RowTypeOidIndex { row, array }
}

proof fn lemma_table_with(tables: Seq<TableType>, oid: i64, array: bool)
    requires
        tables.len() <= usize::MAX,
    ensures
        match table_with(tables, oid, array) {
            Some(at) => at < tables.len() && (if array {
                tables[at as int].row_array_type_oid
            } else {
                tables[at as int].row_type_oid
            }) == oid,
            None => true,
        },
    decreases tables.len(),
{
    if tables.len() > 0 {
        lemma_table_with(tables.drop_last(), oid, array);
    }
}

/// The identifier of the row type that an identifier is that of arrays of.
pub fn pg_table_row_array_element_oid(c: &TypeCatalog, oid: i32) -> (r: Result<
    Option<i32>,
    SqlError,
>)
    ensures
        result_is(
            r,
            match table_with(c.tables@, oid as i64, true) {
                Some(at) => some_wire_oid(
                    c.tables@[at as int].row_type_oid,
                    "table row type OID exceeds int4"@,
                ),
                None => Ok(None),
            },
        ),
{
    let index = row_type_oid_index(&c.tables);
    let count = c.tables.len();
    proof {
        lemma_table_with(c.tables@, oid as i64, true);
    }
    assert(oid_index::position(index.array@, oid as i64) == table_with(
        c.tables@,
        oid as i64,
        true,
    ));
    match index.array.get(oid as i64) {
        Some(at) => to_some_wire(c.tables[at].row_type_oid, "table row type OID exceeds int4"),
        None => Ok(None),
    }
}

/// Whether an identifier is that of a composite type.
pub open spec fn is_composite(types: Seq<UserType>, oid: i64) -> bool {
    match type_with(types, oid, 0) {
        Some(t) => t.oid == oid && t.kind is Composite,
        None => false,
    }
}

fn has_composite(types: &Vec<UserType>, oid: i64) -> (r: bool)
    ensures
        r == is_composite(types@, oid),
{
    match load_user_type_by_oid(types, oid) {
        Some(t) => t.oid == oid && (match &t.kind {
            UserTypeKind::Composite { .. } => true,
            _ => false,
        }),
        None => false,
    }
}

/// Whether an identifier is that of a row type, of arrays of one, or of a
/// composite type.
pub fn pg_is_table_row_type_oid(c: &TypeCatalog, oid: i32) -> (r: bool)
    ensures
        r == (table_with(c.tables@, oid as i64, false) is Some || table_with(
            c.tables@,
            oid as i64,
            true,
        ) is Some || is_composite(c.types@, oid as i64)),
{
    let index = row_type_oid_index(&c.tables);
    assert(oid_index::position(index.array@, oid as i64) == table_with(
        c.tables@,
        oid as i64,
        true,
    ));
    assert(oid_index::position(index.row@, oid as i64) == table_with(
        c.tables@,
        oid as i64,
        false,
    ));
    index.row.get(oid as i64).is_some() || index.array.get(oid as i64).is_some()
        || has_composite(&c.types, oid as i64)
}

/// A name with its schema, unless that is `public`.
pub open spec fn qualified(schema_name: Seq<char>, name: Seq<char>) -> Seq<char> {
    if text::same_ignoring_case(schema_name, "public"@) {
        name
    } else {
        schema_name + "."@ + name
    }
}

fn qualify(schema_name: &str, name: &str) -> (r: String)
    ensures
        r@ == qualified(schema_name@, name@),
{
    if text::eq_ignore_case(schema_name, "public") {
        name.to_owned()
    } else {
        text::concat3(schema_name, ".", name)
    }
}

pub open spec fn pair_views(v: Seq<(String, String)>) -> Seq<(Seq<char>, Seq<char>)> {
    v.map_values(|p: (String, String)| (p.0@, p.1@))
}

/// The names and types of the attributes that have not been dropped.
pub open spec fn attribute_fields(attributes: Seq<CompositeAttribute>) -> Seq<
    (Seq<char>, Seq<char>),
>
    decreases attributes.len(),
{
    if attributes.len() == 0 {
        Seq::empty()
    } else {
        let before = attribute_fields(attributes.drop_last());
        if attributes.last().dropped {
            before
        } else {
            before.push((attributes.last().name@, attributes.last().pg_type@))
        }
    }
}

/// The names and types of the columns that are not hidden.
pub open spec fn column_fields(columns: Seq<TableColumn>) -> Seq<(Seq<char>, Seq<char>)>
    decreases columns.len(),
{
    if columns.len() == 0 {
        Seq::empty()
    } else {
        let before = column_fields(columns.drop_last());
        if columns.last().hidden {
            before
        } else {
            before.push((columns.last().name@, columns.last().pg_type@))
        }
    }
}

fn fields_of_attributes(attributes: &Vec<CompositeAttribute>) -> (r: Vec<(String, String)>)
    ensures
        pair_views(r@) == attribute_fields(attributes@),
{
    let mut out: Vec<(String, String)> = Vec::new();
    let mut i: usize = 0;
    assert(pair_views(out@) =~= Seq::empty());
    while i < attributes.len()
        invariant
            i <= attributes.len(),
            pair_views(out@) == attribute_fields(attributes@.take(i as int)),
        decreases attributes.len() - i,
    {
        assert(attributes@.take(i + 1).drop_last() =~= attributes@.take(i as int));
        assert(attributes@.take(i + 1).last() == attributes@[i as int]);
        let ghost prior = out@;
        if !attributes[i].dropped {
            out.push((attributes[i].name.clone(), attributes[i].pg_type.clone()));
            assert(pair_views(out@) =~= pair_views(prior).push(
                (attributes@[i as int].name@, attributes@[i as int].pg_type@),
            ));
        }
        i = i + 1;
    }
    assert(attributes@.take(attributes@.len() as int) =~= attributes@);
    out
}

fn fields_of_columns(columns: &Vec<TableColumn>) -> (r: Vec<(String, String)>)
    ensures
        pair_views(r@) == column_fields(columns@),
{
    let mut out: Vec<(String, String)> = Vec::new();
    let mut i: usize = 0;
    assert(pair_views(out@) =~= Seq::empty());
    while i < columns.len()
        invariant
            i <= columns.len(),
            pair_views(out@) == column_fields(columns@.take(i as int)),
        decreases columns.len() - i,
    {
        assert(columns@.take(i + 1).drop_last() =~= columns@.take(i as int));
        assert(columns@.take(i + 1).last() == columns@[i as int]);
        let ghost prior = out@;
        if !columns[i].hidden {
            out.push((columns[i].name.clone(), columns[i].pg_type.clone()));
            assert(pair_views(out@) =~= pair_views(prior).push(
                (columns@[i as int].name@, columns@[i as int].pg_type@),
            ));
        }
        i = i + 1;
    }
    assert(columns@.take(columns@.len() as int) =~= columns@);
    out
}

/// The first table whose row type an identifier is that of.
pub open spec fn first_table_with(tables: Seq<TableType>, oid: i64, from: int) -> Option<TableType>
    decreases tables.len() - from,
{
    if from < 0 || from >= tables.len() {
        None
    } else if tables[from].row_type_oid == oid {
        Some(tables[from])
    } else {
        first_table_with(tables, oid, from + 1)
    }
}

/// The name and the fields of the row type that an identifier is that of: a
/// composite type, or else the rows of a table.
pub open spec fn row_type_definition(c: TypeCatalog, oid: i64) -> Option<
    (Seq<char>, Seq<(Seq<char>, Seq<char>)>),
> {
    if is_composite(c.types@, oid) {
        let t = type_with(c.types@, oid, 0)->0;
        Some(
            (
                qualified(t.schema_name@, t.name@),
                attribute_fields(t.kind->Composite_attributes@),
            ),
        )
    } else {
        match first_table_with(c.tables@, oid, 0) {
            Some(t) => Some((qualified(t.schema_name@, t.name@), column_fields(t.columns@))),
            None => None,
        }
    }
}

fn composite_definition(types: &Vec<UserType>, oid: i64) -> (r: Option<
    (String, Vec<(String, String)>),
>)
    ensures
        match r {
            Some((name, fields)) => {
                let t = type_with(types@, oid, 0)->0;
                &&& is_composite(types@, oid)
                &&& name@ == qualified(t.schema_name@, t.name@)
                &&& pair_views(fields@) == attribute_fields(t.kind->Composite_attributes@)
            },
            None => !is_composite(types@, oid),
        },
{
    match load_user_type_by_oid(types, oid) {
        Some(t) => {
            if t.oid != oid {
                return None;
            }
            match &t.kind {
                UserTypeKind::Composite { relation_oid: _, attributes } => Some(
                    (
                        qualify(t.schema_name.as_str(), t.name.as_str()),
                        fields_of_attributes(attributes),
                    ),
                ),
                _ => None,
            }
        },
        None => None,
    }
}

/// The name and the fields of the row type that an identifier is that of.
pub fn pg_table_row_type_definition(c: &TypeCatalog, oid: i32) -> (r: Option<
    (String, Vec<(String, String)>),
>)
    ensures
        match (r, row_type_definition(*c, oid as i64)) {
            (Some((name, fields)), Some(view)) => (name@, pair_views(fields@)) == view,
            (None, None) => true,
            _ => false,
        },
{
    match composite_definition(&c.types, oid as i64) {
        Some(d) => {
            return Some(d);
        },
        None => {},
    }
    let mut i: usize = 0;
    while i < c.tables.len()
        invariant
            i <= c.tables.len(),
            !is_composite(c.types@, oid as i64),
            first_table_with(c.tables@, oid as i64, 0) == first_table_with(
                c.tables@,
                oid as i64,
                i as int,
            ),
        decreases c.tables.len() - i,
    {
        if c.tables[i].row_type_oid == oid as i64 {
            return Some(
                (
                    qualify(c.tables[i].schema_name.as_str(), c.tables[i].name.as_str()),
                    fields_of_columns(&c.tables[i].columns),
                ),
            );
        }
        i = i + 1;
    }
    None
}

/// The identifier of the type that an identifier is that of arrays of.
pub fn pg_user_type_array_element_oid(c: &TypeCatalog, oid: i32) -> (r: Result<
    Option<i32>,
    SqlError,
>)
    ensures
        result_is(
            r,
            match type_with(c.types@, oid as i64, 0) {
                Some(t) => if t.array_oid == oid {
                    some_wire_oid(t.oid, "user-defined type OID exceeds int4"@)
                } else {
                    Ok(None)
                },
                None => Ok(None),
            },
        ),
{
    match load_user_type_by_oid(&c.types, oid as i64) {
        Some(t) => {
            if t.array_oid == oid as i64 {
                to_some_wire(t.oid, "user-defined type OID exceeds int4")
            } else {
                Ok(None)
            }
        },
        None => Ok(None),
    }
}

/// What separates the elements of arrays of a type. A domain has what its base
/// has.
pub open spec fn delimiter(kind: UserTypeKind) -> char
    decreases kind,
{
    match kind {
        UserTypeKind::Base { delimiter, .. } => delimiter,
        UserTypeKind::Domain { base_user_type, .. } => match base_user_type {
            Some(base) => delimiter(base.kind),
            None => ',',
        },
        _ => ',',
    }
}

pub fn user_type_delimiter(kind: &UserTypeKind) -> (r: char)
    ensures
        r == delimiter(*kind),
    decreases *kind,
{
    match kind {
        UserTypeKind::Base { delimiter, .. } => *delimiter,
        UserTypeKind::Domain { base_user_type, .. } => match base_user_type {
            Some(base) => user_type_delimiter(&base.kind),
            None => ',',
        },
        _ => ',',
    }
}

/// What separates the elements of the arrays that an identifier is that of.
pub fn pg_user_type_array_delimiter(c: &TypeCatalog, oid: i32) -> (r: Option<char>)
    ensures
        r == (match type_with(c.types@, oid as i64, 0) {
            Some(t) => if t.array_oid == oid {
                Some(delimiter(t.kind))
            } else {
                None
            },
            None => None,
        }),
{
    match load_user_type_by_oid(&c.types, oid as i64) {
        Some(t) => {
            if t.array_oid == oid as i64 {
                Some(user_type_delimiter(&t.kind))
            } else {
                None
            }
        },
        None => None,
    }
}

/// What separates the elements of arrays of the type that an identifier is that
/// of.
pub fn pg_user_type_delimiter(c: &TypeCatalog, oid: i32) -> (r: Option<char>)
    ensures
        r == (match type_with(c.types@, oid as i64, 0) {
            Some(t) => if t.oid == oid {
                Some(delimiter(t.kind))
            } else {
                None
            },
            None => None,
        }),
{
    match load_user_type_by_oid(&c.types, oid as i64) {
        Some(t) => {
            if t.oid == oid as i64 {
                Some(user_type_delimiter(&t.kind))
            } else {
                None
            }
        },
        None => None,
    }
}

/// Whether a role administers the server: the bootstrap role, or one that is a
/// superuser.
pub fn pg_role_is_superuser(stored: &Vec<Role>, role: &str) -> (r: bool)
    ensures
        r == (text::same_ignoring_case(role@, roles::bootstrap_role()) || roles::is_superuser(
            roles::role_views(stored@),
            role@,
        )),
{
    let bootstrap = roles::current_role_name();
    text::eq_ignore_case(role, bootstrap.as_str()) || roles::role_is_superuser(stored, role)
}

/// Whether an identifier is that of a user-defined type or of arrays of one.
pub fn pg_is_user_type_oid(c: &TypeCatalog, oid: i32) -> (r: bool)
    ensures
        r == (type_with(c.types@, oid as i64, 0) is Some),
{
    load_user_type_by_oid(&c.types, oid as i64).is_some()
}

/// The identifier that a column's type has.
pub open spec fn column_type_oid(c: UserTypeColumn) -> i64 {
    if c.array {
        c.array_oid
    } else {
        c.oid
    }
}

/// The identifier of the type that values of a kind are sent as: the codec of a
/// base type with both binary functions, and the base of a domain.
pub open spec fn binary_base(kind: UserTypeKind) -> Option<i64> {
    match kind {
        UserTypeKind::Base { receive, send, codec_oid, .. } => if receive is Some && send is Some {
            Some(codec_oid)
        } else {
            None
        },
        UserTypeKind::Domain { base_oid, base_user_type, .. } => match base_user_type {
            Some(base) => Some(column_type_oid(*base)),
            None => Some(base_oid),
        },
        _ => None,
    }
}

/// The identifier of the type that values of a type are sent as.
pub fn pg_user_type_binary_base_oid(c: &TypeCatalog, oid: i32) -> (r: Result<Option<i32>, SqlError>)
    ensures
        result_is(
            r,
            match type_with(c.types@, oid as i64, 0) {
                Some(t) => if t.array_oid == oid {
                    Ok(None)
                } else {
                    match binary_base(t.kind) {
                        Some(base) => some_wire_oid(base, "domain base type OID exceeds int4"@),
                        None => Ok(None),
                    }
                },
                None => Ok(None),
            },
        ),
{
    match load_user_type_by_oid(&c.types, oid as i64) {
        Some(t) => {
            if t.array_oid == oid as i64 {
                return Ok(None);
            }
            match &t.kind {
                UserTypeKind::Base { receive, send, codec_oid, .. } => {
                    if receive.is_some() && send.is_some() {
                        to_some_wire(*codec_oid, "domain base type OID exceeds int4")
                    } else {
                        Ok(None)
                    }
                },
                UserTypeKind::Domain { base_oid, base_user_type, .. } => {
                    let base = match base_user_type {
                        Some(base) => if base.array {
                            base.array_oid
                        } else {
                            base.oid
                        },
                        None => *base_oid,
                    };
                    to_some_wire(base, "domain base type OID exceeds int4")
                },
                _ => Ok(None),
            }
        },
        None => Ok(None),
    }
}

/// The identifiers of a range type, of its multirange and of what it ranges over.
#[derive(Clone, Copy, Debug, PartialEq, Eq, Structural)]
pub struct PgUserRangeTypeInfo {
    pub range_oid: i32,
    pub multirange_oid: i32,
    pub subtype_oid: i32,
    pub multirange: bool,
}

/// The identifiers as the wire has them; the first that does not fit is the
/// error.
pub open spec fn range_info(range: i64, multirange: i64, subtype: i64, is_multirange: bool) -> Result<
    Option<PgUserRangeTypeInfo>,
    error::ErrorView,
> {
    match wire_oid(range, "user range OID exceeds int4"@) {
        Err(e) => Err(e),
        Ok(range_oid) => match wire_oid(multirange, "user multirange OID exceeds int4"@) {
            Err(e) => Err(e),
            Ok(multirange_oid) => match wire_oid(subtype, "range subtype OID exceeds int4"@) {
                Err(e) => Err(e),
                Ok(subtype_oid) => Ok(
                    Some(
                        PgUserRangeTypeInfo {
                            range_oid,
                            multirange_oid,
                            subtype_oid,
                            multirange: is_multirange,
                        },
                    ),
                ),
            },
        },
    }
}

fn range_type_info(range: i64, multirange: i64, subtype: i64, is_multirange: bool) -> (r: Result<
    Option<PgUserRangeTypeInfo>,
    SqlError,
>)
    ensures
        result_is(r, range_info(range, multirange, subtype, is_multirange)),
{
    match to_wire(range, "user range OID exceeds int4") {
        Err(e) => Err(e),
        Ok(range_oid) => match to_wire(multirange, "user multirange OID exceeds int4") {
            Err(e) => Err(e),
            Ok(multirange_oid) => match to_wire(subtype, "range subtype OID exceeds int4") {
                Err(e) => Err(e),
                Ok(subtype_oid) => Ok(
                    Some(
                        PgUserRangeTypeInfo {
                            range_oid,
                            multirange_oid,
                            subtype_oid,
                            multirange: is_multirange,
                        },
                    ),
                ),
            },
        },
    }
}

/// The identifiers that go with a range type or a multirange type.
pub fn pg_user_range_type_info(c: &TypeCatalog, oid: i32) -> (r: Result<
    Option<PgUserRangeTypeInfo>,
    SqlError,
>)
    ensures
        result_is(
            r,
            match type_with(c.types@, oid as i64, 0) {
                Some(t) => if t.array_oid == oid {
                    Ok(None)
                } else {
                    match t.kind {
                        UserTypeKind::Range { value, multirange_oid } => range_info(
                            t.oid,
                            multirange_oid,
                            value.subtype_oid,
                            false,
                        ),
                        UserTypeKind::Multirange { value, range_oid } => range_info(
                            range_oid,
                            t.oid,
                            value.subtype_oid,
                            true,
                        ),
                        _ => Ok(None),
                    }
                },
                None => Ok(None),
            },
        ),
{
    match load_user_type_by_oid(&c.types, oid as i64) {
        Some(t) => {
            if t.array_oid == oid as i64 {
                return Ok(None);
            }
            match &t.kind {
                UserTypeKind::Range { value, multirange_oid } => range_type_info(
                    t.oid,
                    *multirange_oid,
                    value.subtype_oid,
                    false,
                ),
                UserTypeKind::Multirange { value, range_oid } => range_type_info(
                    *range_oid,
                    t.oid,
                    value.subtype_oid,
                    true,
                ),
                _ => Ok(None),
            }
        },
        None => Ok(None),
    }
}

/// What a value comes to that is cast to a user-defined type: the error of the cast,
/// null, or a text.
#[derive(Debug)]
pub enum CastValue {
    Failed(SqlError),
    Null,
    Text(String),
}

/// How a text is to be read: as one range or as a list of them, under the name of
/// the type, over its subtype, with its bounds made canonical or not.
#[derive(Debug)]
pub struct RangeParse<'a> {
    pub text: &'a str,
    pub display: &'a str,
    pub subtype: &'a str,
    pub canonical_discrete: bool,
    pub multirange: bool,
}

pub struct RangeParseView {
    pub text: Seq<char>,
    pub display: Seq<char>,
    pub subtype: Seq<char>,
    pub canonical_discrete: bool,
    pub multirange: bool,
}

impl<'a> View for RangeParse<'a> {
    type V = RangeParseView;

    open spec fn view(&self) -> RangeParseView {
        RangeParseView {
            text: self.text@,
            display: self.display@,
            subtype: self.subtype@,
            canonical_discrete: self.canonical_discrete,
            multirange: self.multirange,
        }
    }
}

/// How the text of a value of a type is to be read, where the type is a range type
/// or a multirange type.
pub open spec fn parse_of(t: Option<UserType>, value: CastValue) -> Option<RangeParseView> {
    match (t, value) {
        (Some(t), CastValue::Text(text)) => match t.kind {
            UserTypeKind::Range { value, .. } => Some(
                RangeParseView {
                    text: text@,
                    display: t.display@,
                    subtype: value.subtype@,
                    canonical_discrete: value.canonical_discrete,
                    multirange: false,
                },
            ),
            UserTypeKind::Multirange { value, .. } => Some(
                RangeParseView {
                    text: text@,
                    display: t.display@,
                    subtype: value.subtype@,
                    canonical_discrete: value.canonical_discrete,
                    multirange: true,
                },
            ),
            _ => None,
        },
        _ => None,
    }
}

/// The reading that the value of a range type or a multirange type asks for, if it
/// asks for one.
pub fn range_parse<'a>(c: &'a TypeCatalog, oid: i32, value: &'a CastValue) -> (r: Option<RangeParse<'a>>)
    ensures
        match (r, parse_of(type_with(c.types@, oid as i64, 0), *value)) {
            (Some(parse), Some(view)) => parse@ == view,
            (None, None) => true,
            _ => false,
        },
{
    match (load_user_type_by_oid(&c.types, oid as i64), value) {
        (Some(t), CastValue::Text(text)) => match &t.kind {
            UserTypeKind::Range { value, .. } => Some(
                RangeParse {
                    text: text.as_str(),
                    display: t.display.as_str(),
                    subtype: value.subtype.as_str(),
                    canonical_discrete: value.canonical_discrete,
                    multirange: false,
                },
            ),
            UserTypeKind::Multirange { value, .. } => Some(
                RangeParse {
                    text: text.as_str(),
                    display: t.display.as_str(),
                    subtype: value.subtype.as_str(),
                    canonical_discrete: value.canonical_discrete,
                    multirange: true,
                },
            ),
            _ => None,
        },
        _ => None,
    }
}

/// What readings of the text of a value come to: one as a range, and one as a list
/// of ranges; each the ranges or what is wrong with the text. Only the one that
/// `range_parse` asks for counts.
#[derive(Debug)]
pub struct RangeReadings {
    pub range: Result<String, String>,
    pub ranges: Result<Vec<String>, String>,
}

/// The ranges that a value of a range type or a multirange type holds: one, or
/// those of the list.
pub open spec fn range_values(t: Option<UserType>, value: CastValue, readings: RangeReadings) -> Result<
    Option<Seq<Seq<char>>>,
    error::ErrorView,
> {
    match t {
        None => Ok(None),
        Some(t) => match value {
            CastValue::Failed(e) => Err(e@),
            CastValue::Null => Ok(Some(Seq::empty())),
            CastValue::Text(_) => match t.kind {
                UserTypeKind::Range { .. } => match readings.range {
                    Ok(range) => Ok(Some(seq![range@])),
                    Err(message) => Err(
                        error::plain_error(SqlErrorKind::InvalidTextRepresentation, message@),
                    ),
                },
                UserTypeKind::Multirange { .. } => match readings.ranges {
                    Ok(list) => Ok(Some(text::views(list@))),
                    Err(message) => Err(
                        error::plain_error(SqlErrorKind::InvalidTextRepresentation, message@),
                    ),
                },
                _ => Ok(None),
            },
        },
    }
}

/// The ranges that a value of a range type or a multirange type holds. A null
/// value holds none.
pub fn pg_user_range_values(
    c: &TypeCatalog,
    oid: i32,
    value: CastValue,
    readings: RangeReadings,
) -> (r: Result<Option<Vec<String>>, SqlError>)
    ensures
        match (r, range_values(type_with(c.types@, oid as i64, 0), value, readings)) {
            (Ok(Some(list)), Ok(Some(views))) => text::views(list@) == views,
            (Ok(None), Ok(None)) => true,
            (Err(e), Err(view)) => e@ == view,
            _ => false,
        },
{
    let t = match load_user_type_by_oid(&c.types, oid as i64) {
        None => {
            return Ok(None);
        },
        Some(t) => t,
    };
    match value {
        CastValue::Failed(e) => Err(e),
        CastValue::Null => {
            let none: Vec<String> = Vec::new();
            assert(text::views(none@) =~= Seq::empty());
            Ok(Some(none))
        },
        CastValue::Text(_) => match &t.kind {
            UserTypeKind::Range { .. } => match readings.range {
                Ok(range) => {
                    let ghost view = range@;
                    let mut one: Vec<String> = Vec::new();
                    one.push(range);
                    assert(text::views(one@) =~= seq![view]);
                    Ok(Some(one))
                },
                Err(message) => Err(
                    SqlError::plain(SqlErrorKind::InvalidTextRepresentation, message),
                ),
            },
            UserTypeKind::Multirange { .. } => match readings.ranges {
                Ok(list) => Ok(Some(list)),
                Err(message) => Err(
                    SqlError::plain(SqlErrorKind::InvalidTextRepresentation, message),
                ),
            },
            _ => Ok(None),
        },
    }
}

} // verus!
