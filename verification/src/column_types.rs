//! The types of the columns of tables.
use vstd::prelude::*;
use crate::dotted;
use crate::error;
use crate::error::SqlError;
use crate::guc;
use crate::roles;
use crate::text;
use crate::type_references;
use crate::user_types;
use crate::user_types::{
    CompositeAttribute,
    TypeModifier,
    UserType,
    UserTypeColumn,
    UserTypeKind,
};

verus! {

/// A column of a table: its type by name, by identifier and as it is displayed.
#[derive(Debug)]
pub struct SchemaColumn {
    pub name: String,
    pub pg_type: String,
    pub display: String,
    pub type_oid: i64,
    pub user_type: Option<UserTypeColumn>,
    pub collation: Option<String>,
    pub type_modifier: Option<TypeModifier>,
    pub array_ndims: i64,
    pub vector_dim: Option<i64>,
    pub hidden: bool,
}

/// The column's type with types replaced in it, and the name that it has then.
pub open spec fn column_reference_replaced(c: SchemaColumn, types: Seq<UserType>) -> Option<
    (type_references::ColumnView, Seq<char>),
> {
    match c.user_type {
        Some(t) => {
            let before = type_references::column_view(t);
            let after = type_references::column_replaced(before, types);
            if after == before {
                None
            } else {
                Some((after, type_references::formatted(after)))
            }
        },
        None => None,
    }
}

/// Replaces types in the type of a column, and says whether that changes it.
pub fn replace_column_user_type_references(column: &mut SchemaColumn, types: &Vec<UserType>) -> (r:
    bool)
    ensures
        match column_reference_replaced(*old(column), types@) {
            Some((after, name)) => {
                &&& r
                &&& final(column).user_type is Some
                &&& type_references::column_view(final(column).user_type->0) == after
                &&& final(column).pg_type@ == name
            },
            None => !r && final(column).user_type == old(column).user_type && final(column).pg_type
                == old(column).pg_type,
        },
        *final(column) == (SchemaColumn {
            user_type: final(column).user_type,
            pg_type: final(column).pg_type,
            ..*old(column)
        }),
{
    let next = match &column.user_type {
        Some(t) => {
            let (next, changed) = type_references::replace_user_type_column_reference(t, types);
            if !changed {
                return false;
            }
            next
        },
        None => {
            return false;
        },
    };
    column.pg_type = if next.array {
        next.array_display.clone()
    } else {
        next.display.clone()
    };
    column.user_type = Some(next);
    true
}

/// The type that a user-defined type is cast as when it is assigned: a domain is
/// cast as what it is over.
pub open spec fn cast_type(c: UserTypeColumn, array: bool) -> Seq<char>
    decreases c,
{
    let scalar = match c.kind {
        UserTypeKind::Domain { base_type, base_user_type, .. } => match base_user_type {
            Some(base) => cast_type(*base, base.array),
            None => base_type@,
        },
        _ => c.display@,
    };
    if array {
        scalar + "[]"@
    } else {
        scalar
    }
}

fn assignment_cast_type(c: &UserTypeColumn, array: bool) -> (r: String)
    ensures
        r@ == cast_type(*c, array),
    decreases *c,
{
    let scalar = match &c.kind {
        UserTypeKind::Domain { base_type, base_oid: _, base_user_type } => match base_user_type {
            Some(base) => assignment_cast_type(base, base.array),
            None => base_type.clone(),
        },
        _ => c.display.clone(),
    };
    if array {
        text::concat(scalar.as_str(), "[]")
    } else {
        scalar
    }
}

/// The type that a user-defined type is cast as when it is assigned.
pub fn user_type_assignment_cast_type(c: &UserTypeColumn) -> (r: String)
    ensures
        r@ == cast_type(*c, c.array),
{
    assignment_cast_type(c, c.array)
}

/// The type that a column is cast as when it is assigned.
pub open spec fn column_cast_type(c: SchemaColumn) -> Seq<char> {
    match c.user_type {
        Some(t) => cast_type(t, t.array),
        None => c.pg_type@,
    }
}

pub fn column_assignment_cast_type(c: &SchemaColumn) -> (r: String)
    ensures
        r@ == column_cast_type(*c),
{
    match &c.user_type {
        Some(t) => user_type_assignment_cast_type(t),
        None => c.pg_type.clone(),
    }
}

/// Whether one type can be cast to another, as far as it has been asked.
#[derive(Debug)]
pub struct CastRule {
    pub source: String,
    pub target: String,
}

/// Whether the rules allow a cast.
pub open spec fn cast_allowed(rules: Seq<CastRule>, source: Seq<char>, target: Seq<char>) -> bool {
    exists|k: int|
        0 <= k < rules.len() && (#[trigger] rules[k]).source@ == source && rules[k].target@
            == target
}

fn allows(rules: &Vec<CastRule>, source: &str, target: &str) -> (r: bool)
    ensures
        r == cast_allowed(rules@, source@, target@),
{
    let mut i: usize = 0;
    while i < rules.len()
        invariant
            i <= rules.len(),
            forall|k: int|
                0 <= k < i ==> !((#[trigger] rules@[k]).source@ == source@ && rules@[k].target@
                    == target@),
        decreases rules.len() - i,
    {
        if text::text_eq(rules[i].source.as_str(), source) && text::text_eq(
            rules[i].target.as_str(),
            target,
        ) {
            return true;
        }
        i = i + 1;
    }
    false
}

/// Whether a column's values can be assigned to another. The rules are those for
/// casts in assignments.
pub fn column_assignment_cast_allowed(
    source: &SchemaColumn,
    target: &SchemaColumn,
    rules: &Vec<CastRule>,
) -> (r: bool)
    ensures
        r == (source.type_oid == target.type_oid || cast_allowed(
            rules@,
            column_cast_type(*source),
            column_cast_type(*target),
        )),
{
    if source.type_oid == target.type_oid {
        return true;
    }
    let from = column_assignment_cast_type(source);
    let to = column_assignment_cast_type(target);
    allows(rules, from.as_str(), to.as_str())
}

/// Whether a modifier admits all values that another does: a character type that
/// is not shorter, or a numeric one of the same scale that is not less precise.
pub open spec fn widens(source: Option<TypeModifier>, target: Option<TypeModifier>) -> bool {
    match (source, target) {
        (
            Some(TypeModifier::Character { length: a }),
            Some(TypeModifier::Character { length: b }),
        ) => b >= a,
        (
            Some(TypeModifier::Numeric { precision: p, scale: s }),
            Some(TypeModifier::Numeric { precision: q, scale: t }),
        ) => q >= p && t == s,
        _ => false,
    }
}

/// Whether changing the type of a column changes its values.
pub open spec fn needs_rewrite(source: SchemaColumn, target: SchemaColumn) -> bool {
    source.type_oid != target.type_oid || (!(type_references::modifier_view(source.type_modifier)
        == type_references::modifier_view(target.type_modifier) && source.vector_dim
        == target.vector_dim) && !widens(source.type_modifier, target.type_modifier))
}

fn modifier_widens(source: &Option<TypeModifier>, target: &Option<TypeModifier>) -> (r: bool)
    ensures
        r == widens(*source, *target),
{
    match (source, target) {
        (
            Some(TypeModifier::Character { length: a }),
            Some(TypeModifier::Character { length: b }),
        ) => *b >= *a,
        (
            Some(TypeModifier::Numeric { precision: p, scale: s }),
            Some(TypeModifier::Numeric { precision: q, scale: t }),
        ) => *q >= *p && *t == *s,
        _ => false,
    }
}

/// Whether changing the type of a column changes its values.
pub fn column_type_change_requires_rewrite(source: &SchemaColumn, target: &SchemaColumn) -> (r: bool)
    ensures
        r == needs_rewrite(*source, *target),
{
    if source.type_oid != target.type_oid {
        return true;
    }
    let same_dim = match (source.vector_dim, target.vector_dim) {
        (Some(a), Some(b)) => a == b,
        (None, None) => true,
        _ => false,
    };
    if same_dim && type_references::same_modifier(&source.type_modifier, &target.type_modifier) {
        return false;
    }
    !modifier_widens(&source.type_modifier, &target.type_modifier)
}

/// Widening a column twice needs no more rewriting than widening it once: what
/// widens in two steps widens in one.
pub proof fn law_widens_transitive(
    a: Option<TypeModifier>,
    b: Option<TypeModifier>,
    c: Option<TypeModifier>,
)
    requires
        widens(a, b),
        widens(b, c),
    ensures
        widens(a, c),
{
}

pub open spec fn foreign_key_type_error(
    constraint: Seq<char>,
    local_name: Seq<char>,
    referred_name: Seq<char>,
    local_type: Seq<char>,
    referred_type: Seq<char>,
) -> error::ErrorView {
    error::data_exception_error(
        "42804"@,
        "foreign key constraint \""@ + constraint + "\" cannot be implemented: key columns \""@
            + local_name + "\" and \""@ + referred_name + "\" are of incompatible types: "@
            + local_type + " and "@ + referred_type,
        Some(constraint),
    )
}

/// Whether the columns of a foreign key can be compared. The rules are those for
/// implicit casts.
pub open spec fn comparable(local: SchemaColumn, referred: SchemaColumn, rules: Seq<CastRule>) -> bool {
    ||| local.type_oid == referred.type_oid
    ||| cast_allowed(rules, column_cast_type(local), column_cast_type(referred))
    ||| cast_allowed(rules, column_cast_type(referred), column_cast_type(local))
}

/// Refuses a foreign key between columns that cannot be compared.
pub fn validate_foreign_key_type_pair(
    constraint: &str,
    local_name: &str,
    local: &SchemaColumn,
    referred_name: &str,
    referred: &SchemaColumn,
    rules: &Vec<CastRule>,
) -> (r: Result<(), SqlError>)
    ensures
        match r {
            Ok(()) => comparable(*local, *referred, rules@),
            Err(e) => !comparable(*local, *referred, rules@) && e@ == foreign_key_type_error(
                constraint@,
                local_name@,
                referred_name@,
                local.display@,
                referred.display@,
            ),
        },
{
    let local_type = column_assignment_cast_type(local);
    let referred_type = column_assignment_cast_type(referred);
    if local.type_oid == referred.type_oid || allows(
        rules,
        local_type.as_str(),
        referred_type.as_str(),
    ) || allows(rules, referred_type.as_str(), local_type.as_str()) {
        return Ok(());
    }
    let a = text::concat3(
        "foreign key constraint \"",
        constraint,
        "\" cannot be implemented: key columns \"",
    );
    let b = text::concat3(a.as_str(), local_name, "\" and \"");
    let c = text::concat3(b.as_str(), referred_name, "\" are of incompatible types: ");
    let d = text::concat3(c.as_str(), local.display.as_str(), " and ");
    Err(
        SqlError::data_exception(
            "42804",
            text::concat(d.as_str(), referred.display.as_str()),
            Some(constraint.to_owned()),
        ),
    )
}

/// The attribute that a column is in a composite type.
pub open spec fn as_attribute(c: SchemaColumn) -> type_references::AttributeView {
    type_references::AttributeView {
        name: c.name@,
        pg_type: c.pg_type@,
        user_type: match c.user_type {
            Some(t) => Some(type_references::column_view(t)),
            None => None,
        },
        collation: error::view_option(c.collation),
        modifier: type_references::modifier_view(c.type_modifier),
        array_ndims: c.array_ndims,
        dropped: false,
    }
}

/// The attribute that a column is in a composite type.
pub fn composite_attribute_from_column_schema(c: &SchemaColumn) -> (r: CompositeAttribute)
    ensures
        type_references::attribute_view(r) == as_attribute(*c),
{
    CompositeAttribute {
        name: c.name.clone(),
        pg_type: c.pg_type.clone(),
        user_type: match &c.user_type {
            Some(t) => Some(type_references::copy_column(t)),
            None => None,
        },
        collation: guc::copied_option(&c.collation),
        type_modifier: type_references::copy_modifier(&c.type_modifier),
        array_ndims: c.array_ndims,
        dropped: false,
    }
}

/// A table and its columns. The names of its row type as they are displayed are
/// those of one row and of an array.
#[derive(Debug)]
pub struct TableSchema {
    pub name: String,
    pub schema_name: String,
    pub owner: Option<String>,
    pub row_type_oid: i64,
    pub row_array_type_oid: i64,
    pub row_display: String,
    pub row_array_display: String,
    pub columns: Vec<SchemaColumn>,
}

/// The attributes of the rows of a table: its columns that are not hidden.
pub open spec fn row_attributes(columns: Seq<SchemaColumn>) -> Seq<type_references::AttributeView>
    decreases columns.len(),
{
    if columns.len() == 0 {
        Seq::empty()
    } else {
        let before = row_attributes(columns.drop_last());
        if columns.last().hidden {
            before
        } else {
            before.push(as_attribute(columns.last()))
        }
    }
}

fn attributes_of_row(columns: &Vec<SchemaColumn>) -> (r: Vec<CompositeAttribute>)
    ensures
        type_references::attribute_views(r@) == row_attributes(columns@),
{
    let mut out: Vec<CompositeAttribute> = Vec::new();
    let mut i: usize = 0;
    while i < columns.len()
        invariant
            i <= columns.len(),
            type_references::attribute_views(out@) == row_attributes(columns@.take(i as int)),
        decreases columns.len() - i,
    {
        assert(columns@.take(i + 1).drop_last() =~= columns@.take(i as int));
        assert(columns@.take(i + 1).last() == columns@[i as int]);
        let ghost prior = out@;
        if !columns[i].hidden {
            out.push(composite_attribute_from_column_schema(&columns[i]));
            assert(out@.drop_last() =~= prior);
        }
        i = i + 1;
    }
    assert(columns@.take(columns@.len() as int) =~= columns@);
    out
}

/// The composite type that the rows of a table have.
pub fn table_row_type_schema(schema: &TableSchema) -> (r: UserType)
    ensures
        r.name@ == schema.name@,
        r.schema_name@ == schema.schema_name@,
        r.owner@ == (match error::view_option(schema.owner) {
            Some(owner) => owner,
            None => roles::bootstrap_role(),
        }),
        r.comment is None,
        !r.acl_explicit,
        r.oid == schema.row_type_oid,
        r.array_oid == schema.row_array_type_oid,
        r.display@ == schema.row_display@,
        r.array_display@ == schema.row_array_display@,
        type_references::kind_view(r.kind) == (type_references::KindView::Composite {
            relation_oid: 0,
            attributes: row_attributes(schema.columns@),
        }),
{
    UserType {
        name: schema.name.clone(),
        schema_name: schema.schema_name.clone(),
        owner: match &schema.owner {
            Some(owner) => owner.clone(),
            None => roles::current_role_name(),
        },
        comment: None,
        acl_explicit: false,
        oid: schema.row_type_oid,
        array_oid: schema.row_array_type_oid,
        display: schema.row_display.clone(),
        array_display: schema.row_array_display.clone(),
        kind: UserTypeKind::Composite {
            relation_oid: 0,
            attributes: attributes_of_row(&schema.columns),
        },
    }
}

/// The row type of a table as a column has it.
pub fn table_row_type_column(schema: &TableSchema, array: bool) -> (r: UserTypeColumn)
    ensures
        type_references::column_view(r) == (type_references::ColumnView {
            oid: schema.row_type_oid,
            array_oid: schema.row_array_type_oid,
            array,
            display: schema.row_display@,
            array_display: schema.row_array_display@,
            kind: type_references::KindView::Composite {
                relation_oid: 0,
                attributes: row_attributes(schema.columns@),
            },
        }),
{
    let t = table_row_type_schema(schema);
    type_references::column_type(&t, array)
}

/// The schema and the name of a type, without the quotes round them.
pub open spec fn schema_and_name(written: Seq<char>) -> (Seq<char>, Seq<char>) {
    match dotted::split_last_dot(written) {
        Some((schema, name)) => (text::strip(schema, '"'), text::strip(name, '"')),
        None => ("public"@, text::strip(written, '"')),
    }
}

/// What separates the elements of arrays of a type that is named: a user-defined
/// type, or else a built-in one, whose separator is given where it has one.
pub fn pg_type_delimiter_with_db(
    types: &Vec<UserType>,
    written: &str,
    builtin: Option<char>,
) -> (r: char)
    ensures
        r == ({
            let (schema, name) = schema_and_name(written@);
            match user_types::type_named(types@, schema, name, 0) {
                Some(at) => user_types::delimiter(types@[at].kind),
                None => match builtin {
                    Some(c) => c,
                    None => ',',
                },
            }
        }),
{
    let (schema, name) = match dotted::rsplit_once_dot(written) {
        Some((a, b)) => (text::stripped(a.as_str(), '"'), text::stripped(b.as_str(), '"')),
        None => ("public".to_owned(), text::stripped(written, '"')),
    };
    match user_types::load_user_type(types, schema.as_str(), name.as_str()) {
        Some(t) => user_types::user_type_delimiter(&t.kind),
        None => match builtin {
            Some(c) => c,
            None => ',',
        },
    }
}

/// What the name of a constraint says of a domain that is not null: nothing, that
/// it is without a name, or its name.
pub open spec fn marker_name(name: Seq<char>, marker: Seq<char>) -> Option<Option<Seq<char>>> {
    if name == marker {
        Some(None)
    } else if text::starts_with(name, marker + "::"@) {
        Some(Some(name.skip((marker + "::"@).len() as int)))
    } else {
        None
    }
}

/// What the name of a constraint says of a domain that is not null.
pub fn domain_not_null_marker_name(name: &str, marker: &str) -> (r: Option<Option<String>>)
    ensures
        match (r, marker_name(name@, marker@)) {
            (Some(Some(a)), Some(Some(b))) => a@ == b,
            (Some(None), Some(None)) => true,
            (None, None) => true,
            _ => false,
        },
{
    if text::text_eq(name, marker) {
        return Some(None);
    }
    let prefix = text::concat(marker, "::");
    match text::without_prefix(name, prefix.as_str()) {
        Some(rest) => Some(Some(rest)),
        None => None,
    }
}

} // verus!
