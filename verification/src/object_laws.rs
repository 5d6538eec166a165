//! What frames, owners, keys, casts and type definitions are, stated of their parts.
use vstd::prelude::*;
use crate::ast::{Expr, ExprKind, Function, GroupByExpr, OrderBy, OrderByExpr, Query, Select,
    SelectItem};
use crate::authority;
use crate::authority::RelationOwner;
use crate::catalog;
use crate::column_types;
use crate::column_types::SchemaColumn;
use crate::distinct_keys;
use crate::distinct_keys::DistinctValue;
use crate::filters;
use crate::filters::{FilterExpr, FilterShape};
use crate::guc;
use crate::oid_filters;
use crate::privileges;
use crate::privileges::{GrantView, PrivilegeObjectType, RoutinePrivileges, TypePrivileges};
use crate::roles;
use crate::roles::{Argument, RoleCatalog};
use crate::rows;
use crate::schema_laws;
use crate::settings;
use crate::shape;
use crate::shape::TableReference;
use crate::slot_rows;
use crate::slot_rows::IndexEntry;
use crate::text;
use crate::type_definitions;
use crate::type_definitions::{BaseTypeOption, RangeSubtype, RangeTypeOption};
use crate::user_types;
use crate::user_types::{UserType, UserTypeColumn, UserTypeKind};
use crate::virtual_tables;
use crate::virtual_tables::{NamespaceInfo, TypeComment};
use crate::windows;

verus! {

/// The buckets of NTILE take up the rows in order and without gaps. They are of the
/// same size but that the first of them may have one row more.
pub proof fn law_buckets(b: int, rows: int, buckets: int)
    requires
        0 < buckets,
        0 <= rows,
        1 <= b <= buckets,
    ensures
        rows::bucket_start(1, rows, buckets) == 0,
        rows::bucket_start(buckets + 1, rows, buckets) == rows,
        ({
            let size = rows::bucket_start(b + 1, rows, buckets) - rows::bucket_start(
                b,
                rows,
                buckets,
            );
            let least = rows::bucket_start(buckets + 1, rows, buckets) - rows::bucket_start(
                buckets,
                rows,
                buckets,
            );
            &&& least <= size <= least + 1
            &&& size == least + 1 <==> b <= rows % buckets
        }),
{
    let q = rows / buckets;
    vstd::arithmetic::div_mod::lemma_fundamental_div_mod(rows, buckets);
    assert(0 <= rows % buckets < buckets);
    assert(b * q == (b - 1) * q + q) by (nonlinear_arith);
    assert(buckets * q == (buckets - 1) * q + q) by (nonlinear_arith);
    assert(0 * q == 0);
}

/// A row is in a frame exactly where it lies between the two ends, both included.
pub proof fn law_frame(p: int, start: int, end: int)
    ensures
        rows::in_frame(p, start, end) <==> p >= start && !(p > end),
        start <= end ==> rows::in_frame(start, start, end) && rows::in_frame(end, start, end),
        !rows::in_frame(start - 1, start, end) && !rows::in_frame(end + 1, start, end),
{
}

/// Every role owns what is its own, and a superuser owns everything. Whoever owns an
/// object as another does so by inheriting from its owner.
pub proof fn law_owners(c: RoleCatalog, gucs: Map<Seq<char>, Seq<char>>, owner: Seq<char>)
    ensures
        text::lower(roles::current_user(gucs)) == text::lower(owner) ==> authority::owns(
            c,
            gucs,
            owner,
        ),
        roles::is_superuser(roles::role_views(c.roles@), roles::current_user(gucs))
            ==> authority::owns(c, gucs, owner),
        authority::owns(c, gucs, owner) ==> authority::has_superuser(c, roles::current_user(gucs))
            || text::lower(roles::current_user(gucs)) == text::lower(owner) || roles::reaches(
            roles::membership_views(c.memberships@),
            roles::role_views(c.roles@),
            roles::Expansion::Inherit,
            roles::current_user(gucs),
            roles::normal_role(owner),
        ),
        authority::may_hand_over(c, gucs, owner) <==> authority::has_superuser(
            c,
            roles::current_user(gucs),
        ) || roles::reaches(
            roles::membership_views(c.memberships@),
            roles::role_views(c.roles@),
            roles::Expansion::ActAs,
            roles::current_user(gucs),
            roles::normal_role(owner),
        ),
{
}

/// A relation without an owner of its own is the bootstrap role's, and what is not there
/// is nobody's.
pub proof fn law_relation_owner(relation: RelationOwner)
    ensures
        authority::owner_of(relation) is None <==> relation is Missing,
        relation == RelationOwner::Table(None) || relation == RelationOwner::Query(None)
            ==> authority::owner_of(relation) == Some(roles::bootstrap_role()),
        relation matches RelationOwner::Table(Some(owner)) ==> authority::owner_of(relation)
            == Some(owner@),
        relation matches RelationOwner::Query(Some(owner)) ==> authority::owner_of(relation)
            == Some(owner@),
{
}

/// DISTINCT tells two values apart exactly where they differ: in kind, in what they
/// hold, or in one of their fields.
pub proof fn law_told_apart(a: DistinctValue, b: DistinctValue)
    ensures
        ({
            let same = distinct_keys::distinct_key(a) == distinct_keys::distinct_key(b);
            match (a, b) {
                (DistinctValue::Null, DistinctValue::Null) => same,
                (DistinctValue::Bool(x), DistinctValue::Bool(y)) => same == (x == y),
                (DistinctValue::Int(x), DistinctValue::Int(y)) => same == (x == y),
                (DistinctValue::Float(x), DistinctValue::Float(y)) => same == (
                distinct_keys::float_key(x) == distinct_keys::float_key(y)),
                (DistinctValue::Text(x), DistinctValue::Text(y)) => same == (x@ == y@),
                (DistinctValue::TsQuery(x), DistinctValue::TsQuery(y)) => same == (x@ == y@),
                (DistinctValue::Json(x), DistinctValue::Json(y)) => same == (x@ == y@),
                (DistinctValue::Geometry(x), DistinctValue::Geometry(y)) => same == (x@ == y@),
                (DistinctValue::Composite(x), DistinctValue::Composite(y)) => same == (x@.len()
                    == y@.len() && forall|k: int|
                    0 <= k < x@.len() ==> distinct_keys::distinct_key(#[trigger] x@[k])
                        == distinct_keys::distinct_key(y@[k])),
                _ => !same,
            }
        }),
{
    reveal_with_fuel(distinct_keys::distinct_key, 2);
    if let DistinctValue::Composite(x) = a {
        if let DistinctValue::Composite(y) = b {
            lemma_field_keys(x@);
            lemma_field_keys(y@);
            let left = distinct_keys::distinct_keys(x@);
            let right = distinct_keys::distinct_keys(y@);
            if left == right {
                assert forall|k: int| 0 <= k < x@.len() implies distinct_keys::distinct_key(
                    #[trigger] x@[k],
                ) == distinct_keys::distinct_key(y@[k]) by {
                    assert(left[k] == right[k]);
                }
            }
            if x@.len() == y@.len() && forall|k: int|
                0 <= k < x@.len() ==> distinct_keys::distinct_key(#[trigger] x@[k])
                    == distinct_keys::distinct_key(y@[k]) {
                assert forall|k: int| 0 <= k < left.len() implies left[k] == right[k] by {
                    assert(distinct_keys::distinct_key(x@[k]) == distinct_keys::distinct_key(
                        y@[k],
                    ));
                }
                assert(left =~= right);
            }
        }
    }
}

proof fn lemma_field_keys(fields: Seq<DistinctValue>)
    ensures
        distinct_keys::distinct_keys(fields).len() == fields.len(),
        forall|k: int|
            0 <= k < fields.len() ==> #[trigger] distinct_keys::distinct_keys(fields)[k]
                == distinct_keys::distinct_key(fields[k]),
    decreases fields.len(),
{
    reveal_with_fuel(distinct_keys::distinct_keys, 2);
    if fields.len() > 0 {
        let rest = fields.drop_last();
        lemma_field_keys(rest);
        assert forall|k: int| 0 <= k < fields.len() implies #[trigger] distinct_keys::distinct_keys(
            fields,
        )[k] == distinct_keys::distinct_key(fields[k]) by {
            if k < rest.len() {
                assert(distinct_keys::distinct_keys(rest)[k] == distinct_keys::distinct_key(
                    rest[k],
                ));
            }
        }
    }
}

/// A value is assigned as its own type, and one of a domain as what the domain is over,
/// down to a type that is no domain; an array as an array of that.
pub proof fn law_assigned_as(t: UserTypeColumn, column: SchemaColumn)
    ensures
        column_types::cast_type(t, true) == column_types::cast_type(t, false) + "[]"@,
        match t.kind {
            UserTypeKind::Domain { base_type, base_user_type, .. } => match base_user_type {
                Some(base) => column_types::cast_type(t, false) == column_types::cast_type(
                    *base,
                    base.array,
                ),
                None => column_types::cast_type(t, false) == base_type@,
            },
            _ => column_types::cast_type(t, false) == t.display@,
        },
        column.user_type is None ==> column_types::column_cast_type(column) == column.pg_type@,
        column.user_type == Some(t) ==> column_types::column_cast_type(column)
            == column_types::cast_type(t, t.array),
{
}

/// The row type of a table has an attribute for each column that is not hidden, of its
/// name and type, and none that is dropped.
pub proof fn law_row_type(columns: Seq<SchemaColumn>, name: Seq<char>, pg_type: Seq<char>)
    ensures
        (exists|k: int|
            0 <= k < column_types::row_attributes(columns).len()
                && (#[trigger] column_types::row_attributes(columns)[k]).name == name
                && column_types::row_attributes(columns)[k].pg_type == pg_type
                && !column_types::row_attributes(columns)[k].dropped) <==> exists|i: int|
            0 <= i < columns.len() && !(#[trigger] columns[i]).hidden && columns[i].name@ == name
                && columns[i].pg_type@ == pg_type,
        column_types::row_attributes(columns).len() <= columns.len(),
    decreases columns.len(),
{
    if columns.len() > 0 {
        let rest = columns.drop_last();
        law_row_type(rest, name, pg_type);
        let before = column_types::row_attributes(rest);
        let all = column_types::row_attributes(columns);
        let last = columns.len() - 1;
        assert(columns[last] == columns.last());
        assert forall|i: int| 0 <= i < last implies #[trigger] columns[i] == rest[i] by {}
        if exists|k: int|
            0 <= k < all.len() && (#[trigger] all[k]).name == name && all[k].pg_type == pg_type
                && !all[k].dropped {
            let k = choose|k: int|
                0 <= k < all.len() && (#[trigger] all[k]).name == name && all[k].pg_type == pg_type
                    && !all[k].dropped;
            if k < before.len() {
                assert(before[k] == all[k]);
                let i = choose|i: int|
                    0 <= i < rest.len() && !(#[trigger] rest[i]).hidden && rest[i].name@ == name
                        && rest[i].pg_type@ == pg_type;
                assert(columns[i] == rest[i]);
            } else {
                assert(!columns[last].hidden);
            }
        }
        if exists|i: int|
            0 <= i < columns.len() && !(#[trigger] columns[i]).hidden && columns[i].name@ == name
                && columns[i].pg_type@ == pg_type {
            let i = choose|i: int|
                0 <= i < columns.len() && !(#[trigger] columns[i]).hidden && columns[i].name@
                    == name && columns[i].pg_type@ == pg_type;
            if i < last {
                assert(rest[i] == columns[i]);
                let k = choose|k: int|
                    0 <= k < before.len() && (#[trigger] before[k]).name == name
                        && before[k].pg_type == pg_type && !before[k].dropped;
                assert(all[k] == before[k]);
            } else {
                assert(all[before.len() as int].name == name);
            }
        }
    }
}

/// A type goes by its own number and by that of its array: the first type with either is
/// found. Only its own number makes it a row type.
pub proof fn law_numbered_type(types: Seq<UserType>, oid: i64, from: int)
    requires
        0 <= from <= types.len(),
    ensures
        match user_types::type_with(types, oid, from) {
            Some(t) => exists|i: int|
                from <= i < types.len() && #[trigger] types[i] == t && (t.oid == oid || t.array_oid
                    == oid) && forall|k: int|
                    from <= k < i ==> (#[trigger] types[k]).oid != oid && types[k].array_oid != oid,
            None => forall|k: int|
                from <= k < types.len() ==> (#[trigger] types[k]).oid != oid && types[k].array_oid
                    != oid,
        },
        user_types::is_composite(types, oid) ==> exists|i: int|
            0 <= i < types.len() && (#[trigger] types[i]).oid == oid && types[i].kind is Composite,
    decreases types.len() - from,
{
    if from < types.len() {
        law_numbered_type(types, oid, from + 1);
        if types[from].oid == oid || types[from].array_oid == oid {
            assert(types[from] == types[from]);
        } else if let Some(t) = user_types::type_with(types, oid, from + 1) {
            let i = choose|i: int|
                from + 1 <= i < types.len() && #[trigger] types[i] == t && (t.oid == oid
                    || t.array_oid == oid) && forall|k: int|
                    from + 1 <= k < i ==> (#[trigger] types[k]).oid != oid && types[k].array_oid
                        != oid;
            assert(types[i] == t);
        }
    }
    lemma_type_there(types, oid, 0);
}

proof fn lemma_type_there(types: Seq<UserType>, oid: i64, from: int)
    ensures
        user_types::type_with(types, oid, from) matches Some(t) ==> exists|i: int|
            0 <= i < types.len() && #[trigger] types[i] == t,
    decreases types.len() - from,
{
    if 0 <= from < types.len() {
        lemma_type_there(types, oid, from + 1);
        assert(types[from] == types[from]);
    }
}

proof fn lemma_range_names()
    ensures
        "int4"@.len() == 4 && "int4"@[3] == '4',
        "int8"@.len() == 4 && "int8"@[3] == '8',
        "numeric"@.len() == 7 && "numeric"@[0] == 'n',
        "date"@.len() == 4 && "date"@[3] == 'e',
        "timestamp"@.len() == 9 && "timestamp"@[0] == 't' && "timestamp"@[1] == 'i',
        "timestamptz"@.len() == 11,
        "int4range"@.len() == 9 && "int4range"@[0] == 'i' && "int4range"@[3] == '4',
        "int8range"@.len() == 9 && "int8range"@[0] == 'i' && "int8range"@[3] == '8',
        "numrange"@.len() == 8,
        "daterange"@.len() == 9 && "daterange"@[0] == 'd',
        "tsrange"@.len() == 7 && "tsrange"@[0] == 't',
        "tstzrange"@.len() == 9 && "tstzrange"@[0] == 't' && "tstzrange"@[1] == 's',
{
    reveal_strlit("int4");
    reveal_strlit("int8");
    reveal_strlit("numeric");
    reveal_strlit("date");
    reveal_strlit("timestamp");
    reveal_strlit("timestamptz");
    reveal_strlit("int4range");
    reveal_strlit("int8range");
    reveal_strlit("numrange");
    reveal_strlit("daterange");
    reveal_strlit("tsrange");
    reveal_strlit("tstzrange");
}

/// Each built-in range is over the type that its name says.
pub proof fn law_ranges_over(a: RangeSubtype, b: RangeSubtype)
    ensures
        type_definitions::builtin_range(a) == type_definitions::builtin_range(b) <==> a == b,
        type_definitions::range_subtype("int4"@) matches Some(s)
            && type_definitions::builtin_range(s)
            == "int4range"@,
        type_definitions::range_subtype("int8"@) matches Some(s)
            && type_definitions::builtin_range(s)
            == "int8range"@,
        type_definitions::range_subtype("numeric"@) matches Some(s)
            && type_definitions::builtin_range(s)
            == "numrange"@,
        type_definitions::range_subtype("date"@) matches Some(s)
            && type_definitions::builtin_range(s)
            == "daterange"@,
        type_definitions::range_subtype("timestamp"@) matches Some(s)
            && type_definitions::builtin_range(s)
            == "tsrange"@,
        type_definitions::range_subtype("timestamptz"@) matches Some(s)
            && type_definitions::builtin_range(s)
            == "tstzrange"@,
        type_definitions::range_subtype(type_definitions::builtin_range(a)) is None,
{
    lemma_range_names();
}

proof fn lemma_base_input(options: Seq<BaseTypeOption>, t: Seq<char>)
    ensures
        type_definitions::base_definition(options) matches Ok(d) ==> (d.input == Some(t)
            <==> exists|i: int|
            0 <= i < options.len() && ((#[trigger] options[i]) matches BaseTypeOption::Input(s)
                && s@ == t)),
    decreases options.len(),
{
    if options.len() > 0 {
        let rest = options.drop_last();
        lemma_base_input(rest, t);
        assert(options[options.len() - 1] == options.last());
        assert forall|i: int| 0 <= i < rest.len() implies #[trigger] options[i] == rest[i] by {}
        if exists|i: int|
            0 <= i < rest.len() && ((#[trigger] rest[i]) matches BaseTypeOption::Input(s)
                && s@ == t) {
            let i = choose|i: int|
                0 <= i < rest.len() && ((#[trigger] rest[i]) matches BaseTypeOption::Input(s)
                    && s@ == t);
            assert(options[i] == rest[i]);
        }
    }
}

proof fn lemma_base_output(options: Seq<BaseTypeOption>, t: Seq<char>)
    ensures
        type_definitions::base_definition(options) matches Ok(d) ==> (d.output == Some(t)
            <==> exists|i: int|
            0 <= i < options.len() && ((#[trigger] options[i]) matches BaseTypeOption::Output(s)
                && s@ == t)),
    decreases options.len(),
{
    if options.len() > 0 {
        let rest = options.drop_last();
        lemma_base_output(rest, t);
        assert(options[options.len() - 1] == options.last());
        assert forall|i: int| 0 <= i < rest.len() implies #[trigger] options[i] == rest[i] by {}
        if exists|i: int|
            0 <= i < rest.len() && ((#[trigger] rest[i]) matches BaseTypeOption::Output(s)
                && s@ == t) {
            let i = choose|i: int|
                0 <= i < rest.len() && ((#[trigger] rest[i]) matches BaseTypeOption::Output(s)
                    && s@ == t);
            assert(options[i] == rest[i]);
        }
    }
}

proof fn lemma_base_receive(options: Seq<BaseTypeOption>, t: Seq<char>)
    ensures
        type_definitions::base_definition(options) matches Ok(d) ==> (d.receive == Some(t)
            <==> exists|i: int|
            0 <= i < options.len()
                && ((#[trigger] options[i]) matches BaseTypeOption::Receive(s) && s@ == t)),
    decreases options.len(),
{
    if options.len() > 0 {
        let rest = options.drop_last();
        lemma_base_receive(rest, t);
        assert(options[options.len() - 1] == options.last());
        assert forall|i: int| 0 <= i < rest.len() implies #[trigger] options[i] == rest[i] by {}
        if exists|i: int|
            0 <= i < rest.len() && ((#[trigger] rest[i]) matches BaseTypeOption::Receive(s)
                && s@ == t) {
            let i = choose|i: int|
                0 <= i < rest.len() && ((#[trigger] rest[i]) matches BaseTypeOption::Receive(s)
                    && s@ == t);
            assert(options[i] == rest[i]);
        }
    }
}

proof fn lemma_base_send(options: Seq<BaseTypeOption>, t: Seq<char>)
    ensures
        type_definitions::base_definition(options) matches Ok(d) ==> (d.send == Some(t)
            <==> exists|i: int|
            0 <= i < options.len() && ((#[trigger] options[i]) matches BaseTypeOption::Send(s)
                && s@ == t)),
    decreases options.len(),
{
    if options.len() > 0 {
        let rest = options.drop_last();
        lemma_base_send(rest, t);
        assert(options[options.len() - 1] == options.last());
        assert forall|i: int| 0 <= i < rest.len() implies #[trigger] options[i] == rest[i] by {}
        if exists|i: int|
            0 <= i < rest.len() && ((#[trigger] rest[i]) matches BaseTypeOption::Send(s)
                && s@ == t) {
            let i = choose|i: int|
                0 <= i < rest.len() && ((#[trigger] rest[i]) matches BaseTypeOption::Send(s)
                    && s@ == t);
            assert(options[i] == rest[i]);
        }
    }
}

proof fn lemma_base_like_type(options: Seq<BaseTypeOption>, t: Seq<char>)
    ensures
        type_definitions::base_definition(options) matches Ok(d) ==> (d.like_type == Some(t)
            <==> exists|i: int|
            0 <= i < options.len() && ((#[trigger] options[i]) matches BaseTypeOption::Like(s)
                && s@ == t)),
    decreases options.len(),
{
    if options.len() > 0 {
        let rest = options.drop_last();
        lemma_base_like_type(rest, t);
        assert(options[options.len() - 1] == options.last());
        assert forall|i: int| 0 <= i < rest.len() implies #[trigger] options[i] == rest[i] by {}
        if exists|i: int|
            0 <= i < rest.len() && ((#[trigger] rest[i]) matches BaseTypeOption::Like(s)
                && s@ == t) {
            let i = choose|i: int|
                0 <= i < rest.len() && ((#[trigger] rest[i]) matches BaseTypeOption::Like(s)
                    && s@ == t);
            assert(options[i] == rest[i]);
        }
    }
}

proof fn lemma_base_default_expr(options: Seq<BaseTypeOption>, t: Seq<char>)
    ensures
        type_definitions::base_definition(options) matches Ok(d) ==> (d.default_expr == Some(t)
            <==> exists|i: int|
            0 <= i < options.len()
                && ((#[trigger] options[i]) matches BaseTypeOption::DefaultExpr(s) && s@ == t)),
    decreases options.len(),
{
    if options.len() > 0 {
        let rest = options.drop_last();
        lemma_base_default_expr(rest, t);
        assert(options[options.len() - 1] == options.last());
        assert forall|i: int| 0 <= i < rest.len() implies #[trigger] options[i] == rest[i] by {}
        if exists|i: int|
            0 <= i < rest.len() && ((#[trigger] rest[i]) matches BaseTypeOption::DefaultExpr(s)
                && s@ == t) {
            let i = choose|i: int|
                0 <= i < rest.len()
                    && ((#[trigger] rest[i]) matches BaseTypeOption::DefaultExpr(s) && s@ == t);
            assert(options[i] == rest[i]);
        }
    }
}

proof fn lemma_base_element_type(options: Seq<BaseTypeOption>, t: Seq<char>)
    ensures
        type_definitions::base_definition(options) matches Ok(d) ==> (d.element_type == Some(t)
            <==> exists|i: int|
            0 <= i < options.len()
                && ((#[trigger] options[i]) matches BaseTypeOption::Element(s) && s@ == t)),
    decreases options.len(),
{
    if options.len() > 0 {
        let rest = options.drop_last();
        lemma_base_element_type(rest, t);
        assert(options[options.len() - 1] == options.last());
        assert forall|i: int| 0 <= i < rest.len() implies #[trigger] options[i] == rest[i] by {}
        if exists|i: int|
            0 <= i < rest.len() && ((#[trigger] rest[i]) matches BaseTypeOption::Element(s)
                && s@ == t) {
            let i = choose|i: int|
                0 <= i < rest.len() && ((#[trigger] rest[i]) matches BaseTypeOption::Element(s)
                    && s@ == t);
            assert(options[i] == rest[i]);
        }
    }
}

proof fn lemma_range_subtype(options: Seq<RangeTypeOption>, t: Seq<char>)
    ensures
        type_definitions::range_definition(options) matches Ok(d) ==> (d.subtype == Some(t)
            <==> exists|i: int|
            0 <= i < options.len()
                && ((#[trigger] options[i]) matches RangeTypeOption::Subtype(s) && s@ == t)),
    decreases options.len(),
{
    if options.len() > 0 {
        let rest = options.drop_last();
        lemma_range_subtype(rest, t);
        assert(options[options.len() - 1] == options.last());
        assert forall|i: int| 0 <= i < rest.len() implies #[trigger] options[i] == rest[i] by {}
        if exists|i: int|
            0 <= i < rest.len() && ((#[trigger] rest[i]) matches RangeTypeOption::Subtype(s)
                && s@ == t) {
            let i = choose|i: int|
                0 <= i < rest.len() && ((#[trigger] rest[i]) matches RangeTypeOption::Subtype(s)
                    && s@ == t);
            assert(options[i] == rest[i]);
        }
    }
}

proof fn lemma_range_subtype_opclass(options: Seq<RangeTypeOption>, t: Seq<char>)
    ensures
        type_definitions::range_definition(options) matches Ok(d) ==> (d.subtype_opclass == Some(t)
            <==> exists|i: int|
            0 <= i < options.len()
                && ((#[trigger] options[i]) matches RangeTypeOption::SubtypeOpclass(s)
                && text::lower(s@) == t)),
    decreases options.len(),
{
    if options.len() > 0 {
        let rest = options.drop_last();
        lemma_range_subtype_opclass(rest, t);
        assert(options[options.len() - 1] == options.last());
        assert forall|i: int| 0 <= i < rest.len() implies #[trigger] options[i] == rest[i] by {}
        if exists|i: int|
            0 <= i < rest.len()
                && ((#[trigger] rest[i]) matches RangeTypeOption::SubtypeOpclass(s)
                && text::lower(s@) == t) {
            let i = choose|i: int|
                0 <= i < rest.len()
                    && ((#[trigger] rest[i]) matches RangeTypeOption::SubtypeOpclass(s)
                && text::lower(s@) == t);
            assert(options[i] == rest[i]);
        }
    }
}

proof fn lemma_range_collation(options: Seq<RangeTypeOption>, t: Seq<char>)
    ensures
        type_definitions::range_definition(options) matches Ok(d) ==> (d.collation == Some(t)
            <==> exists|i: int|
            0 <= i < options.len()
                && ((#[trigger] options[i]) matches RangeTypeOption::Collation(s) && s@ == t)),
    decreases options.len(),
{
    if options.len() > 0 {
        let rest = options.drop_last();
        lemma_range_collation(rest, t);
        assert(options[options.len() - 1] == options.last());
        assert forall|i: int| 0 <= i < rest.len() implies #[trigger] options[i] == rest[i] by {}
        if exists|i: int|
            0 <= i < rest.len() && ((#[trigger] rest[i]) matches RangeTypeOption::Collation(s)
                && s@ == t) {
            let i = choose|i: int|
                0 <= i < rest.len()
                    && ((#[trigger] rest[i]) matches RangeTypeOption::Collation(s) && s@ == t);
            assert(options[i] == rest[i]);
        }
    }
}

proof fn lemma_range_canonical(options: Seq<RangeTypeOption>, t: Seq<char>)
    ensures
        type_definitions::range_definition(options) matches Ok(d) ==> (d.canonical == Some(t)
            <==> exists|i: int|
            0 <= i < options.len()
                && ((#[trigger] options[i]) matches RangeTypeOption::Canonical(s) && s@ == t)),
    decreases options.len(),
{
    if options.len() > 0 {
        let rest = options.drop_last();
        lemma_range_canonical(rest, t);
        assert(options[options.len() - 1] == options.last());
        assert forall|i: int| 0 <= i < rest.len() implies #[trigger] options[i] == rest[i] by {}
        if exists|i: int|
            0 <= i < rest.len() && ((#[trigger] rest[i]) matches RangeTypeOption::Canonical(s)
                && s@ == t) {
            let i = choose|i: int|
                0 <= i < rest.len()
                    && ((#[trigger] rest[i]) matches RangeTypeOption::Canonical(s) && s@ == t);
            assert(options[i] == rest[i]);
        }
    }
}

proof fn lemma_range_subtype_diff(options: Seq<RangeTypeOption>, t: Seq<char>)
    ensures
        type_definitions::range_definition(options) matches Ok(d) ==> (d.subtype_diff == Some(t)
            <==> exists|i: int|
            0 <= i < options.len()
                && ((#[trigger] options[i]) matches RangeTypeOption::SubtypeDiff(s) && s@ == t)),
    decreases options.len(),
{
    if options.len() > 0 {
        let rest = options.drop_last();
        lemma_range_subtype_diff(rest, t);
        assert(options[options.len() - 1] == options.last());
        assert forall|i: int| 0 <= i < rest.len() implies #[trigger] options[i] == rest[i] by {}
        if exists|i: int|
            0 <= i < rest.len() && ((#[trigger] rest[i]) matches RangeTypeOption::SubtypeDiff(s)
                && s@ == t) {
            let i = choose|i: int|
                0 <= i < rest.len()
                    && ((#[trigger] rest[i]) matches RangeTypeOption::SubtypeDiff(s) && s@ == t);
            assert(options[i] == rest[i]);
        }
    }
}

proof fn lemma_range_multirange_name(options: Seq<RangeTypeOption>, t: Seq<char>)
    ensures
        type_definitions::range_definition(options) matches Ok(d) ==> (d.multirange_name == Some(t)
            <==> exists|i: int|
            0 <= i < options.len()
                && ((#[trigger] options[i]) matches RangeTypeOption::MultirangeName(s) && s@ == t)),
    decreases options.len(),
{
    if options.len() > 0 {
        let rest = options.drop_last();
        lemma_range_multirange_name(rest, t);
        assert(options[options.len() - 1] == options.last());
        assert forall|i: int| 0 <= i < rest.len() implies #[trigger] options[i] == rest[i] by {}
        if exists|i: int|
            0 <= i < rest.len()
                && ((#[trigger] rest[i]) matches RangeTypeOption::MultirangeName(s) && s@ == t) {
            let i = choose|i: int|
                0 <= i < rest.len()
                    && ((#[trigger] rest[i]) matches RangeTypeOption::MultirangeName(s) && s@ == t);
            assert(options[i] == rest[i]);
        }
    }
}

/// Where a base type is defined, each of its functions and types is what an option gives
/// it, and there is none where no option does.
pub proof fn law_base_definition(options: Seq<BaseTypeOption>, t: Seq<char>)
    ensures
        type_definitions::base_definition(options) matches Ok(d) ==> ({
            &&& d.input == Some(t) <==> (exists|i: int|
                0 <= i < options.len() && ((#[trigger] options[i]) matches BaseTypeOption::Input(s)
                    && s@ == t))
            &&& d.output == Some(t) <==> (exists|i: int|
                0 <= i < options.len() && ((#[trigger] options[i]) matches BaseTypeOption::Output(s)
                    && s@ == t))
            &&& d.receive == Some(t) <==> (exists|i: int|
                0 <= i < options.len()
                    && ((#[trigger] options[i]) matches BaseTypeOption::Receive(s)
                    && s@ == t))
            &&& d.send == Some(t) <==> (exists|i: int|
                0 <= i < options.len() && ((#[trigger] options[i]) matches BaseTypeOption::Send(s)
                    && s@ == t))
            &&& d.like_type == Some(t) <==> (exists|i: int|
                0 <= i < options.len() && ((#[trigger] options[i]) matches BaseTypeOption::Like(s)
                    && s@ == t))
            &&& d.default_expr == Some(t) <==> (exists|i: int|
                0 <= i < options.len()
                    && ((#[trigger] options[i]) matches BaseTypeOption::DefaultExpr(s)
                    && s@ == t))
            &&& d.element_type == Some(t) <==> (exists|i: int|
                0 <= i < options.len()
                    && ((#[trigger] options[i]) matches BaseTypeOption::Element(s)
                    && s@ == t))
        }),
{
    lemma_base_input(options, t);
    lemma_base_output(options, t);
    lemma_base_receive(options, t);
    lemma_base_send(options, t);
    lemma_base_like_type(options, t);
    lemma_base_default_expr(options, t);
    lemma_base_element_type(options, t);
}

/// Where a range type is defined, each of its parts is what an option gives it, and there
/// is none where no option does.
pub proof fn law_range_definition(options: Seq<RangeTypeOption>, t: Seq<char>)
    ensures
        type_definitions::range_definition(options) matches Ok(d) ==> ({
            &&& d.subtype == Some(t) <==> (exists|i: int|
                0 <= i < options.len()
                    && ((#[trigger] options[i]) matches RangeTypeOption::Subtype(s)
                    && s@ == t))
            &&& d.subtype_opclass == Some(t) <==> (exists|i: int|
                0 <= i < options.len()
                    && ((#[trigger] options[i]) matches RangeTypeOption::SubtypeOpclass(s)
                    && text::lower(s@) == t))
            &&& d.collation == Some(t) <==> (exists|i: int|
                0 <= i < options.len()
                    && ((#[trigger] options[i]) matches RangeTypeOption::Collation(s)
                    && s@ == t))
            &&& d.canonical == Some(t) <==> (exists|i: int|
                0 <= i < options.len()
                    && ((#[trigger] options[i]) matches RangeTypeOption::Canonical(s)
                    && s@ == t))
            &&& d.subtype_diff == Some(t) <==> (exists|i: int|
                0 <= i < options.len()
                    && ((#[trigger] options[i]) matches RangeTypeOption::SubtypeDiff(s)
                    && s@ == t))
            &&& d.multirange_name == Some(t) <==> (exists|i: int|
                0 <= i < options.len()
                    && ((#[trigger] options[i]) matches RangeTypeOption::MultirangeName(s)
                    && s@ == t))
        }),
{
    lemma_range_subtype(options, t);
    lemma_range_subtype_opclass(options, t);
    lemma_range_collation(options, t);
    lemma_range_canonical(options, t);
    lemma_range_subtype_diff(options, t);
    lemma_range_multirange_name(options, t);
}

/// An option that is given again is refused, whatever it gives.
pub proof fn law_option_given_again(
    options: Seq<BaseTypeOption>,
    option: BaseTypeOption,
    ranges: Seq<RangeTypeOption>,
    range: RangeTypeOption,
)
    ensures
        option is Input && (exists|i: int|
            0 <= i < options.len() && (#[trigger] options[i]) is Input)
            ==> type_definitions::base_definition(options.push(option)) is Err,
        option is Output && (exists|i: int|
            0 <= i < options.len() && (#[trigger] options[i]) is Output)
            ==> type_definitions::base_definition(options.push(option)) is Err,
        option is Receive && (exists|i: int|
            0 <= i < options.len() && (#[trigger] options[i]) is Receive)
            ==> type_definitions::base_definition(options.push(option)) is Err,
        option is Send && (exists|i: int| 0 <= i < options.len() && (#[trigger] options[i]) is Send)
            ==> type_definitions::base_definition(options.push(option)) is Err,
        option is Like && (exists|i: int| 0 <= i < options.len() && (#[trigger] options[i]) is Like)
            ==> type_definitions::base_definition(options.push(option)) is Err,
        option is DefaultExpr && (exists|i: int|
            0 <= i < options.len() && (#[trigger] options[i]) is DefaultExpr)
            ==> type_definitions::base_definition(options.push(option)) is Err,
        option is Element && (exists|i: int|
            0 <= i < options.len() && (#[trigger] options[i]) is Element)
            ==> type_definitions::base_definition(options.push(option)) is Err,
        range is Subtype && (exists|i: int|
            0 <= i < ranges.len() && (#[trigger] ranges[i]) is Subtype)
            ==> type_definitions::range_definition(ranges.push(range)) is Err,
        range is SubtypeOpclass && (exists|i: int|
            0 <= i < ranges.len() && (#[trigger] ranges[i]) is SubtypeOpclass)
            ==> type_definitions::range_definition(ranges.push(range)) is Err,
        range is Collation && (exists|i: int|
            0 <= i < ranges.len() && (#[trigger] ranges[i]) is Collation)
            ==> type_definitions::range_definition(ranges.push(range)) is Err,
        range is Canonical && (exists|i: int|
            0 <= i < ranges.len() && (#[trigger] ranges[i]) is Canonical)
            ==> type_definitions::range_definition(ranges.push(range)) is Err,
        range is SubtypeDiff && (exists|i: int|
            0 <= i < ranges.len() && (#[trigger] ranges[i]) is SubtypeDiff)
            ==> type_definitions::range_definition(ranges.push(range)) is Err,
        range is MultirangeName && (exists|i: int|
            0 <= i < ranges.len() && (#[trigger] ranges[i]) is MultirangeName)
            ==> type_definitions::range_definition(ranges.push(range)) is Err,
{
    assert(options.push(option).drop_last() =~= options);
    assert(ranges.push(range).drop_last() =~= ranges);
    if exists|i: int| 0 <= i < options.len() && (#[trigger] options[i]) is Input {
        let i = choose|i: int| 0 <= i < options.len() && (#[trigger] options[i]) is Input;
        if let BaseTypeOption::Input(s) = options[i] {
            lemma_base_input(options, s@);
        }
    }
    if exists|i: int| 0 <= i < options.len() && (#[trigger] options[i]) is Output {
        let i = choose|i: int| 0 <= i < options.len() && (#[trigger] options[i]) is Output;
        if let BaseTypeOption::Output(s) = options[i] {
            lemma_base_output(options, s@);
        }
    }
    if exists|i: int| 0 <= i < options.len() && (#[trigger] options[i]) is Receive {
        let i = choose|i: int| 0 <= i < options.len() && (#[trigger] options[i]) is Receive;
        if let BaseTypeOption::Receive(s) = options[i] {
            lemma_base_receive(options, s@);
        }
    }
    if exists|i: int| 0 <= i < options.len() && (#[trigger] options[i]) is Send {
        let i = choose|i: int| 0 <= i < options.len() && (#[trigger] options[i]) is Send;
        if let BaseTypeOption::Send(s) = options[i] {
            lemma_base_send(options, s@);
        }
    }
    if exists|i: int| 0 <= i < options.len() && (#[trigger] options[i]) is Like {
        let i = choose|i: int| 0 <= i < options.len() && (#[trigger] options[i]) is Like;
        if let BaseTypeOption::Like(s) = options[i] {
            lemma_base_like_type(options, s@);
        }
    }
    if exists|i: int| 0 <= i < options.len() && (#[trigger] options[i]) is DefaultExpr {
        let i = choose|i: int| 0 <= i < options.len() && (#[trigger] options[i]) is DefaultExpr;
        if let BaseTypeOption::DefaultExpr(s) = options[i] {
            lemma_base_default_expr(options, s@);
        }
    }
    if exists|i: int| 0 <= i < options.len() && (#[trigger] options[i]) is Element {
        let i = choose|i: int| 0 <= i < options.len() && (#[trigger] options[i]) is Element;
        if let BaseTypeOption::Element(s) = options[i] {
            lemma_base_element_type(options, s@);
        }
    }
    if exists|i: int| 0 <= i < ranges.len() && (#[trigger] ranges[i]) is Subtype {
        let i = choose|i: int| 0 <= i < ranges.len() && (#[trigger] ranges[i]) is Subtype;
        if let RangeTypeOption::Subtype(s) = ranges[i] {
            lemma_range_subtype(ranges, s@);
        }
    }
    if exists|i: int| 0 <= i < ranges.len() && (#[trigger] ranges[i]) is SubtypeOpclass {
        let i = choose|i: int| 0 <= i < ranges.len() && (#[trigger] ranges[i]) is SubtypeOpclass;
        if let RangeTypeOption::SubtypeOpclass(s) = ranges[i] {
            lemma_range_subtype_opclass(ranges, text::lower(s@));
        }
    }
    if exists|i: int| 0 <= i < ranges.len() && (#[trigger] ranges[i]) is Collation {
        let i = choose|i: int| 0 <= i < ranges.len() && (#[trigger] ranges[i]) is Collation;
        if let RangeTypeOption::Collation(s) = ranges[i] {
            lemma_range_collation(ranges, s@);
        }
    }
    if exists|i: int| 0 <= i < ranges.len() && (#[trigger] ranges[i]) is Canonical {
        let i = choose|i: int| 0 <= i < ranges.len() && (#[trigger] ranges[i]) is Canonical;
        if let RangeTypeOption::Canonical(s) = ranges[i] {
            lemma_range_canonical(ranges, s@);
        }
    }
    if exists|i: int| 0 <= i < ranges.len() && (#[trigger] ranges[i]) is SubtypeDiff {
        let i = choose|i: int| 0 <= i < ranges.len() && (#[trigger] ranges[i]) is SubtypeDiff;
        if let RangeTypeOption::SubtypeDiff(s) = ranges[i] {
            lemma_range_subtype_diff(ranges, s@);
        }
    }
    if exists|i: int| 0 <= i < ranges.len() && (#[trigger] ranges[i]) is MultirangeName {
        let i = choose|i: int| 0 <= i < ranges.len() && (#[trigger] ranges[i]) is MultirangeName;
        if let RangeTypeOption::MultirangeName(s) = ranges[i] {
            lemma_range_multirange_name(ranges, s@);
        }
    }
}

proof fn lemma_namespace_names()
    ensures
        "oid"@.len() == 3,
        "nspname"@.len() == 7,
        "nspowner"@.len() == 8,
        "nspacl"@.len() == 6,
{
    reveal_strlit("oid");
    reveal_strlit("nspname");
    reveal_strlit("nspowner");
    reveal_strlit("nspacl");
}

proof fn lemma_description_names()
    ensures
        "objoid"@.len() == 6,
        "classoid"@.len() == 8 && "classoid"@[0] == 'c',
        "objsubid"@.len() == 8 && "objsubid"@[0] == 'o',
        "description"@.len() == 11,
{
    reveal_strlit("objoid");
    reveal_strlit("classoid");
    reveal_strlit("objsubid");
    reveal_strlit("description");
}

/// A schema is shown with its number, its name, its owner and its access list.
pub proof fn law_namespace_shown(n: NamespaceInfo)
    ensures
        ({
            let row = virtual_tables::namespace_row(n);
            &&& schema_laws::shows_int(row, "oid"@, n.oid as int)
            &&& schema_laws::shows(row, "nspname"@, n.name@)
            &&& schema_laws::shows_int(row, "nspowner"@, n.owner as int)
            &&& schema_laws::shows_if_any(row, "nspacl"@, n.acl)
        }),
{
    lemma_namespace_names();
    reveal_with_fuel(catalog::cell_named, 6);
    let row = virtual_tables::namespace_row(n);
    assert(catalog::cell_named(row, "oid"@, 0) == Some(row[0].1));
    assert(catalog::cell_named(row, "nspowner"@, 0) == Some(row[2].1));
}

/// There is a description for each type that has a comment, which is that comment, and
/// for no other.
pub proof fn law_descriptions(types: Seq<TypeComment>, oid: i64, comment: Seq<char>)
    ensures
        (exists|k: int|
            0 <= k < virtual_tables::description_rows(types).len() && schema_laws::shows(
                #[trigger] virtual_tables::description_rows(types)[k],
                "description"@,
                comment,
            ) && schema_laws::shows_int(
                virtual_tables::description_rows(types)[k],
                "objoid"@,
                oid as int,
            )) <==> exists|i: int|
            0 <= i < types.len() && (#[trigger] types[i]).oid == oid && (
            types[i].comment matches Some(c) && c@ == comment),
    decreases types.len(),
{
    lemma_description_names();
    reveal_with_fuel(catalog::cell_named, 6);
    if types.len() > 0 {
        let rest = types.drop_last();
        law_descriptions(rest, oid, comment);
        let before = virtual_tables::description_rows(rest);
        let all = virtual_tables::description_rows(types);
        let last = types.len() - 1;
        assert(types[last] == types.last());
        assert forall|i: int| 0 <= i < last implies #[trigger] types[i] == rest[i] by {}
        if let Some(c) = types.last().comment {
            let row = all[before.len() as int];
            assert(catalog::cell_named(row, "objoid"@, 0) == Some(row[0].1));
            assert(catalog::cell_named(row, "description"@, 0) == Some(row[3].1));
            assert(schema_laws::shows(row, "description"@, c@));
            assert(schema_laws::shows_int(row, "objoid"@, types.last().oid as int));
        }
        if exists|k: int|
            0 <= k < all.len() && schema_laws::shows(#[trigger] all[k], "description"@, comment)
                && schema_laws::shows_int(all[k], "objoid"@, oid as int) {
            let k = choose|k: int|
                0 <= k < all.len() && schema_laws::shows(#[trigger] all[k], "description"@, comment)
                    && schema_laws::shows_int(all[k], "objoid"@, oid as int);
            if k < before.len() {
                assert(before[k] == all[k]);
                let i = choose|i: int|
                    0 <= i < rest.len() && (#[trigger] rest[i]).oid == oid && (
                    rest[i].comment matches Some(c) && c@ == comment);
                assert(types[i] == rest[i]);
            } else {
                assert(types[last].oid == oid);
            }
        }
        if exists|i: int|
            0 <= i < types.len() && (#[trigger] types[i]).oid == oid && (
            types[i].comment matches Some(c) && c@ == comment) {
            let i = choose|i: int|
                0 <= i < types.len() && (#[trigger] types[i]).oid == oid && (
                types[i].comment matches Some(c) && c@ == comment);
            if i < last {
                assert(rest[i] == types[i]);
                let k = choose|k: int|
                    0 <= k < before.len() && schema_laws::shows(
                        #[trigger] before[k],
                        "description"@,
                        comment,
                    ) && schema_laws::shows_int(before[k], "objoid"@, oid as int);
                assert(all[k] == before[k]);
            } else {
                assert(schema_laws::shows(all[before.len() as int], "description"@, comment));
            }
        }
    }
}

/// Rows are grouped by the expressions of GROUP BY where it has no modifiers, and else
/// the query is refused.
pub proof fn law_grouped_by(group_by: GroupByExpr)
    ensures
        windows::grouping(group_by) is Ok <==> (group_by matches GroupByExpr::Expressions(_, m) && m
            == 0),
        windows::grouping(group_by) matches Ok(found) ==> (group_by matches GroupByExpr::Expressions(
            exprs,
            _,
        ) && found == exprs@),
{
}

/// Every aggregate in what a query selects, in HAVING and in ORDER BY is among those that
/// are evaluated for it, under its text.
pub proof fn law_aggregates_of_query(select: Select, query: Query, f: Function, i: int)
    ensures
        windows::aggregates_of_query(select, query) matches Ok(found) ==> ({
            &&& 0 <= i < select.projection@.len()
                && (select.projection@[i] matches SelectItem::UnnamedExpr(
                e,
            ) && windows::group_aggregate_functions(e).contains(f)) ==> windows::has_text(
                found,
                f.text@,
            )
            &&& 0 <= i < select.projection@.len()
                && (select.projection@[i] matches SelectItem::ExprWithAlias {
                expr,
                ..
            } && windows::group_aggregate_functions(expr).contains(f)) ==> windows::has_text(
                found,
                f.text@,
            )
            &&& (select.having matches Some(e) && windows::group_aggregate_functions(e).contains(f))
                ==> windows::has_text(found, f.text@)
            &&& (query.order_by matches Some(OrderBy::Expressions(order)) && 0 <= i < order@.len()
                && windows::group_aggregate_functions(order@[i].expr).contains(f))
                ==> windows::has_text(found, f.text@)
        }),
{
    if let Ok(found) = windows::aggregates_of_query(select, query) {
        let items = windows::aggregates_in_items(select.projection@);
        let having = match select.having {
            Some(having) => windows::group_aggregate_functions(having),
            None => Seq::empty(),
        };
        let ordering = match query.order_by {
            Some(OrderBy::Expressions(order)) => windows::aggregates_in_order(order@),
            _ => Seq::empty(),
        };
        let fs = windows::windows_of_query(select, query)->Ok_0;
        let more = windows::aggregates_in_windows(fs, select.named_window@, fs.len() as int)->Ok_0;
        let all = items + having + ordering + more;
        lemma_distinct_by_text(all, f);
        if 0 <= i < select.projection@.len() {
            lemma_in_items(select.projection@, i, f);
        }
        if let Some(OrderBy::Expressions(order)) = query.order_by {
            if 0 <= i < order@.len() {
                lemma_in_order(order@, i, f);
            }
        }
        if items.contains(f) {
            let k = choose|k: int| 0 <= k < items.len() && items[k] == f;
            assert(all[k] == f);
        }
        if having.contains(f) {
            let k = choose|k: int| 0 <= k < having.len() && having[k] == f;
            assert(all[items.len() + k] == f);
        }
        if ordering.contains(f) {
            let k = choose|k: int| 0 <= k < ordering.len() && ordering[k] == f;
            assert(all[items.len() + having.len() + k] == f);
        }
    }
}

proof fn lemma_distinct_by_text(fs: Seq<Function>, f: Function)
    ensures
        fs.contains(f) ==> windows::has_text(windows::distinct_by_text(fs), f.text@),
    decreases fs.len(),
{
    if fs.len() > 0 && fs.contains(f) {
        let rest = fs.drop_last();
        lemma_distinct_by_text(rest, f);
        let before = windows::distinct_by_text(rest);
        let all = windows::distinct_by_text(fs);
        let at = choose|k: int| 0 <= k < fs.len() && fs[k] == f;
        if at < rest.len() {
            assert(rest[at] == f);
            let k = choose|k: int| 0 <= k < before.len() && (#[trigger] before[k]).text@ == f.text@;
            assert(all[k].text@ == f.text@);
        } else if !windows::has_text(before, f.text@) {
            assert(all[before.len() as int].text@ == f.text@);
        }
    }
}

proof fn lemma_in_items(items: Seq<SelectItem>, i: int, f: Function)
    requires
        0 <= i < items.len(),
    ensures
        match items[i] {
            SelectItem::UnnamedExpr(expr) => windows::group_aggregate_functions(expr).contains(f),
            SelectItem::ExprWithAlias { expr, .. } => windows::group_aggregate_functions(
                expr,
            ).contains(f),
            _ => false,
        } ==> windows::aggregates_in_items(items).contains(f),
    decreases items.len(),
{
    let rest = items.drop_last();
    let before = windows::aggregates_in_items(rest);
    let all = windows::aggregates_in_items(items);
    if i < rest.len() {
        lemma_in_items(rest, i, f);
        if before.contains(f) {
            let k = choose|k: int| 0 <= k < before.len() && before[k] == f;
            assert(all[k] == f);
        }
    } else {
        let own = match items.last() {
            SelectItem::UnnamedExpr(expr) => windows::group_aggregate_functions(expr),
            SelectItem::ExprWithAlias { expr, alias } => windows::group_aggregate_functions(expr),
            _ => Seq::empty(),
        };
        if own.contains(f) {
            let k = choose|k: int| 0 <= k < own.len() && own[k] == f;
            assert(all[before.len() + k] == f);
        }
    }
}

proof fn lemma_in_order(order: Seq<OrderByExpr>, i: int, f: Function)
    requires
        0 <= i < order.len(),
    ensures
        windows::group_aggregate_functions(order[i].expr).contains(f)
            ==> windows::aggregates_in_order(order).contains(f),
    decreases order.len(),
{
    let rest = order.drop_last();
    let before = windows::aggregates_in_order(rest);
    let all = windows::aggregates_in_order(order);
    if i < rest.len() {
        lemma_in_order(rest, i, f);
        if before.contains(f) {
            let k = choose|k: int| 0 <= k < before.len() && before[k] == f;
            assert(all[k] == f);
        }
    } else {
        let own = windows::group_aggregate_functions(order.last().expr);
        if own.contains(f) {
            let k = choose|k: int| 0 <= k < own.len() && own[k] == f;
            assert(all[before.len() + k] == f);
        }
    }
}

/// Columns are joined whichever side of the comparison they stand on, within parentheses
/// or not, by the field of another table that is on the other side.
pub proof fn law_joined_either_way(
    e: FilterExpr,
    turned: FilterExpr,
    alias: Seq<char>,
    table: Seq<char>,
    fields: Seq<Seq<char>>,
    others: Seq<Seq<char>>,
)
    requires
        e.shape matches FilterShape::Equal(left, right) && !(filters::is_column(
            *left,
            alias,
            table,
            fields,
        ) && filters::is_column(*right, alias, table, fields)) && (
        turned.shape matches FilterShape::Equal(first, second) && first == right && second == left),
    ensures
        oid_filters::joined_field(e, alias, table, fields, others) == oid_filters::joined_field(
            turned,
            alias,
            table,
            fields,
            others,
        ),
        oid_filters::joined_field(e, alias, table, fields, others) is Some ==> (
        e.shape matches FilterShape::Equal(left, right) && (filters::is_column(
            *left,
            alias,
            table,
            fields,
        ) || filters::is_column(*right, alias, table, fields))),
{
}

/// A join within parentheses is the one that stands in them.
pub proof fn law_joined_within(
    e: FilterExpr,
    alias: Seq<char>,
    table: Seq<char>,
    fields: Seq<Seq<char>>,
    others: Seq<Seq<char>>,
)
    ensures
        e.shape matches FilterShape::Nested(inner) ==> oid_filters::joined_field(
            e,
            alias,
            table,
            fields,
            others,
        ) == oid_filters::joined_field(*inner, alias, table, fields, others),
        oid_filters::qualified_field(e, others) matches Some((_, field)) ==> exists|k: int|
            0 <= k < others.len() && text::lower(#[trigger] others[k]) == text::lower(field),
    decreases e,
{
    if let FilterShape::Nested(inner) = e.shape {
        law_joined_within(*inner, alias, table, fields, others);
    }
}

/// A whole row goes by the name that its relation is bound to, in any case: by its alias
/// where it has one. The rows of a call do not.
pub proof fn law_whole_row(e: Expr, relation: TableReference)
    ensures
        shape::names_whole_row(e, relation) ==> e.kind == ExprKind::Identifier
            && !relation.has_args,
        e.kind == ExprKind::Identifier && e.names@.len() == 1 && !relation.has_args ==> match (
            relation.alias,
            relation.last_name,
        ) {
            (Some(alias), _) => shape::names_whole_row(e, relation) <==> text::lower(e.names@[0]@)
                == text::lower(alias@),
            (None, Some(name)) => shape::names_whole_row(e, relation) <==> text::lower(
                e.names@[0]@,
            ) == text::lower(name@),
            (None, None) => true,
        },
{
}

/// The number of an index is looked for under the same names within parentheses and
/// casts, and the definition under the name beside it.
pub proof fn law_index_keys(e: Expr)
    ensures
        (e.kind == ExprKind::Nested || e.kind == ExprKind::Cast) && e.operands@.len() > 0
            ==> slot_rows::index_keys(e) == slot_rows::index_keys(e.operands@[0].expr),
        e.kind == ExprKind::Identifier && e.names@.len() == 1 ==> (slot_rows::index_keys(e).len()
            > 0 <==> text::lower(e.names@[0]@) == text::lower("indexrelid"@)),
        e.kind == ExprKind::Identifier || e.kind == ExprKind::CompoundIdentifier ==> forall|k: int|
            0 <= k < slot_rows::index_keys(e).len() ==> ({
                let keys = #[trigger] slot_rows::index_keys(e)[k];
                exists|p: Seq<char>|
                    keys.0 == #[trigger] (p + "indexrelid"@) && keys.1 == p + "indexdef"@
            }),
{
    reveal_with_fuel(slot_rows::index_keys, 2);
    if e.kind == ExprKind::Identifier || e.kind == ExprKind::CompoundIdentifier {
        reveal_strlit(".indexrelid");
        reveal_strlit(".indexdef");
        reveal_strlit("indexrelid");
        reveal_strlit("indexdef");
        reveal_strlit(".");
        let prefix = text::joined(text::views(e.names@).drop_last(), "."@);
        assert(Seq::<char>::empty() + "indexrelid"@ =~= "indexrelid"@);
        assert(Seq::<char>::empty() + "indexdef"@ =~= "indexdef"@);
        assert("."@ + "indexrelid"@ =~= ".indexrelid"@);
        assert("."@ + "indexdef"@ =~= ".indexdef"@);
        assert((prefix + "."@) + "indexrelid"@ =~= prefix + ".indexrelid"@);
        assert((prefix + "."@) + "indexdef"@ =~= prefix + ".indexdef"@);
    }
}

/// The definition that is found is that of the index whose number is asked for.
pub proof fn law_index_definition(oid: i64, entries: Seq<IndexEntry>, from: int)
    ensures
        slot_rows::index_definition(oid, entries, from) matches Some(found) ==> exists|i: int|
            from <= i < entries.len() && (#[trigger] entries[i]).oid == Some(oid) && (
            entries[i].definition matches Some(Some(d)) && d@ == found) && forall|k: int|
                from <= k < i ==> (#[trigger] entries[k]).oid is Some && !(entries[k].oid == Some(
                    oid,
                ) && entries[k].definition matches Some(Some(_))),
    decreases entries.len() - from,
{
    if 0 <= from < entries.len() {
        law_index_definition(oid, entries, from + 1);
        if let Some(found) = slot_rows::index_definition(oid, entries, from) {
            if !(entries[from].oid == Some(oid)
                && (entries[from].definition matches Some(Some(_)))) {
                let i = choose|i: int|
                    from + 1 <= i < entries.len() && (#[trigger] entries[i]).oid == Some(oid) && (
                    entries[i].definition matches Some(Some(d)) && d@ == found) && forall|k: int|
                        from + 1 <= k < i ==> (#[trigger] entries[k]).oid is Some && !(
                        entries[k].oid == Some(oid) && entries[k].definition matches Some(Some(_)));
                assert(entries[i].oid == Some(oid));
            }
        }
    }
}

/// RESET ALL leaves alone who the session is and acts as, and resets every other setting
/// that is set, with both of the search settings.
pub proof fn law_reset_all_targets(local: Map<Seq<char>, Option<Seq<char>>>, name: Seq<char>)
    ensures
        guc::reset_all_targets(local).gucs.contains(name) <==> local.dom().contains(name)
            && !guc::is_identity(name),
        guc::reset_all_targets(local).vector_search && guc::reset_all_targets(local).ef_search,
{
}

/// Row security is checked for the role that is named for it, and else for the one that
/// the session acts as.
pub proof fn law_checked_for(gucs: Map<Seq<char>, Seq<char>>)
    ensures
        settings::setting(gucs, "bicdb.rls_check_as"@) is None ==> roles::rls_check_user(gucs)
            == roles::current_user(gucs),
        settings::setting(gucs, "bicdb.rls_check_as"@) matches Some(user) ==> (
        roles::normal_role(user).len() > 0 ==> roles::rls_check_user(gucs) == roles::normal_role(
            user,
        )),
{
}

/// A role that is new may nothing but inherit: not log in, nor create roles or databases,
/// nor pass by row security. The bootstrap role may log in.
pub proof fn law_new_role(name: Seq<char>)
    ensures
        ({
            let r = roles::default_role(name);
            &&& r.name == roles::normal_role(name) && r.inherit && !r.superuser && !r.create_role
            &&& !r.create_db && !r.can_login && !r.replication && !r.bypass_rls && !r.password_set
            &&& r.connection_limit == -1 && r.valid_until is None
        }),
        roles::bootstrap_schema().can_login && !roles::bootstrap_schema().create_role,
        roles::bootstrap_schema().name == roles::bootstrap_role(),
{
}

proof fn lemma_kind_names()
    ensures
        "database"@.len() == 8 && "database"@[0] == 'd',
        "schema"@.len() == 6,
        "table"@.len() == 5,
        "function"@.len() == 8 && "function"@[0] == 'f',
        "sequence"@.len() == 8 && "sequence"@[0] == 's',
        "type"@.len() == 4,
{
    reveal_strlit("database");
    reveal_strlit("schema");
    reveal_strlit("table");
    reveal_strlit("function");
    reveal_strlit("sequence");
    reveal_strlit("type");
}

/// No two kinds of objects have the same name.
pub proof fn law_kind_names(a: PrivilegeObjectType, b: PrivilegeObjectType)
    ensures
        privileges::object_type_text(a) == privileges::object_type_text(b) <==> a == b,
{
    lemma_kind_names();
}

/// Asked without a role, the answers are those for the bootstrap role, of a type for the
/// current user; asked with one, the object and the privilege come after it.
pub proof fn law_asked_without_role(
    c: RoleCatalog,
    grants: Seq<GrantView>,
    without: Seq<Argument>,
    with: Seq<Argument>,
    routine: Option<RoutinePrivileges>,
    user_type: Option<TypePrivileges>,
    current_user: Seq<char>,
)
    requires
        without.len() == 2,
        with.len() == 3,
        with[1] == without[0],
        with[2] == without[1],
    ensures
        with[0].text is None ==> privileges::schema_privilege(grants, without)
            == privileges::schema_privilege(grants, with),
        ({
            let role = roles::argument_role(
                roles::roles_sorted(roles::known_roles(roles::role_views(c.roles@))),
                with[0],
            );
            &&& role == Some(roles::bootstrap_role()) ==> privileges::function_privilege(
                c,
                grants,
                without,
                routine,
            ) == privileges::function_privilege(c, grants, with, routine)
            &&& role == Some(current_user) ==> privileges::type_privilege(
                c,
                grants,
                without,
                current_user,
                user_type,
            ) == privileges::type_privilege(c, grants, with, current_user, user_type)
            &&& role == Some(current_user) ==> roles::has_role_of(c, without, current_user)
                == roles::has_role_of(c, with, current_user)
        }),
{
}

} // verus!
