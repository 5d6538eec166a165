//! What comes first, what a LIMIT leaves, and what a wider type admits.
use vstd::prelude::*;
use crate::aggregates::KeyOrder;
use crate::ast::OrderByOptions;
use crate::column_types;
use crate::column_types::{CastRule, SchemaColumn};
use crate::constraints;
use crate::constraints::{ConstrainedTable, ConstraintKind, ConstraintView, KeyColumn, TableConstraint};
use crate::json;
use crate::json::JsonView;
use crate::limit_clauses;
use crate::order;
use crate::rows;
use crate::rows::{SetOperator, SetQuantifier};
use crate::text;
use crate::type_references;
use crate::typed_order;
use crate::typed_order::OrderedPair;
use crate::user_types::TypeModifier;

verus! {

/// Two texts are the same up to a place, and there the first one ends or has the
/// character that comes first.
pub open spec fn parts_before(a: Seq<char>, b: Seq<char>, k: int) -> bool {
    &&& 0 <= k < b.len()
    &&& k <= a.len()
    &&& forall|j: int| 0 <= j < k ==> a[j] == b[j]
    &&& k < a.len() ==> a[k] < b[k]
}

proof fn lemma_parts_before(a: Seq<char>, b: Seq<char>, from: int)
    requires
        0 <= from <= a.len(),
        from <= b.len(),
        forall|j: int| 0 <= j < from ==> a[j] == b[j],
    ensures
        order::precedes_from(a, b, from) <==> exists|k: int| from <= k && #[trigger]
            parts_before(a, b, k),
    decreases b.len() - from,
{
    if from < b.len() {
        if from < a.len() && a[from] == b[from] {
            lemma_parts_before(a, b, from + 1);
            assert(!parts_before(a, b, from));
        } else {
            assert(order::precedes_from(a, b, from) ==> parts_before(a, b, from));
            assert forall|k: int| from <= k && #[trigger] parts_before(a, b, k) implies k == from by {
                if from < k {
                    assert(a[from] == b[from]);
                }
            }
        }
    }
}

/// A text comes before another exactly where it is its beginning or has the lower
/// character at the first place where they differ.
pub proof fn law_text_order(a: Seq<char>, b: Seq<char>)
    ensures
        order::precedes(a, b) <==> exists|k: int| #[trigger] parts_before(a, b, k),
{
    lemma_parts_before(a, b, 0);
    if exists|k: int| #[trigger] parts_before(a, b, k) {
        let k = choose|k: int| #[trigger] parts_before(a, b, k);
        assert(0 <= k && parts_before(a, b, k));
    }
}

/// Two keys are the same up to a place, and there the first one ends or has the
/// lower byte.
pub open spec fn bytes_before(a: Seq<u8>, b: Seq<u8>, k: int) -> bool {
    &&& 0 <= k < b.len()
    &&& k <= a.len()
    &&& forall|j: int| 0 <= j < k ==> a[j] == b[j]
    &&& k < a.len() ==> a[k] < b[k]
}

proof fn lemma_bytes_before(a: Seq<u8>, b: Seq<u8>, from: int)
    requires
        0 <= from <= a.len(),
        from <= b.len(),
        forall|j: int| 0 <= j < from ==> a[j] == b[j],
    ensures
        typed_order::bytes_order(a, b, from) == KeyOrder::Less <==> exists|k: int|
            from <= k && #[trigger] bytes_before(a, b, k),
        typed_order::bytes_order(a, b, from) == KeyOrder::Greater <==> exists|k: int|
            from <= k && #[trigger] bytes_before(b, a, k),
    decreases b.len() - from,
{
    if from < b.len() && from < a.len() && a[from] == b[from] {
        lemma_bytes_before(a, b, from + 1);
        assert(!bytes_before(a, b, from));
        assert(!bytes_before(b, a, from));
    } else {
        assert(typed_order::bytes_order(a, b, from) == KeyOrder::Less ==> bytes_before(a, b, from));
        assert(typed_order::bytes_order(a, b, from) == KeyOrder::Greater ==> bytes_before(
            b,
            a,
            from,
        ));
        assert forall|k: int| from <= k && #[trigger] bytes_before(a, b, k) implies k == from by {
            if from < k {
                assert(a[from] == b[from]);
            }
        }
        assert forall|k: int| from <= k && #[trigger] bytes_before(b, a, k) implies k == from by {
            if from < k {
                assert(a[from] == b[from]);
            }
        }
    }
}

/// A key comes before another exactly where it is its beginning or has the lower
/// byte at the first place where they differ.
pub proof fn law_key_order(a: Seq<u8>, b: Seq<u8>)
    ensures
        typed_order::bytes_order(a, b, 0) == KeyOrder::Less <==> exists|k: int| #[trigger]
            bytes_before(a, b, k),
        typed_order::bytes_order(a, b, 0) == KeyOrder::Greater <==> exists|k: int| #[trigger]
            bytes_before(b, a, k),
{
    lemma_bytes_before(a, b, 0);
    if exists|k: int| #[trigger] bytes_before(a, b, k) {
        let k = choose|k: int| #[trigger] bytes_before(a, b, k);
        assert(0 <= k && bytes_before(a, b, k));
    }
    if exists|k: int| #[trigger] bytes_before(b, a, k) {
        let k = choose|k: int| #[trigger] bytes_before(b, a, k);
        assert(0 <= k && bytes_before(b, a, k));
    }
}

/// ORDER BY puts the lesser value first unless it says DESC, and then the greater
/// one. A null stands where NULLS FIRST or NULLS LAST puts it; where neither is
/// said it is last, and with DESC first. Documents compare as documents, other
/// values by their keys where both have one, and a collation decides before
/// anything else.
pub proof fn law_typed_order(p: OrderedPair, options: OrderByOptions)
    ensures
        ({
            let order = typed_order::typed_order(p, options);
            let descending = options.asc == Some(false);
            let first = options.nulls_first == Some(true) || (options.nulls_first is None
                && descending);
            &&& p.left_null && p.right_null ==> order == KeyOrder::Equal
            &&& p.left_null && !p.right_null ==> order == (if first {
                KeyOrder::Less
            } else {
                KeyOrder::Greater
            })
            &&& !p.left_null && p.right_null ==> order == (if first {
                KeyOrder::Greater
            } else {
                KeyOrder::Less
            })
            &&& !p.left_null && !p.right_null && p.documents is Some ==> (order == p.documents->0
                <==> !descending || p.documents->0 == KeyOrder::Equal)
            &&& !p.left_null && !p.right_null && p.documents is None && p.left_key is Some
                && p.right_key is Some ==> {
                &&& order == KeyOrder::Less <==> (if descending {
                    exists|k: int| #[trigger] bytes_before(p.right_key->0@, p.left_key->0@, k)
                } else {
                    exists|k: int| #[trigger] bytes_before(p.left_key->0@, p.right_key->0@, k)
                })
                &&& order == KeyOrder::Greater <==> (if descending {
                    exists|k: int| #[trigger] bytes_before(p.left_key->0@, p.right_key->0@, k)
                } else {
                    exists|k: int| #[trigger] bytes_before(p.right_key->0@, p.left_key->0@, k)
                })
            }
            &&& p.collated is None ==> typed_order::collated_order(p, options) == order
            &&& p.collated is Some && !descending ==> typed_order::collated_order(p, options)
                == p.collated->0
            &&& p.collated == Some(KeyOrder::Less) && descending ==> typed_order::collated_order(
                p,
                options,
            ) == KeyOrder::Greater
        }),
{
    if p.left_key is Some && p.right_key is Some {
        law_key_order(p.left_key->0@, p.right_key->0@);
    }
}

/// A LIMIT and an OFFSET leave the rows from the offset on, as many as the limit
/// allows, in their order; without a limit all of them.
pub proof fn law_limited<T>(all: Seq<T>, offset: nat, limit: Option<nat>, i: int)
    ensures
        ({
            let left = rows::limited(all, offset, limit);
            let rest = if offset < all.len() {
                all.len() - offset
            } else {
                0
            };
            &&& left.len() == if limit is Some && limit->0 < rest {
                limit->0 as int
            } else {
                rest
            }
            &&& 0 <= i < left.len() ==> left[i] == all[offset + i]
        }),
        rows::limited(all, 0, None) == all,
        limit == Some(0nat) ==> rows::limited(all, offset, limit).len() == 0,
{
    assert(rows::limited(all, 0, None) =~= all);
}

/// The LIMIT of a query is read from its limit and the OFFSET from its offset, in
/// both ways of writing them; a null is none, and a query without the clause has
/// neither.
pub proof fn law_limit_and_offset(query: JsonView)
    ensures
        ({
            let clause = json::field_or_null(query, "limit_clause"@);
            let name = json::variant_name(clause);
            let p = json::payload(clause);
            let (limit, offset) = limit_clauses::limit_and_offset(query);
            &&& limit is Some ==> limit == json::field(p, "limit"@) && limit->0 != JsonView::Null
            &&& (name == Some("LimitOffset"@) || name == Some("OffsetCommaLimit"@)) && limit is None
                ==> json::field_or_null(p, "limit"@) == JsonView::Null
            &&& name == Some("OffsetCommaLimit"@) && offset is Some ==> offset == json::field(
                p,
                "offset"@,
            )
            &&& name == Some("LimitOffset"@) && offset is Some ==> offset == json::field(
                json::field_or_null(p, "offset"@),
                "value"@,
            )
            &&& name != Some("LimitOffset"@) && name != Some("OffsetCommaLimit"@) ==> limit is None
                && offset is None
        }),
{
    reveal_strlit("LimitOffset");
    reveal_strlit("OffsetCommaLimit");
    assert("LimitOffset"@.len() == 11 && "OffsetCommaLimit"@.len() == 16);
}

/// A set operation is refused exactly where its sides have different numbers of
/// columns, it matches columns by name, or it keeps repetitions and is no UNION.
pub proof fn law_set_refusal(left: nat, op: SetOperator, quantifier: SetQuantifier, right: nat)
    ensures
        rows::set_refusal(left, op, quantifier, right) is Some <==> left != right || quantifier
            == SetQuantifier::ByName || quantifier == SetQuantifier::AllByName || quantifier
            == SetQuantifier::DistinctByName || (quantifier == SetQuantifier::All && op
            != SetOperator::Union),
{
}

/// A modifier admits a text of that length, or a number with so many digits before
/// and behind the point.
pub open spec fn admits(m: TypeModifier, before: int, behind: int) -> bool {
    match m {
        TypeModifier::Character { length } => before <= length,
        TypeModifier::Numeric { precision, scale } => before <= precision - scale && behind
            <= scale,
        _ => false,
    }
}

/// A wider modifier admits whatever the narrower one does; a character type that
/// admits all lengths that another does is wider than that.
pub proof fn law_wider_admits(source: TypeModifier, target: TypeModifier, before: int, behind: int)
    ensures
        column_types::widens(Some(source), Some(target)) && admits(source, before, behind)
            ==> admits(target, before, behind),
        source is Character && target is Character && (forall|n: int| #[trigger]
            admits(source, n, 0) ==> admits(target, n, 0)) ==> column_types::widens(
            Some(source),
            Some(target),
        ),
        column_types::widens(Some(source), Some(target)) ==> (source is Character <==> target
            is Character),
{
    if source is Character && target is Character && (forall|n: int| #[trigger]
        admits(source, n, 0) ==> admits(target, n, 0)) {
        let n = source->length as int;
        assert(admits(source, n, 0));
    }
}

/// A column whose type becomes another is rewritten; one that keeps its type, its
/// modifier and its dimension is not, nor is one whose modifier becomes wider.
pub proof fn law_rewrite(source: SchemaColumn, target: SchemaColumn)
    ensures
        source.type_oid != target.type_oid ==> column_types::needs_rewrite(source, target),
        source.type_oid == target.type_oid && type_references::modifier_view(source.type_modifier)
            == type_references::modifier_view(target.type_modifier) && source.vector_dim
            == target.vector_dim ==> !column_types::needs_rewrite(source, target),
        source.type_oid == target.type_oid && column_types::widens(
            source.type_modifier,
            target.type_modifier,
        ) ==> !column_types::needs_rewrite(source, target),
        source.type_modifier is None && target.type_modifier is Some
            ==> column_types::needs_rewrite(source, target),
        source.type_modifier is None && source.vector_dim != target.vector_dim
            ==> column_types::needs_rewrite(source, target),
{
}

/// Whether the columns of a foreign key can be compared does not depend on which of
/// them refers to the other; columns of one type always can.
pub proof fn law_comparable(a: SchemaColumn, b: SchemaColumn, rules: Seq<CastRule>)
    ensures
        column_types::comparable(a, b, rules) == column_types::comparable(b, a, rules),
        a.type_oid == b.type_oid ==> column_types::comparable(a, b, rules),
        rules.len() == 0 && a.type_oid != b.type_oid ==> !column_types::comparable(a, b, rules),
{
}

/// The entry of a constraint that keeps nulls out of a column.
pub open spec fn not_null_entry(e: ConstraintView, table: Seq<char>, c: KeyColumn) -> bool {
    &&& !c.hidden
    &&& !c.nullable || c.primary_key
    &&& e.table == table
    &&& e.name == c.not_null_name@
    &&& e.kind == ConstraintKind::Check
}

/// The entry of a declared constraint as a whole.
pub open spec fn declared_entry(e: ConstraintView, table: Seq<char>, c: TableConstraint) -> bool {
    &&& e.table == table
    &&& e.column is None
    &&& match c {
        TableConstraint::Unique { name, columns, primary } => !primary && e.kind
            == ConstraintKind::Unique && e.name == name@,
        TableConstraint::Check { name, columns } => e.kind == ConstraintKind::Check && e.name
            == name@,
        TableConstraint::ForeignKey { name, columns } => e.kind == ConstraintKind::ForeignKey
            && e.name == name@,
        TableConstraint::Exclusion { name } => e.kind == ConstraintKind::Exclude && e.name == name@,
    }
}

proof fn lemma_not_null_entries(table: Seq<char>, columns: Seq<KeyColumn>, by_column: bool)
    ensures
        forall|k: int|
            0 <= k < constraints::not_null_entries(table, columns, by_column).len()
                ==> exists|i: int|
                0 <= i < columns.len() && not_null_entry(
                    #[trigger] constraints::not_null_entries(table, columns, by_column)[k],
                    table,
                    #[trigger] columns[i],
                ) && constraints::not_null_entries(table, columns, by_column)[k].column
                    == if by_column {
                    Some(columns[i].name@)
                } else {
                    None
                },
        forall|i: int|
            0 <= i < columns.len() && !(#[trigger] columns[i]).hidden && (!columns[i].nullable
                || columns[i].primary_key) ==> exists|k: int|
                0 <= k < constraints::not_null_entries(table, columns, by_column).len()
                    && not_null_entry(
                    #[trigger] constraints::not_null_entries(table, columns, by_column)[k],
                    table,
                    columns[i],
                ),
    decreases columns.len(),
{
    if columns.len() > 0 {
        let rest = columns.drop_last();
        lemma_not_null_entries(table, rest, by_column);
        let before = constraints::not_null_entries(table, rest, by_column);
        let all = constraints::not_null_entries(table, columns, by_column);
        assert forall|k: int| 0 <= k < all.len() implies exists|i: int|
            0 <= i < columns.len() && not_null_entry(
                #[trigger] all[k],
                table,
                #[trigger] columns[i],
            ) && all[k].column == (if by_column {
                Some(columns[i].name@)
            } else {
                None
            }) by {
            if k < before.len() {
                assert(all[k] == before[k]);
                let i = choose|i: int|
                    0 <= i < rest.len() && not_null_entry(
                        before[k],
                        table,
                        #[trigger] rest[i],
                    ) && before[k].column == (if by_column {
                        Some(rest[i].name@)
                    } else {
                        None
                    });
                assert(columns[i] == rest[i]);
            } else {
                assert(not_null_entry(all[k], table, columns[columns.len() - 1]));
            }
        }
        assert forall|i: int|
            0 <= i < columns.len() && !(#[trigger] columns[i]).hidden && (!columns[i].nullable
                || columns[i].primary_key) implies exists|k: int|
            0 <= k < all.len() && not_null_entry(#[trigger] all[k], table, columns[i]) by {
            if i < rest.len() {
                assert(rest[i] == columns[i]);
                let k = choose|k: int|
                    0 <= k < before.len() && not_null_entry(#[trigger] before[k], table, rest[i]);
                assert(all[k] == before[k]);
            } else {
                assert(not_null_entry(all[before.len() as int], table, columns[i]));
            }
        }
    }
}

proof fn lemma_declared_entries(table: Seq<char>, list: Seq<TableConstraint>)
    ensures
        forall|k: int|
            0 <= k < constraints::declared_entries(table, list).len() ==> exists|i: int|
                0 <= i < list.len() && declared_entry(
                    #[trigger] constraints::declared_entries(table, list)[k],
                    table,
                    #[trigger] list[i],
                ),
        forall|i: int|
            0 <= i < list.len() && !is_primary_key(#[trigger] list[i]) ==> exists|k: int|
                0 <= k < constraints::declared_entries(table, list).len() && declared_entry(
                    #[trigger] constraints::declared_entries(table, list)[k],
                    table,
                    list[i],
                ),
    decreases list.len(),
{
    if list.len() > 0 {
        let rest = list.drop_last();
        lemma_declared_entries(table, rest);
        let before = constraints::declared_entries(table, rest);
        let all = constraints::declared_entries(table, list);
        assert forall|k: int| 0 <= k < all.len() implies exists|i: int|
            0 <= i < list.len() && declared_entry(#[trigger] all[k], table, #[trigger] list[i]) by {
            if k < before.len() {
                assert(all[k] == before[k]);
                let i = choose|i: int|
                    0 <= i < rest.len() && declared_entry(before[k], table, #[trigger] rest[i]);
                assert(list[i] == rest[i]);
            } else {
                assert(declared_entry(all[k], table, list[list.len() - 1]));
            }
        }
        assert forall|i: int|
            0 <= i < list.len() && !is_primary_key(#[trigger] list[i]) implies exists|k: int|
            0 <= k < all.len() && declared_entry(#[trigger] all[k], table, list[i]) by {
            if i < rest.len() {
                assert(rest[i] == list[i]);
                let k = choose|k: int|
                    0 <= k < before.len() && declared_entry(#[trigger] before[k], table, rest[i]);
                assert(all[k] == before[k]);
            } else {
                assert(declared_entry(all[before.len() as int], table, list[i]));
            }
        }
    }
}

/// A unique constraint that is the primary key in another form.
pub open spec fn is_primary_key(c: TableConstraint) -> bool {
    c matches TableConstraint::Unique { name, columns, primary } && primary
}

/// The entry of the primary key of a table.
pub open spec fn primary_key_entry(e: ConstraintView, t: ConstrainedTable) -> bool {
    &&& t.primary_key@.len() > 0
    &&& e.table == t.name@
    &&& e.name == t.primary_key_name@
    &&& e.kind == ConstraintKind::PrimaryKey
}

/// `information_schema.table_constraints` lists a constraint for each visible column
/// that admits no nulls or belongs to the primary key, one for the primary key,
/// and each declared constraint under its own kind, but not the primary key a
/// second time.
pub proof fn law_constraints_listed(t: ConstrainedTable, i: int)
    ensures
        0 <= i < t.columns@.len() && !t.columns@[i].hidden && (!t.columns@[i].nullable
            || t.columns@[i].primary_key) ==> exists|k: int|
            0 <= k < constraints::constraints_of(t).len() && not_null_entry(
                #[trigger] constraints::constraints_of(t)[k],
                t.name@,
                t.columns@[i],
            ),
        0 <= i < t.constraints@.len() && !is_primary_key(t.constraints@[i]) ==> exists|k: int|
            0 <= k < constraints::constraints_of(t).len() && declared_entry(
                #[trigger] constraints::constraints_of(t)[k],
                t.name@,
                t.constraints@[i],
            ),
        t.primary_key@.len() > 0 ==> exists|k: int|
            0 <= k < constraints::constraints_of(t).len() && primary_key_entry(
                #[trigger] constraints::constraints_of(t)[k],
                t,
            ),
{
    let a = constraints::not_null_entries(t.name@, t.columns@, false);
    let b = if t.primary_key@.len() > 0 {
        seq![constraints::whole(t.name@, t.primary_key_name@, ConstraintKind::PrimaryKey)]
    } else {
        Seq::empty()
    };
    let c = constraints::declared_entries(t.name@, t.constraints@);
    let all = constraints::constraints_of(t);
    assert(all == a + b + c);
    if 0 <= i < t.columns@.len() && !t.columns@[i].hidden && (!t.columns@[i].nullable
        || t.columns@[i].primary_key) {
        lemma_not_null_entries(t.name@, t.columns@, false);
        let k = choose|k: int|
            0 <= k < a.len() && not_null_entry(#[trigger] a[k], t.name@, t.columns@[i]);
        assert(all[k] == a[k]);
    }
    if 0 <= i < t.constraints@.len() && !is_primary_key(t.constraints@[i]) {
        lemma_declared_entries(t.name@, t.constraints@);
        let k = choose|k: int|
            0 <= k < c.len() && declared_entry(#[trigger] c[k], t.name@, t.constraints@[i]);
        assert(all[a.len() + b.len() + k] == c[k]);
    }
    if t.primary_key@.len() > 0 {
        assert(all[a.len() as int] == b[0]);
        assert(primary_key_entry(all[a.len() as int], t));
    }
}

/// Every entry of `information_schema.table_constraints` is the primary key of the
/// table, keeps nulls out of a visible column that admits none, or is a declared
/// constraint.
pub proof fn law_listed_constraints(t: ConstrainedTable, k: int)
    requires
        0 <= k < constraints::constraints_of(t).len(),
    ensures
        ({
            let e = constraints::constraints_of(t)[k];
            ||| primary_key_entry(e, t)
            ||| exists|i: int|
                0 <= i < t.columns@.len() && not_null_entry(e, t.name@, #[trigger] t.columns@[i])
            ||| exists|i: int|
                0 <= i < t.constraints@.len() && declared_entry(
                    e,
                    t.name@,
                    #[trigger] t.constraints@[i],
                )
        }),
{
    let a = constraints::not_null_entries(t.name@, t.columns@, false);
    let b = if t.primary_key@.len() > 0 {
        seq![constraints::whole(t.name@, t.primary_key_name@, ConstraintKind::PrimaryKey)]
    } else {
        Seq::empty()
    };
    let c = constraints::declared_entries(t.name@, t.constraints@);
    let all = constraints::constraints_of(t);
    assert(all == a + b + c);
    if k < a.len() {
        lemma_not_null_entries(t.name@, t.columns@, false);
        assert(all[k] == a[k]);
    } else if k < a.len() + b.len() {
        assert(all[k] == b[k - a.len()]);
    } else {
        lemma_declared_entries(t.name@, t.constraints@);
        assert(all[k] == c[k - a.len() - b.len()]);
    }
}

/// The columns of a key are listed one by one, in their order and numbered from
/// one.
pub proof fn law_key_columns_numbered(t: ConstrainedTable, i: int)
    requires
        0 <= i < t.primary_key@.len(),
    ensures
        ({
            let e = constraints::key_columns_of(t)[i];
            &&& e.table == t.name@
            &&& e.name == t.primary_key_name@
            &&& e.kind == ConstraintKind::PrimaryKey
            &&& e.column == Some(t.primary_key@[i]@)
            &&& e.position == i + 1
        }),
{
    assert(text::views(t.primary_key@)[i] == t.primary_key@[i]@);
}

} // verus!
