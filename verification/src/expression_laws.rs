//! What is said of expressions as a whole: which of them need a row, and which give
//! another value with every call.
use vstd::prelude::*;
use crate::ast::{Expr, ExprKind, Operand, Query, Select, SelectItem, SetExpr};
use crate::shape;
use crate::shape::{calls_volatile, is_volatile_name, needs_row_evaluator, some_arg_volatile,
    some_item_volatile, some_operand_needs_row, some_operand_volatile};
use crate::text;

verus! {

/// The kinds of expressions that need no row whatever their operands are: names,
/// literals, and forms that are put together from a record as they stand.
pub open spec fn never_needs_row(kind: ExprKind) -> bool {
    match kind {
        ExprKind::Identifier | ExprKind::CompoundFieldAccess | ExprKind::JsonAccess
        | ExprKind::IsNormalized | ExprKind::InUnnest | ExprKind::SimilarTo | ExprKind::RLike
        | ExprKind::Convert | ExprKind::AtTimeZone | ExprKind::Extract | ExprKind::Ceil
        | ExprKind::Floor | ExprKind::Position | ExprKind::Substring | ExprKind::Trim
        | ExprKind::Overlay | ExprKind::Collate | ExprKind::Value | ExprKind::Prefixed
        | ExprKind::TypedString | ExprKind::Function | ExprKind::GroupingSets | ExprKind::Cube
        | ExprKind::Rollup | ExprKind::Struct | ExprKind::Named | ExprKind::Dictionary
        | ExprKind::MapLiteral | ExprKind::Array | ExprKind::Interval | ExprKind::MatchAgainst
        | ExprKind::Wildcard | ExprKind::QualifiedWildcard | ExprKind::OuterJoin
        | ExprKind::Prior | ExprKind::Lambda | ExprKind::MemberOf => true,
        _ => false,
    }
}

/// The kinds of expressions that need a row only where an operand does: tests,
/// casts, parentheses, lists, and steps into a document.
pub open spec fn needs_row_inside(kind: ExprKind) -> bool {
    match kind {
        ExprKind::InList | ExprKind::Cast | ExprKind::Nested | ExprKind::JsonArrow
        | ExprKind::IsUnknown | ExprKind::IsNotUnknown | ExprKind::IsFalse
        | ExprKind::IsNotFalse | ExprKind::IsTrue | ExprKind::IsNotTrue | ExprKind::IsNull
        | ExprKind::IsNotNull => true,
        _ => false,
    }
}

proof fn lemma_some_operand_needs_row(operands: Seq<Operand>)
    ensures
        some_operand_needs_row(operands) <==> exists|i: int|
            0 <= i < operands.len() && needs_row_evaluator((#[trigger] operands[i]).expr),
    decreases operands.len(),
{
    if operands.len() > 0 {
        let rest = operands.drop_last();
        lemma_some_operand_needs_row(rest);
        if some_operand_needs_row(rest) {
            let i = choose|i: int|
                0 <= i < rest.len() && needs_row_evaluator((#[trigger] rest[i]).expr);
            assert(operands[i] == rest[i]);
        }
        if exists|i: int|
            0 <= i < operands.len() && needs_row_evaluator((#[trigger] operands[i]).expr) {
            let i = choose|i: int|
                0 <= i < operands.len() && needs_row_evaluator((#[trigger] operands[i]).expr);
            if i < rest.len() {
                assert(rest[i] == operands[i]);
            }
        }
    }
}

/// A call needs a row unless it is a predicate on places. Of other expressions some
/// kinds never need one, some only where an operand does or where they step into
/// a document by a path that is no constant, and all the others always.
pub proof fn law_needs_row(e: Expr)
    ensures
        match e.call {
            Some(f) => needs_row_evaluator(e) == !f.spatial_predicate,
            None => if never_needs_row(e.kind) {
                !needs_row_evaluator(e)
            } else if needs_row_inside(e.kind) {
                needs_row_evaluator(e) <==> (exists|i: int|
                    0 <= i < e.operands@.len() && needs_row_evaluator(
                        (#[trigger] e.operands@[i]).expr,
                    )) || (e.kind == ExprKind::JsonArrow && !e.constant_path)
            } else {
                needs_row_evaluator(e)
            },
        },
{
    lemma_some_operand_needs_row(e.operands@);
}

/// The kinds of expressions that are not looked into for volatile calls, a query in
/// place of a value aside.
pub open spec fn hides_volatile(kind: ExprKind) -> bool {
    match kind {
        ExprKind::Identifier | ExprKind::CompoundIdentifier | ExprKind::CompoundFieldAccess
        | ExprKind::JsonAccess | ExprKind::IsDistinctFrom | ExprKind::IsNotDistinctFrom
        | ExprKind::IsNormalized | ExprKind::InSubquery | ExprKind::InUnnest | ExprKind::Like
        | ExprKind::ILike | ExprKind::SimilarTo | ExprKind::RLike | ExprKind::Convert
        | ExprKind::AtTimeZone | ExprKind::Ceil | ExprKind::Floor | ExprKind::Substring
        | ExprKind::Overlay | ExprKind::Value | ExprKind::Prefixed | ExprKind::TypedString
        | ExprKind::Function | ExprKind::Exists | ExprKind::GroupingSets | ExprKind::Cube
        | ExprKind::Rollup | ExprKind::Tuple | ExprKind::Struct | ExprKind::Named
        | ExprKind::Dictionary | ExprKind::MapLiteral | ExprKind::Interval
        | ExprKind::MatchAgainst | ExprKind::Wildcard | ExprKind::QualifiedWildcard
        | ExprKind::OuterJoin | ExprKind::Prior | ExprKind::Lambda | ExprKind::MemberOf => true,
        _ => false,
    }
}

proof fn lemma_some_operand_volatile(operands: Seq<Operand>)
    ensures
        some_operand_volatile(operands) <==> exists|i: int|
            0 <= i < operands.len() && calls_volatile((#[trigger] operands[i]).expr),
    decreases operands.len(),
{
    if operands.len() > 0 {
        let rest = operands.drop_last();
        lemma_some_operand_volatile(rest);
        if some_operand_volatile(rest) {
            let i = choose|i: int|
                0 <= i < rest.len() && calls_volatile((#[trigger] rest[i]).expr);
            assert(operands[i] == rest[i]);
        }
        if exists|i: int|
            0 <= i < operands.len() && calls_volatile((#[trigger] operands[i]).expr) {
            let i = choose|i: int|
                0 <= i < operands.len() && calls_volatile((#[trigger] operands[i]).expr);
            if i < rest.len() {
                assert(rest[i] == operands[i]);
            }
        }
    }
}

proof fn lemma_some_arg_volatile(args: Seq<Expr>)
    ensures
        some_arg_volatile(args) <==> exists|i: int|
            0 <= i < args.len() && calls_volatile(#[trigger] args[i]),
    decreases args.len(),
{
    if args.len() > 0 {
        let rest = args.drop_last();
        lemma_some_arg_volatile(rest);
        if some_arg_volatile(rest) {
            let i = choose|i: int| 0 <= i < rest.len() && calls_volatile(#[trigger] rest[i]);
            assert(args[i] == rest[i]);
        }
        if exists|i: int| 0 <= i < args.len() && calls_volatile(#[trigger] args[i]) {
            let i = choose|i: int| 0 <= i < args.len() && calls_volatile(#[trigger] args[i]);
            if i < rest.len() {
                assert(rest[i] == args[i]);
            }
        }
    }
}

/// The expression of an item of a projection, where it has one.
pub open spec fn item_expr(item: SelectItem) -> Option<Expr> {
    match item {
        SelectItem::UnnamedExpr(expr) => Some(expr),
        SelectItem::ExprWithAlias { expr, alias } => Some(expr),
        _ => None,
    }
}

proof fn lemma_some_item_volatile(items: Seq<SelectItem>)
    ensures
        some_item_volatile(items) <==> exists|i: int|
            0 <= i < items.len() && item_expr(#[trigger] items[i]) is Some && calls_volatile(
                item_expr(items[i])->0,
            ),
    decreases items.len(),
{
    if items.len() > 0 {
        let rest = items.drop_last();
        lemma_some_item_volatile(rest);
        assert(shape::item_volatile(items.last()) <==> item_expr(items.last()) is Some
            && calls_volatile(item_expr(items.last())->0));
        if some_item_volatile(rest) {
            let i = choose|i: int|
                0 <= i < rest.len() && item_expr(#[trigger] rest[i]) is Some && calls_volatile(
                    item_expr(rest[i])->0,
                );
            assert(items[i] == rest[i]);
        }
        if exists|i: int|
            0 <= i < items.len() && item_expr(#[trigger] items[i]) is Some && calls_volatile(
                item_expr(items[i])->0,
            ) {
            let i = choose|i: int|
                0 <= i < items.len() && item_expr(#[trigger] items[i]) is Some && calls_volatile(
                    item_expr(items[i])->0,
                );
            if i < rest.len() {
                assert(rest[i] == items[i]);
            }
        }
    }
}

/// A call is volatile exactly where its name is, in any case, or one of its
/// arguments is; another expression where an operand is, unless its kind is one
/// that is not looked into.
pub proof fn law_calls_volatile(e: Expr)
    ensures
        match e.call {
            Some(f) => calls_volatile(e) <==> is_volatile_name(text::lower(f.name@)) || exists|
                i: int,
            |
                0 <= i < f.args@.len() && calls_volatile(#[trigger] f.args@[i]),
            None => e.kind != ExprKind::Subquery ==> (calls_volatile(e) <==> !hides_volatile(e.kind)
                && exists|i: int|
                0 <= i < e.operands@.len() && calls_volatile((#[trigger] e.operands@[i]).expr)),
        },
{
    lemma_some_operand_volatile(e.operands@);
    if let Some(f) = e.call {
        lemma_some_arg_volatile(f.args@);
    }
}

/// A query in place of a value is volatile exactly where its projection or its WHERE
/// is, and a set operation where one of its sides is.
pub proof fn law_query_volatile(select: Select, left: SetExpr, right: SetExpr)
    ensures
        shape::select_volatile(select) <==> (exists|i: int|
            0 <= i < select.projection@.len() && item_expr(#[trigger] select.projection@[i]) is Some
                && calls_volatile(item_expr(select.projection@[i])->0)) || (
        select.selection is Some && calls_volatile(select.selection->0)),
        forall|q: Query| #[trigger]
            shape::query_volatile(q) == shape::body_volatile(*q.body),
        shape::body_volatile(SetExpr::SetOperation { left: Box::new(left), right: Box::new(right) })
            <==> shape::body_volatile(left) || shape::body_volatile(right),
{
    lemma_some_item_volatile(select.projection@);
}

/// A volatile function is one also under the schema that it is in.
pub proof fn law_volatile_names()
    ensures
        is_volatile_name("random"@) && is_volatile_name("pg_catalog."@ + "random"@),
        is_volatile_name("now"@) && is_volatile_name("pg_catalog."@ + "now"@),
        is_volatile_name("current_timestamp"@) && is_volatile_name("pg_catalog."@ + "current_timestamp"@),
        is_volatile_name("clock_timestamp"@) && is_volatile_name("pg_catalog."@ + "clock_timestamp"@),
        is_volatile_name("gen_random_uuid"@) && is_volatile_name("pg_catalog."@ + "gen_random_uuid"@),
        is_volatile_name("uuidv4"@) && is_volatile_name("pg_catalog."@ + "uuidv4"@),
        is_volatile_name("uuidv7"@) && is_volatile_name("pg_catalog."@ + "uuidv7"@),
        is_volatile_name("uuid_generate_v4"@) && is_volatile_name("public."@ + "uuid_generate_v4"@),
{
    reveal_strlit("pg_catalog.");
    reveal_strlit("public.");
    reveal_strlit("random");
    reveal_strlit("now");
    reveal_strlit("current_timestamp");
    reveal_strlit("clock_timestamp");
    reveal_strlit("gen_random_uuid");
    reveal_strlit("uuidv4");
    reveal_strlit("uuidv7");
    reveal_strlit("uuid_generate_v4");
    reveal_strlit("pg_catalog.random");
    assert("pg_catalog."@ + "random"@ =~= "pg_catalog.random"@);
    reveal_strlit("pg_catalog.now");
    assert("pg_catalog."@ + "now"@ =~= "pg_catalog.now"@);
    reveal_strlit("pg_catalog.current_timestamp");
    assert("pg_catalog."@ + "current_timestamp"@ =~= "pg_catalog.current_timestamp"@);
    reveal_strlit("pg_catalog.clock_timestamp");
    assert("pg_catalog."@ + "clock_timestamp"@ =~= "pg_catalog.clock_timestamp"@);
    reveal_strlit("pg_catalog.gen_random_uuid");
    assert("pg_catalog."@ + "gen_random_uuid"@ =~= "pg_catalog.gen_random_uuid"@);
    reveal_strlit("pg_catalog.uuidv4");
    assert("pg_catalog."@ + "uuidv4"@ =~= "pg_catalog.uuidv4"@);
    reveal_strlit("pg_catalog.uuidv7");
    assert("pg_catalog."@ + "uuidv7"@ =~= "pg_catalog.uuidv7"@);
    reveal_strlit("public.uuid_generate_v4");
    assert("public."@ + "uuid_generate_v4"@ =~= "public.uuid_generate_v4"@);
}

} // verus!
