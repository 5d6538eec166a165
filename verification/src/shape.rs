//! What the shape of an expression says about how it has to be evaluated.
use vstd::prelude::*;
use crate::ast::{Expr, ExprKind, Operand, OrderBy, OrderByExpr, Query, Select,
    SelectItem, SetExpr};
use crate::text;

verus! {

/// The kinds of expressions that always need the row evaluator.
pub open spec fn always_needs_row(kind: ExprKind) -> bool {
    match kind {
        ExprKind::Subquery | ExprKind::InSubquery | ExprKind::Exists
        | ExprKind::CompoundIdentifier | ExprKind::UnaryOp | ExprKind::BinaryOp | ExprKind::Tuple
        | ExprKind::Like | ExprKind::ILike | ExprKind::Between | ExprKind::AnyOp
        | ExprKind::AllOp | ExprKind::Case | ExprKind::IsDistinctFrom
        | ExprKind::IsNotDistinctFrom => true,
        _ => false,
    }
}

/// The kinds of expressions that need the row evaluator where an operand does.
pub open spec fn needs_row_by_operand(kind: ExprKind) -> bool {
    match kind {
        ExprKind::JsonArrow | ExprKind::Nested | ExprKind::Cast | ExprKind::IsNull
        | ExprKind::IsNotNull | ExprKind::IsTrue | ExprKind::IsNotTrue | ExprKind::IsFalse
        | ExprKind::IsNotFalse | ExprKind::IsUnknown | ExprKind::IsNotUnknown
        | ExprKind::InList => true,
        _ => false,
    }
}

/// The expression cannot be projected from a stored record alone.
pub open spec fn needs_row_evaluator(e: Expr) -> bool
    decreases e,
{
    match e.call {
        Some(f) => !f.spatial_predicate,
        None => {
            ||| always_needs_row(e.kind)
            ||| e.kind == ExprKind::JsonArrow && !e.constant_path
            ||| needs_row_by_operand(e.kind) && some_operand_needs_row(e.operands@)
        },
    }
}

pub open spec fn some_operand_needs_row(operands: Seq<Operand>) -> bool
    decreases operands,
{
    operands.len() > 0 && (some_operand_needs_row(operands.drop_last()) || needs_row_evaluator(
        operands.last().expr,
    ))
}

fn is_always_row(kind: ExprKind) -> (r: bool)
    ensures
        r == always_needs_row(kind),
{
    match kind {
        ExprKind::Subquery | ExprKind::InSubquery | ExprKind::Exists
        | ExprKind::CompoundIdentifier | ExprKind::UnaryOp | ExprKind::BinaryOp | ExprKind::Tuple
        | ExprKind::Like | ExprKind::ILike | ExprKind::Between | ExprKind::AnyOp
        | ExprKind::AllOp | ExprKind::Case | ExprKind::IsDistinctFrom
        | ExprKind::IsNotDistinctFrom => true,
        _ => false,
    }
}

fn is_row_by_operand(kind: ExprKind) -> (r: bool)
    ensures
        r == needs_row_by_operand(kind),
{
    match kind {
        ExprKind::JsonArrow | ExprKind::Nested | ExprKind::Cast | ExprKind::IsNull
        | ExprKind::IsNotNull | ExprKind::IsTrue | ExprKind::IsNotTrue | ExprKind::IsFalse
        | ExprKind::IsNotFalse | ExprKind::IsUnknown | ExprKind::IsNotUnknown
        | ExprKind::InList => true,
        _ => false,
    }
}

/// Whether an expression needs the row evaluator. The record projection has
/// only the table schema; qualified names, subqueries and operators need more.
pub fn expr_needs_row_evaluator(e: &Expr) -> (r: bool)
    ensures
        r == needs_row_evaluator(*e),
    decreases e,
{
    match &e.call {
        Some(f) => !f.spatial_predicate,
        None => {
            if is_always_row(e.kind) {
                return true;
            }
            if e.kind == ExprKind::JsonArrow && !e.constant_path {
                return true;
            }
            if !is_row_by_operand(e.kind) {
                return false;
            }
            let mut i: usize = 0;
            while i < e.operands.len()
                invariant
                    i <= e.operands.len(),
                    !some_operand_needs_row(e.operands@.take(i as int)),
                    needs_row_evaluator(*e) == some_operand_needs_row(e.operands@),
                decreases e.operands.len() - i,
            {
                let needs = expr_needs_row_evaluator(&e.operands[i].expr);
                assert(e.operands@.take(i as int + 1).drop_last() =~= e.operands@.take(i as int));
                if needs {
                    proof {
                        lemma_some_row_prefix(e.operands@, i as int + 1);
                    }
                    return true;
                }
                i = i + 1;
            }
            assert(e.operands@.take(e.operands@.len() as int) =~= e.operands@);
            false
        },
    }
}

proof fn lemma_some_row_prefix(operands: Seq<Operand>, n: int)
    requires
        0 <= n <= operands.len(),
        some_operand_needs_row(operands.take(n)),
    ensures
        some_operand_needs_row(operands),
    decreases operands.len() - n,
{
    if n < operands.len() {
        assert(operands.take(n + 1).drop_last() =~= operands.take(n));
        lemma_some_row_prefix(operands, n + 1);
    } else {
        assert(operands.take(n) =~= operands);
    }
}

/// Whether a projection item needs the row evaluator.
pub fn select_item_needs_row_evaluator(item: &SelectItem) -> (r: bool)
    ensures
        r == (match item {
            SelectItem::UnnamedExpr(expr) => needs_row_evaluator(*expr),
            SelectItem::ExprWithAlias { expr, alias } => needs_row_evaluator(*expr),
            SelectItem::Wildcard(_) => false,
            _ => true,
        }),
{
    match item {
        SelectItem::UnnamedExpr(expr) => expr_needs_row_evaluator(expr),
        SelectItem::ExprWithAlias { expr, alias } => expr_needs_row_evaluator(expr),
        SelectItem::Wildcard(_) => false,
        _ => true,
    }
}

/// Some expression of an ORDER BY needs the row evaluator.
pub open spec fn order_needs_row(order: Seq<OrderByExpr>) -> bool {
    exists|i: int| 0 <= i < order.len() && needs_row_evaluator((#[trigger] order[i]).expr)
}

/// Whether an ORDER BY needs the row evaluator.
pub fn order_by_needs_row_evaluator(order_by: &OrderBy) -> (r: bool)
    ensures
        r == (match order_by {
            OrderBy::All => true,
            OrderBy::Expressions(order) => order_needs_row(order@),
        }),
{
    match order_by {
        OrderBy::All => true,
        OrderBy::Expressions(order) => {
            let mut i: usize = 0;
            while i < order.len()
                invariant
                    i <= order.len(),
                    *order_by == OrderBy::Expressions(*order),
                    forall|k: int| 0 <= k < i ==> !needs_row_evaluator((#[trigger] order@[k]).expr),
                decreases order.len() - i,
            {
                if expr_needs_row_evaluator(&order[i].expr) {
                    assert(needs_row_evaluator(order@[i as int].expr));
                    return true;
                }
                i = i + 1;
            }
            false
        },
    }
}

/// The relation that a FROM item names: its alias, the last part of its name,
/// and whether it is called with arguments.
#[derive(Clone, Debug)]
pub struct TableReference {
    pub alias: Option<String>,
    pub last_name: Option<String>,
    pub has_args: bool,
}

/// The name by which the rest of the query refers to a relation.
pub open spec fn binding_name(relation: TableReference) -> Seq<char> {
    match (relation.alias, relation.last_name) {
        (Some(alias), _) => alias@,
        (None, Some(name)) => name@,
        (None, None) => Seq::empty(),
    }
}

pub open spec fn names_whole_row(e: Expr, relation: TableReference) -> bool {
    e.kind == ExprKind::Identifier && e.names@.len() > 0 && !relation.has_args
        && text::same_ignoring_case(e.names@[0]@, binding_name(relation))
}

/// Whether a projection item is the name of the relation itself, and so stands
/// for its whole row.
pub fn select_item_is_whole_row_reference(item: &SelectItem, relation: &TableReference) -> (r: bool)
    ensures
        r == (match item {
            SelectItem::UnnamedExpr(expr) => names_whole_row(*expr, *relation),
            SelectItem::ExprWithAlias { expr, alias } => names_whole_row(*expr, *relation),
            _ => false,
        }),
{
    let expr: &Expr = match item {
        SelectItem::UnnamedExpr(expr) => expr,
        SelectItem::ExprWithAlias { expr, alias } => expr,
        _ => {
            return false;
        },
    };
    if expr.kind != ExprKind::Identifier || expr.names.len() == 0 || relation.has_args {
        return false;
    }
    let name = expr.names[0].as_str();
    match (&relation.alias, &relation.last_name) {
        (Some(alias), _) => text::eq_ignore_case(name, alias.as_str()),
        (None, Some(last)) => text::eq_ignore_case(name, last.as_str()),
        (None, None) => {
            let empty = String::new();
            text::eq_ignore_case(name, empty.as_str())
        },
    }
}

/// The functions whose value differs from call to call.
pub open spec fn is_volatile_name(n: Seq<char>) -> bool {
    ||| n == "random"@
    ||| n == "pg_catalog.random"@
    ||| n == "now"@
    ||| n == "pg_catalog.now"@
    ||| n == "current_timestamp"@
    ||| n == "pg_catalog.current_timestamp"@
    ||| n == "clock_timestamp"@
    ||| n == "pg_catalog.clock_timestamp"@
    ||| n == "gen_random_uuid"@
    ||| n == "pg_catalog.gen_random_uuid"@
    ||| n == "uuid_generate_v4"@
    ||| n == "public.uuid_generate_v4"@
    ||| n == "uuidv4"@
    ||| n == "pg_catalog.uuidv4"@
    ||| n == "uuidv7"@
    ||| n == "pg_catalog.uuidv7"@
}

/// The kinds of expressions whose operands are searched for volatile calls.
pub open spec fn searched_for_volatile(kind: ExprKind) -> bool {
    match kind {
        ExprKind::BinaryOp | ExprKind::JsonArrow | ExprKind::AnyOp | ExprKind::AllOp
        | ExprKind::Nested | ExprKind::Cast | ExprKind::Collate | ExprKind::UnaryOp
        | ExprKind::IsNull | ExprKind::IsNotNull | ExprKind::IsTrue | ExprKind::IsNotTrue
        | ExprKind::IsFalse | ExprKind::IsNotFalse | ExprKind::IsUnknown | ExprKind::IsNotUnknown
        | ExprKind::InList | ExprKind::Between | ExprKind::Array | ExprKind::Position
        | ExprKind::Extract | ExprKind::Trim | ExprKind::Case => true,
        _ => false,
    }
}

/// The expression calls a volatile function, itself or in what is searched
/// inside it.
pub open spec fn calls_volatile(e: Expr) -> bool
    decreases e,
{
    match e.call {
        Some(f) => is_volatile_name(text::lower(f.name@)) || some_arg_volatile(f.args@),
        None => if e.kind == ExprKind::Subquery {
            match e.query {
                Some(q) => query_volatile(*q),
                None => false,
            }
        } else {
            searched_for_volatile(e.kind) && some_operand_volatile(e.operands@)
        },
    }
}

pub open spec fn some_arg_volatile(args: Seq<Expr>) -> bool
    decreases args,
{
    args.len() > 0 && (some_arg_volatile(args.drop_last()) || calls_volatile(args.last()))
}

pub open spec fn some_operand_volatile(operands: Seq<Operand>) -> bool
    decreases operands,
{
    operands.len() > 0 && (some_operand_volatile(operands.drop_last()) || calls_volatile(
        operands.last().expr,
    ))
}

pub open spec fn query_volatile(q: Query) -> bool
    decreases q,
{
    body_volatile(*q.body)
}

pub open spec fn body_volatile(body: SetExpr) -> bool
    decreases body,
{
    match body {
        SetExpr::Select(select) => select_volatile(*select),
        SetExpr::Query(q) => query_volatile(*q),
        SetExpr::SetOperation { left, right } => body_volatile(*left) || body_volatile(*right),
        _ => false,
    }
}

pub open spec fn select_volatile(select: Select) -> bool
    decreases select,
{
    some_item_volatile(select.projection@) || match select.selection {
        Some(e) => calls_volatile(e),
        None => false,
    }
}

pub open spec fn some_item_volatile(items: Seq<SelectItem>) -> bool
    decreases items,
{
    items.len() > 0 && (some_item_volatile(items.drop_last()) || item_volatile(items.last()))
}

pub open spec fn item_volatile(item: SelectItem) -> bool
    decreases item,
{
    match item {
        SelectItem::UnnamedExpr(expr) => calls_volatile(expr),
        SelectItem::ExprWithAlias { expr, alias } => calls_volatile(expr),
        _ => false,
    }
}

fn volatile_name(n: &str) -> (r: bool)
    ensures
        r == is_volatile_name(n@),
{
    text::text_eq(n, "random") || text::text_eq(n, "pg_catalog.random") || text::text_eq(n, "now")
        || text::text_eq(n, "pg_catalog.now") || text::text_eq(n, "current_timestamp")
        || text::text_eq(n, "pg_catalog.current_timestamp") || text::text_eq(n, "clock_timestamp")
        || text::text_eq(n, "pg_catalog.clock_timestamp") || text::text_eq(n, "gen_random_uuid")
        || text::text_eq(n, "pg_catalog.gen_random_uuid") || text::text_eq(n, "uuid_generate_v4")
        || text::text_eq(n, "public.uuid_generate_v4") || text::text_eq(n, "uuidv4")
        || text::text_eq(n, "pg_catalog.uuidv4") || text::text_eq(n, "uuidv7") || text::text_eq(
        n,
        "pg_catalog.uuidv7",
    )
}

fn search_for_volatile(kind: ExprKind) -> (r: bool)
    ensures
        r == searched_for_volatile(kind),
{
    match kind {
        ExprKind::BinaryOp | ExprKind::JsonArrow | ExprKind::AnyOp | ExprKind::AllOp
        | ExprKind::Nested | ExprKind::Cast | ExprKind::Collate | ExprKind::UnaryOp
        | ExprKind::IsNull | ExprKind::IsNotNull | ExprKind::IsTrue | ExprKind::IsNotTrue
        | ExprKind::IsFalse | ExprKind::IsNotFalse | ExprKind::IsUnknown | ExprKind::IsNotUnknown
        | ExprKind::InList | ExprKind::Between | ExprKind::Array | ExprKind::Position
        | ExprKind::Extract | ExprKind::Trim | ExprKind::Case => true,
        _ => false,
    }
}

proof fn lemma_volatile_operand_prefix(operands: Seq<Operand>, n: int)
    requires
        0 <= n <= operands.len(),
        some_operand_volatile(operands.take(n)),
    ensures
        some_operand_volatile(operands),
    decreases operands.len() - n,
{
    if n < operands.len() {
        assert(operands.take(n + 1).drop_last() =~= operands.take(n));
        lemma_volatile_operand_prefix(operands, n + 1);
    } else {
        assert(operands.take(n) =~= operands);
    }
}

proof fn lemma_volatile_arg_prefix(args: Seq<Expr>, n: int)
    requires
        0 <= n <= args.len(),
        some_arg_volatile(args.take(n)),
    ensures
        some_arg_volatile(args),
    decreases args.len() - n,
{
    if n < args.len() {
        assert(args.take(n + 1).drop_last() =~= args.take(n));
        lemma_volatile_arg_prefix(args, n + 1);
    } else {
        assert(args.take(n) =~= args);
    }
}

proof fn lemma_volatile_item_prefix(items: Seq<SelectItem>, n: int)
    requires
        0 <= n <= items.len(),
        some_item_volatile(items.take(n)),
    ensures
        some_item_volatile(items),
    decreases items.len() - n,
{
    if n < items.len() {
        assert(items.take(n + 1).drop_last() =~= items.take(n));
        lemma_volatile_item_prefix(items, n + 1);
    } else {
        assert(items.take(n) =~= items);
    }
}

fn args_contain_volatile_function(args: &Vec<Expr>) -> (r: bool)
    ensures
        r == some_arg_volatile(args@),
    decreases args,
{
    let mut i: usize = 0;
    while i < args.len()
        invariant
            i <= args.len(),
            !some_arg_volatile(args@.take(i as int)),
        decreases args.len() - i,
    {
        let found = expr_contains_volatile_function(&args[i]);
        assert(args@.take(i as int + 1).drop_last() =~= args@.take(i as int));
        if found {
            proof {
                lemma_volatile_arg_prefix(args@, i as int + 1);
            }
            return true;
        }
        i = i + 1;
    }
    assert(args@.take(args@.len() as int) =~= args@);
    false
}

fn operands_contain_volatile_function(operands: &Vec<Operand>) -> (r: bool)
    ensures
        r == some_operand_volatile(operands@),
    decreases operands,
{
    let mut i: usize = 0;
    while i < operands.len()
        invariant
            i <= operands.len(),
            !some_operand_volatile(operands@.take(i as int)),
        decreases operands.len() - i,
    {
        let found = expr_contains_volatile_function(&operands[i].expr);
        assert(operands@.take(i as int + 1).drop_last() =~= operands@.take(i as int));
        if found {
            proof {
                lemma_volatile_operand_prefix(operands@, i as int + 1);
            }
            return true;
        }
        i = i + 1;
    }
    assert(operands@.take(operands@.len() as int) =~= operands@);
    false
}

/// Whether an expression calls a volatile function.
pub fn expr_contains_volatile_function(e: &Expr) -> (r: bool)
    ensures
        r == calls_volatile(*e),
    decreases e,
{
    match &e.call {
        Some(f) => {
            let name = text::to_lower(f.name.as_str());
            volatile_name(name.as_str()) || args_contain_volatile_function(&f.args)
        },
        None => if e.kind == ExprKind::Subquery {
            match &e.query {
                Some(q) => query_contains_volatile_function(&**q),
                None => false,
            }
        } else {
            search_for_volatile(e.kind) && operands_contain_volatile_function(&e.operands)
        },
    }
}

/// Whether a query calls a volatile function in a projection or a WHERE
/// condition.
pub fn query_contains_volatile_function(query: &Query) -> (r: bool)
    ensures
        r == query_volatile(*query),
    decreases query,
{
    set_expr_contains_volatile_function(&*query.body)
}

/// Whether a query body calls a volatile function.
pub fn set_expr_contains_volatile_function(body: &SetExpr) -> (r: bool)
    ensures
        r == body_volatile(*body),
    decreases body,
{
    match body {
        SetExpr::Select(select) => select_contains_volatile_function(&**select),
        SetExpr::Query(q) => query_contains_volatile_function(&**q),
        SetExpr::SetOperation { left, right } => set_expr_contains_volatile_function(&**left)
            || set_expr_contains_volatile_function(&**right),
        _ => false,
    }
}

fn select_contains_volatile_function(select: &Select) -> (r: bool)
    ensures
        r == select_volatile(*select),
    decreases select,
{
    if items_contain_volatile_function(&select.projection) {
        return true;
    }
    match &select.selection {
        Some(e) => expr_contains_volatile_function(e),
        None => false,
    }
}

fn items_contain_volatile_function(items: &Vec<SelectItem>) -> (r: bool)
    ensures
        r == some_item_volatile(items@),
    decreases items,
{
    let mut i: usize = 0;
    while i < items.len()
        invariant
            i <= items.len(),
            !some_item_volatile(items@.take(i as int)),
        decreases items.len() - i,
    {
        let found = select_item_contains_volatile_function(&items[i]);
        assert(items@.take(i as int + 1).drop_last() =~= items@.take(i as int));
        if found {
            proof {
                lemma_volatile_item_prefix(items@, i as int + 1);
            }
            return true;
        }
        i = i + 1;
    }
    assert(items@.take(items@.len() as int) =~= items@);
    false
}

/// Whether a projection item calls a volatile function.
pub fn select_item_contains_volatile_function(item: &SelectItem) -> (r: bool)
    ensures
        r == item_volatile(*item),
    decreases item,
{
    match item {
        SelectItem::UnnamedExpr(expr) => expr_contains_volatile_function(expr),
        SelectItem::ExprWithAlias { expr, alias } => expr_contains_volatile_function(expr),
        _ => false,
    }
}

} // verus!
