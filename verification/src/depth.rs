//! The guard against pathologically deep or broad expressions in a parsed
//! statement. A statement is the JSON tree of its syntax.
use vstd::prelude::*;
use crate::error;
use crate::error::SqlError;
use crate::json;
use crate::json::{Json, JsonView};
use crate::nesting;
use crate::text;

verus! {

/// The expressions that a named part of a node gives.
pub open spec fn part(node: JsonView, name: Seq<char>) -> Seq<JsonView> {
    match json::field(node, name) {
        Some(v) => json::spread(v),
        None => Seq::empty(),
    }
}

/// The expression that an argument of a function call passes, if it passes one.
pub open spec fn argument_expr(arg: JsonView) -> Seq<JsonView> {
    let value = if json::is_variant(arg, "Unnamed"@) {
        json::payload(arg)
    } else if json::is_variant(arg, "Named"@) || json::is_variant(arg, "ExprNamed"@) {
        json::field_or_null(json::payload(arg), "arg"@)
    } else {
        JsonView::Null
    };
    if json::is_variant(value, "Expr"@) {
        json::spread(json::payload(value))
    } else {
        Seq::empty()
    }
}

pub open spec fn argument_exprs(args: Seq<JsonView>) -> Seq<JsonView>
    decreases args.len(),
{
    if args.len() == 0 {
        Seq::empty()
    } else {
        argument_exprs(args.drop_last()) + argument_expr(args.last())
    }
}

/// The argument list of a function call.
pub open spec fn call_arguments(function: JsonView) -> Seq<JsonView> {
    let args = json::field_or_null(function, "args"@);
    if json::is_variant(args, "List"@) {
        json::elements(json::field_or_null(json::payload(args), "args"@))
    } else {
        Seq::empty()
    }
}

/// A test whose only operand is an expression.
pub open spec fn is_operand_test(e: JsonView) -> bool {
    ||| json::is_variant(e, "IsFalse"@)
    ||| json::is_variant(e, "IsNotFalse"@)
    ||| json::is_variant(e, "IsTrue"@)
    ||| json::is_variant(e, "IsNotTrue"@)
    ||| json::is_variant(e, "IsNull"@)
    ||| json::is_variant(e, "IsNotNull"@)
    ||| json::is_variant(e, "IsUnknown"@)
    ||| json::is_variant(e, "IsNotUnknown"@)
}

/// The direct subexpressions of an expression.
pub open spec fn expr_children(e: JsonView) -> Seq<JsonView> {
    let p = json::payload(e);
    if json::is_variant(e, "BinaryOp"@) {
        part(p, "left"@) + part(p, "right"@)
    } else if json::is_variant(e, "UnaryOp"@) || json::is_variant(e, "Collate"@)
        || json::is_variant(e, "Cast"@) {
        part(p, "expr"@)
    } else if json::is_variant(e, "Nested"@) || is_operand_test(e) || json::is_variant(
        e,
        "IsDistinctFrom"@,
    ) || json::is_variant(e, "IsNotDistinctFrom"@) || json::is_variant(e, "Tuple"@) {
        json::spread(p)
    } else if json::is_variant(e, "Between"@) {
        part(p, "expr"@) + part(p, "low"@) + part(p, "high"@)
    } else if json::is_variant(e, "Like"@) || json::is_variant(e, "ILike"@) || json::is_variant(
        e,
        "SimilarTo"@,
    ) {
        part(p, "expr"@) + part(p, "pattern"@)
    } else if json::is_variant(e, "InList"@) {
        part(p, "expr"@) + part(p, "list"@)
    } else if json::is_variant(e, "Array"@) {
        part(p, "elem"@)
    } else if json::is_variant(e, "Function"@) {
        argument_exprs(call_arguments(p))
    } else {
        Seq::empty()
    }
}

/// The query that an expression embeds directly.
pub open spec fn expr_queries(e: JsonView) -> Seq<JsonView> {
    let p = json::payload(e);
    if json::is_variant(e, "Subquery"@) {
        json::spread(p)
    } else if json::is_variant(e, "Exists"@) || json::is_variant(e, "InSubquery"@) {
        part(p, "subquery"@)
    } else {
        Seq::empty()
    }
}

/// Every listed node is smaller than `bound`.
pub open spec fn all_below(nodes: Seq<JsonView>, bound: nat) -> bool {
    forall|i: int| 0 <= i < nodes.len() ==> json::size(#[trigger] nodes[i]) < bound
}

pub open spec fn largest(nodes: Seq<JsonView>) -> nat
    decreases nodes.len(),
{
    if nodes.len() == 0 {
        0
    } else {
        let rest = largest(nodes.drop_last());
        let last = json::size(nodes.last());
        if last > rest {
            last
        } else {
            rest
        }
    }
}

pub proof fn lemma_size_positive(j: JsonView)
    ensures
        json::size(j) >= 1,
{
}

pub proof fn lemma_largest_below(nodes: Seq<JsonView>, bound: nat)
    requires
        all_below(nodes, bound),
        bound > 0,
    ensures
        largest(nodes) < bound,
    decreases nodes.len(),
{
    if nodes.len() > 0 {
        assert(nodes.last() == nodes[nodes.len() - 1]);
        assert forall|i: int| 0 <= i < nodes.drop_last().len() implies json::size(
            #[trigger] nodes.drop_last()[i],
        ) < bound by {
            assert(nodes.drop_last()[i] == nodes[i]);
        }
        lemma_largest_below(nodes.drop_last(), bound);
    }
}

proof fn lemma_part_below(node: JsonView, name: Seq<char>)
    ensures
        all_below(part(node, name), json::size(node)),
{
    json::lemma_field_size(node, name);
    if let Some(v) = json::field(node, name) {
        assert forall|i: int| 0 <= i < part(node, name).len() implies json::size(
            #[trigger] part(node, name)[i],
        ) < json::size(node) by {
            json::lemma_spread_size(v, i);
        }
    }
}

proof fn lemma_spread_payload_below(e: JsonView)
    ensures
        all_below(json::spread(json::payload(e)), json::size(e)),
{
    json::lemma_payload_size(e);
    assert forall|i: int| 0 <= i < json::spread(json::payload(e)).len() implies json::size(
        #[trigger] json::spread(json::payload(e))[i],
    ) < json::size(e) by {
        json::lemma_spread_size(json::payload(e), i);
    }
}

proof fn lemma_argument_exprs_below(args: Seq<JsonView>, bound: nat)
    requires
        all_below(args, bound),
    ensures
        all_below(argument_exprs(args), bound),
    decreases args.len(),
{
    if args.len() > 0 {
        let rest = args.drop_last();
        assert forall|i: int| 0 <= i < rest.len() implies json::size(#[trigger] rest[i])
            < bound by {
            assert(rest[i] == args[i]);
        }
        lemma_argument_exprs_below(rest, bound);
        let last = args.last();
        assert(last == args[args.len() - 1]);
        json::lemma_payload_size(last);
        json::lemma_field_size(json::payload(last), "arg"@);
        let value = if json::is_variant(last, "Unnamed"@) {
            json::payload(last)
        } else if json::is_variant(last, "Named"@) || json::is_variant(last, "ExprNamed"@) {
            json::field_or_null(json::payload(last), "arg"@)
        } else {
            JsonView::Null
        };
        lemma_size_positive(last);
        lemma_size_positive(json::payload(last));
        assert(json::size(value) <= json::size(last));
        lemma_spread_payload_below(value);
        let own = argument_expr(last);
        assert forall|i: int| 0 <= i < own.len() implies json::size(#[trigger] own[i]) < bound by {}
        let all = argument_exprs(args);
        assert forall|i: int| 0 <= i < all.len() implies json::size(#[trigger] all[i]) < bound by {
            let head = argument_exprs(rest);
            if i < head.len() {
                assert(all[i] == head[i]);
            } else {
                assert(all[i] == own[i - head.len()]);
            }
        }
    }
}

/// A subexpression is smaller than the expression it stands in.
pub proof fn lemma_children_below(e: JsonView)
    ensures
        all_below(expr_children(e), json::size(e)),
{
    let p = json::payload(e);
    json::lemma_payload_size(e);
    lemma_spread_payload_below(e);
    lemma_part_below(p, "left"@);
    lemma_part_below(p, "right"@);
    lemma_part_below(p, "expr"@);
    lemma_part_below(p, "low"@);
    lemma_part_below(p, "high"@);
    lemma_part_below(p, "pattern"@);
    lemma_part_below(p, "list"@);
    lemma_part_below(p, "elem"@);
    let args = call_arguments(p);
    assert(all_below(args, json::size(e))) by {
        json::lemma_field_size(p, "args"@);
        let list = json::field_or_null(p, "args"@);
        lemma_size_positive(p);
        json::lemma_payload_size(list);
        json::lemma_field_size(json::payload(list), "args"@);
        let items = json::field_or_null(json::payload(list), "args"@);
        assert forall|i: int| 0 <= i < args.len() implies json::size(#[trigger] args[i])
            < json::size(e) by {
            json::lemma_element_size(items, i);
        }
    }
    lemma_argument_exprs_below(args, json::size(e));
}

/// A query is smaller than the expression it stands in.
pub proof fn lemma_queries_below(e: JsonView)
    ensures
        all_below(expr_queries(e), json::size(e)),
{
    json::lemma_payload_size(e);
    lemma_spread_payload_below(e);
    lemma_part_below(json::payload(e), "subquery"@);
}

/// The depths at which the expressions inside `e` stand, in the order in which
/// they are visited: an expression before its subexpressions, and of these the
/// last one first.
pub open spec fn expr_visits(e: JsonView, depth: nat) -> Seq<nat>
    decreases json::size(e), 0nat,
{
    proof {
        lemma_children_below(e);
        lemma_size_positive(e);
        lemma_largest_below(expr_children(e), json::size(e));
    }
    seq![depth] + list_visits(expr_children(e), depth + 1)
}

pub open spec fn list_visits(exprs: Seq<JsonView>, depth: nat) -> Seq<nat>
    decreases largest(exprs), exprs.len() + 1,
{
    if exprs.len() == 0 {
        Seq::empty()
    } else {
        expr_visits(exprs.last(), depth) + list_visits(exprs.drop_last(), depth)
    }
}

/// The queries inside `e`, in the order in which they are met.
pub open spec fn expr_pushes(e: JsonView) -> Seq<JsonView>
    decreases json::size(e), 0nat,
{
    proof {
        lemma_children_below(e);
        lemma_size_positive(e);
        lemma_largest_below(expr_children(e), json::size(e));
    }
    expr_queries(e) + list_pushes(expr_children(e))
}

pub open spec fn list_pushes(exprs: Seq<JsonView>) -> Seq<JsonView>
    decreases largest(exprs), exprs.len() + 1,
{
    if exprs.len() == 0 {
        Seq::empty()
    } else {
        expr_pushes(exprs.last()) + list_pushes(exprs.drop_last())
    }
}

proof fn lemma_pushes_below(e: JsonView)
    ensures
        all_below(expr_pushes(e), json::size(e)),
    decreases json::size(e), 0nat,
{
    lemma_children_below(e);
    lemma_queries_below(e);
    lemma_size_positive(e);
    lemma_largest_below(expr_children(e), json::size(e));
    lemma_list_pushes_below(expr_children(e), json::size(e));
    let all = expr_pushes(e);
    let own = expr_queries(e);
    assert forall|i: int| 0 <= i < all.len() implies json::size(#[trigger] all[i]) < json::size(
        e,
    ) by {
        if i < own.len() {
            assert(all[i] == own[i]);
        } else {
            assert(all[i] == list_pushes(expr_children(e))[i - own.len()]);
        }
    }
}

proof fn lemma_list_pushes_below(exprs: Seq<JsonView>, bound: nat)
    requires
        all_below(exprs, bound),
    ensures
        all_below(list_pushes(exprs), bound),
    decreases largest(exprs), exprs.len() + 1,
{
    if exprs.len() > 0 {
        let rest = exprs.drop_last();
        assert(exprs.last() == exprs[exprs.len() - 1]);
        lemma_pushes_below(exprs.last());
        assert forall|i: int| 0 <= i < rest.len() implies json::size(#[trigger] rest[i])
            < bound by {
            assert(rest[i] == exprs[i]);
        }
        lemma_list_pushes_below(rest, bound);
        let own = expr_pushes(exprs.last());
        let all = list_pushes(exprs);
        assert forall|i: int| 0 <= i < all.len() implies json::size(#[trigger] all[i]) < bound by {
            if i < own.len() {
                assert(all[i] == own[i]);
            } else {
                assert(all[i] == list_pushes(rest)[i - own.len()]);
            }
        }
    }
}

/// Why an expression is refused.
pub enum Refusal {
    Nodes,
    Depth,
}

/// The first reason to refuse that turns up on visiting expressions at the
/// given depths, `count` of them having been visited before.
pub open spec fn first_refusal(
    visits: Seq<nat>,
    limit: nat,
    node_limit: nat,
    count: nat,
) -> Option<Refusal>
    decreases visits.len(),
{
    if visits.len() == 0 {
        None
    } else if count + 1 > node_limit {
        Some(Refusal::Nodes)
    } else if visits[0] > limit {
        Some(Refusal::Depth)
    } else {
        first_refusal(visits.skip(1), limit, node_limit, count + 1)
    }
}

/// Nothing is refused exactly when neither limit is passed.
pub proof fn law_nothing_refused(visits: Seq<nat>, limit: nat, node_limit: nat, count: nat)
    ensures
        first_refusal(visits, limit, node_limit, count) is None <==> ((visits.len() == 0 || count
            + visits.len() <= node_limit) && (forall|i: int|
            0 <= i < visits.len() ==> #[trigger] visits[i] <= limit)),
    decreases visits.len(),
{
    if visits.len() > 0 {
        let rest = visits.skip(1);
        law_nothing_refused(rest, limit, node_limit, count + 1);
        assert forall|i: int| 0 <= i < rest.len() implies #[trigger] rest[i] == visits[i + 1] by {}
        if count + visits.len() <= node_limit && (forall|i: int|
            0 <= i < visits.len() ==> #[trigger] visits[i] <= limit) {
            assert(visits[0] <= limit);
        }
        if first_refusal(visits, limit, node_limit, count) is None {
            assert forall|i: int| 0 <= i < visits.len() implies #[trigger] visits[i] <= limit by {
                if i > 0 {
                    assert(visits[i] == rest[i - 1]);
                }
            }
        }
    }
}

proof fn lemma_refusal_append(
    a: Seq<nat>,
    b: Seq<nat>,
    limit: nat,
    node_limit: nat,
    count: nat,
)
    ensures
        first_refusal(a + b, limit, node_limit, count) == match first_refusal(
            a,
            limit,
            node_limit,
            count,
        ) {
            Some(r) => Some(r),
            None => first_refusal(b, limit, node_limit, count + a.len()),
        },
    decreases a.len(),
{
    if a.len() == 0 {
        assert(a + b =~= b);
    } else {
        assert((a + b).skip(1) =~= a.skip(1) + b);
        lemma_refusal_append(a.skip(1), b, limit, node_limit, count + 1);
    }
}

/// What each of a list of nodes gives, in a row.
pub open spec fn gather(
    nodes: Seq<JsonView>,
    f: spec_fn(JsonView) -> Seq<JsonView>,
) -> Seq<JsonView>
    decreases nodes.len(),
{
    if nodes.len() == 0 {
        Seq::empty()
    } else {
        gather(nodes.drop_last(), f) + f(nodes.last())
    }
}

/// The expression that a projection item computes.
pub open spec fn item_expr(item: JsonView) -> Seq<JsonView> {
    if json::is_variant(item, "UnnamedExpr"@) {
        json::spread(json::payload(item))
    } else if json::is_variant(item, "ExprWithAlias"@) {
        part(json::payload(item), "expr"@)
    } else {
        Seq::empty()
    }
}

/// The condition of a join written with `ON`.
pub open spec fn join_condition(join: JsonView) -> Seq<JsonView> {
    let operator = json::field_or_null(join, "join_operator"@);
    let constraint = json::payload(operator);
    if (json::is_variant(operator, "Inner"@) || json::is_variant(operator, "LeftOuter"@)
        || json::is_variant(operator, "RightOuter"@) || json::is_variant(operator, "FullOuter"@))
        && json::is_variant(constraint, "On"@) {
        json::spread(json::payload(constraint))
    } else {
        Seq::empty()
    }
}

pub open spec fn table_conditions(table: JsonView) -> Seq<JsonView> {
    gather(json::elements(json::field_or_null(table, "joins"@)), |j: JsonView| join_condition(j))
}

pub open spec fn grouping_exprs(select: JsonView) -> Seq<JsonView> {
    let group_by = json::field_or_null(select, "group_by"@);
    if json::is_variant(group_by, "Expressions"@) && json::elements(json::payload(group_by)).len()
        > 0 {
        json::elements(json::elements(json::payload(group_by))[0])
    } else {
        Seq::empty()
    }
}

/// The expressions that a SELECT exposes directly: its projection, its WHERE
/// and HAVING conditions, its grouping and the conditions of its joins.
pub open spec fn select_roots(select: JsonView) -> Seq<JsonView> {
    gather(
        json::elements(json::field_or_null(select, "projection"@)),
        |i: JsonView| item_expr(i),
    ) + part(select, "selection"@) + part(select, "having"@) + grouping_exprs(select) + gather(
        json::elements(json::field_or_null(select, "from"@)),
        |t: JsonView| table_conditions(t),
    )
}

proof fn lemma_gather_below(
    nodes: Seq<JsonView>,
    f: spec_fn(JsonView) -> Seq<JsonView>,
    bound: nat,
)
    requires
        forall|i: int| 0 <= i < nodes.len() ==> all_below(f(#[trigger] nodes[i]), bound),
    ensures
        all_below(gather(nodes, f), bound),
    decreases nodes.len(),
{
    if nodes.len() > 0 {
        let rest = nodes.drop_last();
        assert forall|i: int| 0 <= i < rest.len() implies all_below(
            f(#[trigger] rest[i]),
            bound,
        ) by {
            assert(rest[i] == nodes[i]);
        }
        lemma_gather_below(rest, f, bound);
        assert(nodes.last() == nodes[nodes.len() - 1]);
        let own = f(nodes.last());
        let head = gather(rest, f);
        let all = gather(nodes, f);
        assert forall|i: int| 0 <= i < all.len() implies json::size(#[trigger] all[i]) < bound by {
            if i < head.len() {
                assert(all[i] == head[i]);
            } else {
                assert(all[i] == own[i - head.len()]);
            }
        }
    }
}

proof fn lemma_all_below_append(a: Seq<JsonView>, b: Seq<JsonView>, bound: nat)
    requires
        all_below(a, bound),
        all_below(b, bound),
    ensures
        all_below(a + b, bound),
{
    assert forall|i: int| 0 <= i < (a + b).len() implies json::size(#[trigger] (a + b)[i])
        < bound by {
        if i < a.len() {
            assert((a + b)[i] == a[i]);
        } else {
            assert((a + b)[i] == b[i - a.len()]);
        }
    }
}

proof fn lemma_named_elements_below(node: JsonView, name: Seq<char>)
    ensures
        all_below(json::elements(json::field_or_null(node, name)), json::size(node)),
{
    json::lemma_field_size(node, name);
    let v = json::field_or_null(node, name);
    assert forall|i: int| 0 <= i < json::elements(v).len() implies json::size(
        #[trigger] json::elements(v)[i],
    ) < json::size(node) by {
        json::lemma_element_size(v, i);
    }
}

proof fn lemma_join_condition_below(join: JsonView)
    ensures
        all_below(join_condition(join), json::size(join)),
{
    let operator = json::field_or_null(join, "join_operator"@);
    json::lemma_field_size(join, "join_operator"@);
    json::lemma_payload_size(operator);
    lemma_spread_payload_below(json::payload(operator));
    lemma_size_positive(join);
}

proof fn lemma_table_conditions_below(table: JsonView)
    ensures
        all_below(table_conditions(table), json::size(table)),
{
    let joins = json::elements(json::field_or_null(table, "joins"@));
    lemma_named_elements_below(table, "joins"@);
    let f = |j: JsonView| join_condition(j);
    assert forall|i: int| 0 <= i < joins.len() implies all_below(
        f(#[trigger] joins[i]),
        json::size(table),
    ) by {
        lemma_join_condition_below(joins[i]);
    }
    lemma_gather_below(joins, f, json::size(table));
}

pub proof fn lemma_roots_below(select: JsonView)
    ensures
        all_below(select_roots(select), json::size(select)),
{
    let bound = json::size(select);
    let items = json::elements(json::field_or_null(select, "projection"@));
    let f = |i: JsonView| item_expr(i);
    lemma_named_elements_below(select, "projection"@);
    assert forall|i: int| 0 <= i < items.len() implies all_below(f(#[trigger] items[i]), bound) by {
        lemma_spread_payload_below(items[i]);
        json::lemma_payload_size(items[i]);
        lemma_part_below(json::payload(items[i]), "expr"@);
    }
    lemma_gather_below(items, f, bound);
    lemma_part_below(select, "selection"@);
    lemma_part_below(select, "having"@);
    let group_by = json::field_or_null(select, "group_by"@);
    json::lemma_field_size(select, "group_by"@);
    json::lemma_payload_size(group_by);
    assert(all_below(grouping_exprs(select), bound)) by {
        let p = json::payload(group_by);
        if json::is_variant(group_by, "Expressions"@) && json::elements(p).len() > 0 {
            json::lemma_element_size(p, 0);
            let inner = json::elements(p)[0];
            assert forall|i: int| 0 <= i < json::elements(inner).len() implies json::size(
                #[trigger] json::elements(inner)[i],
            ) < bound by {
                json::lemma_element_size(inner, i);
            }
        }
    }
    let tables = json::elements(json::field_or_null(select, "from"@));
    let g = |t: JsonView| table_conditions(t);
    lemma_named_elements_below(select, "from"@);
    assert forall|i: int| 0 <= i < tables.len() implies all_below(
        g(#[trigger] tables[i]),
        bound,
    ) by {
        lemma_table_conditions_below(tables[i]);
    }
    lemma_gather_below(tables, g, bound);
    let a = gather(items, f);
    let b = part(select, "selection"@);
    let c = part(select, "having"@);
    let d = grouping_exprs(select);
    lemma_all_below_append(a, b, bound);
    lemma_all_below_append(a + b, c, bound);
    lemma_all_below_append(a + b + c, d, bound);
    lemma_all_below_append(a + b + c + d, gather(tables, g), bound);
}

/// The visits of a list of root expressions, one after the other.
pub open spec fn roots_visits(roots: Seq<JsonView>) -> Seq<nat>
    decreases roots.len(),
{
    if roots.len() == 0 {
        Seq::empty()
    } else {
        expr_visits(roots[0], 1) + roots_visits(roots.skip(1))
    }
}

pub open spec fn roots_pushes(roots: Seq<JsonView>) -> Seq<JsonView>
    decreases roots.len(),
{
    if roots.len() == 0 {
        Seq::empty()
    } else {
        expr_pushes(roots[0]) + roots_pushes(roots.skip(1))
    }
}

/// The visits of a query body itself, without the queries inside it. Of a set
/// operation the right arm comes first.
pub open spec fn body_visits(body: JsonView) -> Seq<nat>
    decreases json::size(body),
{
    let p = json::payload(body);
    if json::is_variant(body, "Select"@) {
        roots_visits(select_roots(p))
    } else if json::is_variant(body, "Query"@) {
        Seq::empty()
    } else if json::is_variant(body, "SetOperation"@) {
        proof {
            json::lemma_payload_size(body);
            json::lemma_field_size(p, "left"@);
            json::lemma_field_size(p, "right"@);
        }
        match (json::field(p, "left"@), json::field(p, "right"@)) {
            (Some(left), Some(right)) => body_visits(right) + body_visits(left),
            _ => Seq::empty(),
        }
    } else {
        Seq::empty()
    }
}

/// The queries that a query body holds, in the order in which they are met.
pub open spec fn body_pushes(body: JsonView) -> Seq<JsonView>
    decreases json::size(body),
{
    let p = json::payload(body);
    if json::is_variant(body, "Select"@) {
        roots_pushes(select_roots(p))
    } else if json::is_variant(body, "Query"@) {
        json::spread(p)
    } else if json::is_variant(body, "SetOperation"@) {
        proof {
            json::lemma_payload_size(body);
            json::lemma_field_size(p, "left"@);
            json::lemma_field_size(p, "right"@);
        }
        match (json::field(p, "left"@), json::field(p, "right"@)) {
            (Some(left), Some(right)) => body_pushes(right) + body_pushes(left),
            _ => Seq::empty(),
        }
    } else {
        Seq::empty()
    }
}

proof fn lemma_roots_pushes_below(roots: Seq<JsonView>, bound: nat)
    requires
        all_below(roots, bound),
    ensures
        all_below(roots_pushes(roots), bound),
    decreases roots.len(),
{
    if roots.len() > 0 {
        lemma_pushes_below(roots[0]);
        let rest = roots.skip(1);
        assert forall|i: int| 0 <= i < rest.len() implies json::size(#[trigger] rest[i])
            < bound by {
            assert(rest[i] == roots[i + 1]);
        }
        lemma_roots_pushes_below(rest, bound);
        let own = expr_pushes(roots[0]);
        assert forall|i: int| 0 <= i < own.len() implies json::size(#[trigger] own[i]) < bound by {
            assert(json::size(own[i]) < json::size(roots[0]));
        }
        lemma_all_below_append(own, roots_pushes(rest), bound);
    }
}

pub proof fn lemma_body_pushes_below(body: JsonView)
    ensures
        all_below(body_pushes(body), json::size(body)),
    decreases json::size(body),
{
    let p = json::payload(body);
    let bound = json::size(body);
    json::lemma_payload_size(body);
    lemma_spread_payload_below(body);
    if json::is_variant(body, "Select"@) {
        lemma_roots_below(p);
        lemma_roots_pushes_below(select_roots(p), json::size(p));
    } else if json::is_variant(body, "Query"@) {
    } else if json::is_variant(body, "SetOperation"@) {
        json::lemma_field_size(p, "left"@);
        json::lemma_field_size(p, "right"@);
        if let (Some(left), Some(right)) = (json::field(p, "left"@), json::field(p, "right"@)) {
            lemma_body_pushes_below(left);
            lemma_body_pushes_below(right);
            assert forall|i: int| 0 <= i < body_pushes(left).len() implies json::size(
                #[trigger] body_pushes(left)[i],
            ) < bound by {}
            assert forall|i: int| 0 <= i < body_pushes(right).len() implies json::size(
                #[trigger] body_pushes(right)[i],
            ) < bound by {}
            lemma_all_below_append(body_pushes(right), body_pushes(left), bound);
        }
    }
}

/// The visits of a query: its body, then the queries inside it, the last one
/// met first.
pub open spec fn query_visits(query: JsonView) -> Seq<nat>
    decreases json::size(query), 0nat,
{
    match json::field(query, "body"@) {
        Some(body) => {
            proof {
                json::lemma_field_size(query, "body"@);
                lemma_body_pushes_below(body);
                lemma_size_positive(body);
                lemma_largest_below(body_pushes(body), json::size(body));
            }
            body_visits(body) + queries_visits(body_pushes(body))
        },
        None => Seq::empty(),
    }
}

pub open spec fn queries_visits(queries: Seq<JsonView>) -> Seq<nat>
    decreases largest(queries), queries.len() + 1,
{
    if queries.len() == 0 {
        Seq::empty()
    } else {
        query_visits(queries.last()) + queries_visits(queries.drop_last())
    }
}

/// The query that a statement runs: a query itself, or the source of an insert.
pub open spec fn statement_query(statement: JsonView) -> Seq<JsonView> {
    if json::is_variant(statement, "Query"@) {
        json::spread(json::payload(statement))
    } else if json::is_variant(statement, "Insert"@) {
        part(json::payload(statement), "source"@)
    } else {
        Seq::empty()
    }
}

/// The values that assignments give.
pub open spec fn assigned_exprs(node: JsonView) -> Seq<JsonView> {
    gather(
        json::elements(json::field_or_null(node, "assignments"@)),
        |a: JsonView| part(a, "value"@),
    )
}

/// The expressions of a RETURNING clause.
pub open spec fn returned_exprs(node: JsonView) -> Seq<JsonView> {
    gather(
        json::elements(json::field_or_null(node, "returning"@)),
        |i: JsonView| item_expr(i),
    )
}

/// What an insert does where a row is there already, if it changes that row.
pub open spec fn conflict_update(insert: JsonView) -> JsonView {
    let on = json::field_or_null(insert, "on"@);
    let action = json::field_or_null(json::payload(on), "action"@);
    if json::is_variant(on, "OnConflict"@) && json::is_variant(action, "DoUpdate"@) {
        json::payload(action)
    } else {
        JsonView::Null
    }
}

/// The expressions that a statement exposes besides those of the query that it
/// runs.
pub open spec fn statement_roots(statement: JsonView) -> Seq<JsonView> {
    let p = json::payload(statement);
    if json::is_variant(statement, "Update"@) {
        assigned_exprs(p) + part(p, "selection"@) + returned_exprs(p)
    } else if json::is_variant(statement, "Delete"@) {
        part(p, "selection"@) + returned_exprs(p)
    } else if json::is_variant(statement, "Insert"@) {
        assigned_exprs(conflict_update(p)) + part(conflict_update(p), "selection"@)
            + returned_exprs(p)
    } else {
        Seq::empty()
    }
}

/// The depths of the expressions that the statements of a list expose, in the order
/// in which they are visited: what they expose themselves, then the queries.
pub open spec fn statements_visits(statements: Seq<JsonView>) -> Seq<nat> {
    let roots = gather(statements, |s: JsonView| statement_roots(s));
    roots_visits(roots) + queries_visits(
        gather(statements, |s: JsonView| statement_query(s)) + roots_pushes(roots),
    )
}

/// Why statements are refused, if they are: an expression that they expose, in the
/// order of the visits, or any expression in them that is too deep.
pub open spec fn refusal_of(statements: Seq<JsonView>, limit: nat, node_limit: nat) -> Option<
    Refusal,
> {
    match first_refusal(statements_visits(statements), limit, node_limit, 0) {
        Some(refusal) => Some(refusal),
        None => if nesting::all_within(statements, limit) {
            None
        } else {
            Some(Refusal::Depth)
        },
    }
}

fn push_part<'a>(out: &mut Vec<&'a Json>, node: Option<&'a Json>, name: &str)
    ensures
        json::refs_view(final(out)@) == json::refs_view(old(out)@) + match node {
            Some(node) => part(node@, name@),
            None => Seq::empty(),
        },
{
    match node {
        Some(node) => {
            json::push_spread(out, json::get_field(node, name));
        },
        None => {
            assert(json::refs_view(out@) =~= json::refs_view(out@) + Seq::<JsonView>::empty());
        },
    }
}

/// The items of an array under a name.
fn named_items<'a>(node: Option<&'a Json>, name: &str) -> (r: Option<&'a Vec<Json>>)
    ensures
        match node {
            Some(node) => match r {
                Some(items) => json::elements(json::field_or_null(node@, name@))
                    == json::items_view(items@),
                None => json::elements(json::field_or_null(node@, name@)).len() == 0,
            },
            None => r is None,
        },
{
    match node {
        Some(node) => match json::get_field(node, name) {
            Some(Json::Array(items)) => Some(items),
            _ => None,
        },
        None => None,
    }
}

fn push_argument_expr<'a>(out: &mut Vec<&'a Json>, arg: &'a Json)
    ensures
        json::refs_view(final(out)@) == json::refs_view(old(out)@) + argument_expr(arg@),
{
    let value: Option<&Json> = if json::has_variant(arg, "Unnamed") {
        json::variant_payload(arg)
    } else if json::has_variant(arg, "Named") || json::has_variant(arg, "ExprNamed") {
        match json::variant_payload(arg) {
            Some(p) => json::get_field(p, "arg"),
            None => None,
        }
    } else {
        None
    };
    match value {
        Some(value) => {
            if json::has_variant(value, "Expr") {
                json::push_spread(out, json::variant_payload(value));
            }
        },
        None => {},
    }
    assert(json::refs_view(out@) =~= json::refs_view(old(out)@) + argument_expr(arg@));
}

/// Appends the direct subexpressions of an expression.
fn push_children<'a>(e: &'a Json, out: &mut Vec<&'a Json>)
    ensures
        json::refs_view(final(out)@) == json::refs_view(old(out)@) + expr_children(e@),
{
    let ghost before = json::refs_view(out@);
    let p = json::variant_payload(e);
    if json::has_variant(e, "BinaryOp") {
        push_part(out, p, "left");
        push_part(out, p, "right");
    } else if json::has_variant(e, "UnaryOp") || json::has_variant(e, "Collate")
        || json::has_variant(e, "Cast") {
        push_part(out, p, "expr");
    } else if json::has_variant(e, "Nested") || operand_test(e) || json::has_variant(
        e,
        "IsDistinctFrom",
    ) || json::has_variant(e, "IsNotDistinctFrom") || json::has_variant(e, "Tuple") {
        json::push_spread(out, p);
    } else if json::has_variant(e, "Between") {
        push_part(out, p, "expr");
        push_part(out, p, "low");
        push_part(out, p, "high");
    } else if json::has_variant(e, "Like") || json::has_variant(e, "ILike") || json::has_variant(
        e,
        "SimilarTo",
    ) {
        push_part(out, p, "expr");
        push_part(out, p, "pattern");
    } else if json::has_variant(e, "InList") {
        push_part(out, p, "expr");
        push_part(out, p, "list");
    } else if json::has_variant(e, "Array") {
        push_part(out, p, "elem");
    } else if json::has_variant(e, "Function") {
        push_call_arguments(out, p);
    }
    assert(json::refs_view(out@) =~= before + expr_children(e@));
}

fn operand_test(e: &Json) -> (r: bool)
    ensures
        r == is_operand_test(e@),
{
    json::has_variant(e, "IsFalse") || json::has_variant(e, "IsNotFalse") || json::has_variant(
        e,
        "IsTrue",
    ) || json::has_variant(e, "IsNotTrue") || json::has_variant(e, "IsNull") || json::has_variant(
        e,
        "IsNotNull",
    ) || json::has_variant(e, "IsUnknown") || json::has_variant(e, "IsNotUnknown")
}

pub(crate) fn push_call_arguments<'a>(out: &mut Vec<&'a Json>, function: Option<&'a Json>)
    ensures
        json::refs_view(final(out)@) == json::refs_view(old(out)@) + match function {
            Some(f) => argument_exprs(call_arguments(f@)),
            None => Seq::empty(),
        },
{
    let ghost before = json::refs_view(out@);
    let ghost all = match function {
        Some(f) => call_arguments(f@),
        None => Seq::empty(),
    };
    let args: Option<&Json> = match function {
        Some(f) => json::get_field(f, "args"),
        None => None,
    };
    let items: Option<&Vec<Json>> = match args {
        Some(args) => if json::has_variant(args, "List") {
            named_items(json::variant_payload(args), "args")
        } else {
            None
        },
        None => None,
    };
    match items {
        Some(items) => {
            broadcast use json::lemma_items_view;

            let mut i: usize = 0;
            assert(all == json::items_view(items@));
            assert(all.take(0) =~= Seq::<JsonView>::empty());
            while i < items.len()
                invariant
                    i <= items.len(),
                    all == json::items_view(items@),
                    json::refs_view(out@) == before + argument_exprs(all.take(i as int)),
                decreases items.len() - i,
            {
                broadcast use json::lemma_items_view;

                push_argument_expr(out, &items[i]);
                assert(all.take(i as int + 1).drop_last() =~= all.take(i as int));
                assert(json::refs_view(out@) =~= before + argument_exprs(all.take(i as int + 1)));
                i = i + 1;
            }
            assert(all.take(all.len() as int) =~= all);
        },
        None => {
            assert(all.len() == 0);
            assert(json::refs_view(out@) =~= before + argument_exprs(all));
        },
    }
}

pub(crate) fn push_queries<'a>(e: &'a Json, out: &mut Vec<&'a Json>)
    ensures
        json::refs_view(final(out)@) == json::refs_view(old(out)@) + expr_queries(e@),
{
    let ghost before = json::refs_view(out@);
    let p = json::variant_payload(e);
    if json::has_variant(e, "Subquery") {
        json::push_spread(out, p);
    } else if json::has_variant(e, "Exists") || json::has_variant(e, "InSubquery") {
        push_part(out, p, "subquery");
    }
    assert(json::refs_view(out@) =~= before + expr_queries(e@));
}

/// The visits that the expressions on a stack still cause, the top one first.
spec fn stack_visits(stack: Seq<(&Json, usize)>) -> Seq<nat>
    decreases stack.len(),
{
    if stack.len() == 0 {
        Seq::empty()
    } else {
        expr_visits(stack.last().0@, stack.last().1 as nat) + stack_visits(stack.drop_last())
    }
}

spec fn stack_pushes(stack: Seq<(&Json, usize)>) -> Seq<JsonView>
    decreases stack.len(),
{
    if stack.len() == 0 {
        Seq::empty()
    } else {
        expr_pushes(stack.last().0@) + stack_pushes(stack.drop_last())
    }
}

pub open spec fn nodes_message(node_limit: nat) -> Seq<char> {
    "statement has more than "@ + text::decimal(node_limit)
        + " expression nodes;                                  shorten the query (e.g. a smaller IN list or array) or                                  raise BICDB_MAX_EXPRESSION_NODES"@
}

pub open spec fn depth_message(limit: nat) -> Seq<char> {
    "expression nests deeper than the limit of "@ + text::decimal(limit)
        + "; simplify the query or raise BICDB_MAX_EXPRESSION_DEPTH"@
}

/// The error that a refusal is reported with.
pub open spec fn refusal_error(refusal: Refusal, limit: nat, node_limit: nat) -> error::ErrorView {
    match refusal {
        Refusal::Nodes => error::resource_limit_error("54001"@, nodes_message(node_limit)),
        Refusal::Depth => error::resource_limit_error("54001"@, depth_message(limit)),
    }
}

fn nodes_error(node_limit: usize) -> (e: SqlError)
    ensures
        e@ == error::resource_limit_error("54001"@, nodes_message(node_limit as nat)),
{
    let message = text::concat3(
        "statement has more than ",
        text::decimal_text(node_limit as u64).as_str(),
        " expression nodes;                                  shorten the query (e.g. a smaller IN list or array) or                                  raise BICDB_MAX_EXPRESSION_NODES",
    );
    SqlError::resource_limit("54001", message)
}

pub(crate) fn depth_error(limit: usize) -> (e: SqlError)
    ensures
        e@ == error::resource_limit_error("54001"@, depth_message(limit as nat)),
{
    let message = text::concat3(
        "expression nests deeper than the limit of ",
        text::decimal_text(limit as u64).as_str(),
        "; simplify the query or raise BICDB_MAX_EXPRESSION_DEPTH",
    );
    SqlError::resource_limit("54001", message)
}

/// What a scan over the given visits comes to, where `count` expressions have
/// been visited before: the new count, or the error of the first refusal.
pub open spec fn scan_outcome(
    r: Result<usize, SqlError>,
    visits: Seq<nat>,
    limit: nat,
    node_limit: nat,
    count: nat,
) -> bool {
    match (r, first_refusal(visits, limit, node_limit, count)) {
        (Ok(n), None) => n == count + visits.len() && n <= node_limit,
        (Err(e), Some(refusal)) => e@ == refusal_error(refusal, limit, node_limit),
        _ => false,
    }
}

proof fn lemma_some_visit(exprs: Seq<JsonView>, depth: nat)
    requires
        exprs.len() > 0,
    ensures
        list_visits(exprs, depth).len() > 0,
{
    let first = expr_visits(exprs.last(), depth);
    assert(first.len() > 0) by {
        assert(first == seq![depth] + list_visits(expr_children(exprs.last()), depth + 1));
    }
}

/// Moves listed expressions onto the stack, each at the given depth.
fn push_at_depth<'a>(
    stack: &mut Vec<(&'a Json, usize)>,
    exprs: &Vec<&'a Json>,
    depth: usize,
)
    ensures
        stack_visits(final(stack)@) == list_visits(json::refs_view(exprs@), depth as nat)
            + stack_visits(old(stack)@),
        stack_pushes(final(stack)@) == list_pushes(json::refs_view(exprs@)) + stack_pushes(
            old(stack)@,
        ),
        final(stack)@.len() == old(stack)@.len() + exprs@.len(),
        forall|k: int|
            0 <= k < final(stack)@.len() ==> (#[trigger] final(stack)@[k]).1 == if k < old(
                stack,
            )@.len() {
                old(stack)@[k].1
            } else {
                depth
            },
{
    let ghost before = stack@;
    let ghost all = json::refs_view(exprs@);
    let mut i: usize = 0;
    assert(stack_visits(stack@) =~= list_visits(all.take(0), depth as nat) + stack_visits(before));
    assert(stack_pushes(stack@) =~= list_pushes(all.take(0)) + stack_pushes(before));
    while i < exprs.len()
        invariant
            i <= exprs.len(),
            all == json::refs_view(exprs@),
            stack_visits(stack@) == list_visits(all.take(i as int), depth as nat) + stack_visits(
                before,
            ),
            stack_pushes(stack@) == list_pushes(all.take(i as int)) + stack_pushes(before),
            stack@.len() == before.len() + i,
            forall|k: int|
                0 <= k < stack@.len() ==> (#[trigger] stack@[k]).1 == if k < before.len() {
                    before[k].1
                } else {
                    depth
                },
        decreases exprs.len() - i,
    {
        let ghost prior = stack@;
        stack.push((exprs[i], depth));
        assert(stack@.drop_last() =~= prior);
        assert(all.take(i as int + 1).drop_last() =~= all.take(i as int));
        assert(all.take(i as int + 1).last() == exprs@[i as int]@);
        assert(stack_visits(stack@) =~= list_visits(all.take(i as int + 1), depth as nat)
            + stack_visits(before));
        assert(stack_pushes(stack@) =~= list_pushes(all.take(i as int + 1)) + stack_pushes(before));
        i = i + 1;
    }
    assert(all.take(all.len() as int) =~= all);
}

/// Visits one root expression and everything inside it, on an explicit stack;
/// the queries that it meets are appended to `pushes`.
fn scan_root<'a>(
    root: &'a Json,
    limit: usize,
    node_limit: usize,
    count: usize,
    pushes: &mut Vec<&'a Json>,
) -> (r: Result<usize, SqlError>)
    requires
        count <= node_limit,
    ensures
        scan_outcome(r, expr_visits(root@, 1), limit as nat, node_limit as nat, count as nat),
        r is Ok ==> json::refs_view(final(pushes)@) == json::refs_view(old(pushes)@) + expr_pushes(
            root@,
        ),
{
    let ghost total = expr_visits(root@, 1);
    let ghost all_pushes = json::refs_view(pushes@) + expr_pushes(root@);
    let mut n: usize = count;
    let mut stack: Vec<(&'a Json, usize)> = Vec::new();
    stack.push((root, 1));
    proof {
        assert(stack@.last() == (root, 1usize));
        assert(stack_visits(stack@.drop_last()) =~= Seq::<nat>::empty());
        assert(stack_pushes(stack@.drop_last()) =~= Seq::<JsonView>::empty());
        assert(stack_visits(stack@) =~= total);
        assert(stack_pushes(stack@) =~= expr_pushes(root@));
        assert(json::refs_view(pushes@) + stack_pushes(stack@) =~= all_pushes);
    }
    while stack.len() > 0
        invariant
            total == expr_visits(root@, 1),
            count <= n <= node_limit,
            count + total.len() == n + stack_visits(stack@).len(),
            first_refusal(total, limit as nat, node_limit as nat, count as nat) == first_refusal(
                stack_visits(stack@),
                limit as nat,
                node_limit as nat,
                n as nat,
            ),
            json::refs_view(pushes@) + stack_pushes(stack@) == all_pushes,
            forall|k: int| 0 <= k < stack@.len() ==> (#[trigger] stack@[k]).1 <= n + 1,
        decreases node_limit - n,
    {
        let ghost visits = stack_visits(stack@);
        let ghost before = stack@;
        let top = stack.pop().unwrap();
        let e: &'a Json = top.0;
        let depth: usize = top.1;
        proof {
            assert(before.drop_last() =~= stack@);
            assert(before.last() == top);
            assert(before[before.len() - 1].1 <= n + 1);
            assert(visits[0] == depth);
        }
        if n >= node_limit {
            return Err(nodes_error(node_limit));
        }
        if depth > limit {
            return Err(depth_error(limit));
        }
        n = n + 1;
        let mut children: Vec<&'a Json> = Vec::new();
        push_children(e, &mut children);
        let ghost prior_pushes = json::refs_view(pushes@);
        push_queries(e, pushes);
        let ghost kids = expr_children(e@);
        proof {
            assert(json::refs_view(children@) =~= kids);
            assert(visits.skip(1) =~= list_visits(kids, depth as nat + 1) + stack_visits(stack@));
            assert(json::refs_view(pushes@) + (list_pushes(kids) + stack_pushes(stack@))
                =~= all_pushes);
        }
        if n >= node_limit {
            if children.len() > 0 {
                proof {
                    assert(kids.len() == children@.len());
                    lemma_some_visit(kids, depth as nat + 1);
                    assert(visits.skip(1).len() > 0);
                    assert(first_refusal(
                        visits.skip(1),
                        limit as nat,
                        node_limit as nat,
                        n as nat,
                    ) == Some(Refusal::Nodes));
                }
                return Err(nodes_error(node_limit));
            }
            proof {
                assert(kids =~= Seq::<JsonView>::empty());
                assert(list_visits(kids, depth as nat + 1) =~= Seq::<nat>::empty());
                assert(visits.skip(1) =~= stack_visits(stack@));
                assert(list_pushes(kids) =~= Seq::<JsonView>::empty());
                assert(list_pushes(kids) + stack_pushes(stack@) =~= stack_pushes(stack@));
            }
        } else {
            push_at_depth(&mut stack, &children, depth + 1);
        }
    }
    proof {
        assert(stack_visits(stack@) =~= Seq::<nat>::empty());
        assert(stack_pushes(stack@) =~= Seq::<JsonView>::empty());
        assert(json::refs_view(pushes@) =~= all_pushes);
    }
    Ok(n)
}

fn scan_roots<'a>(
    roots: &Vec<&'a Json>,
    limit: usize,
    node_limit: usize,
    count: usize,
    pushes: &mut Vec<&'a Json>,
) -> (r: Result<usize, SqlError>)
    requires
        count <= node_limit,
    ensures
        scan_outcome(
            r,
            roots_visits(json::refs_view(roots@)),
            limit as nat,
            node_limit as nat,
            count as nat,
        ),
        r is Ok ==> json::refs_view(final(pushes)@) == json::refs_view(old(pushes)@)
            + roots_pushes(json::refs_view(roots@)),
{
    let ghost all = json::refs_view(roots@);
    let ghost all_pushes = json::refs_view(pushes@) + roots_pushes(all);
    let mut n: usize = count;
    let mut i: usize = 0;
    assert(all.skip(0) =~= all);
    while i < roots.len()
        invariant
            i <= roots.len(),
            all == json::refs_view(roots@),
            count <= n <= node_limit,
            count + roots_visits(all).len() == n + roots_visits(all.skip(i as int)).len(),
            first_refusal(roots_visits(all), limit as nat, node_limit as nat, count as nat)
                == first_refusal(
                roots_visits(all.skip(i as int)),
                limit as nat,
                node_limit as nat,
                n as nat,
            ),
            json::refs_view(pushes@) + roots_pushes(all.skip(i as int)) == all_pushes,
        decreases roots.len() - i,
    {
        let ghost own = expr_visits(roots@[i as int]@, 1);
        let ghost rest = roots_visits(all.skip(i as int + 1));
        proof {
            assert(all.skip(i as int)[0] == roots@[i as int]@);
            assert(all.skip(i as int).skip(1) =~= all.skip(i as int + 1));
            lemma_refusal_append(own, rest, limit as nat, node_limit as nat, n as nat);
        }
        let ghost prior = json::refs_view(pushes@);
        match scan_root(roots[i], limit, node_limit, n, pushes) {
            Ok(next) => {
                n = next;
            },
            Err(e) => {
                return Err(e);
            },
        }
        assert(json::refs_view(pushes@) + roots_pushes(all.skip(i as int + 1)) =~= all_pushes);
        i = i + 1;
    }
    assert(roots_visits(all.skip(i as int)) =~= Seq::<nat>::empty());
    assert(roots_pushes(all.skip(i as int)) =~= Seq::<JsonView>::empty());
    assert(json::refs_view(pushes@) =~= all_pushes);
    Ok(n)
}

fn push_item_exprs<'a>(out: &mut Vec<&'a Json>, items: Option<&'a Vec<Json>>)
    ensures
        json::refs_view(final(out)@) == json::refs_view(old(out)@) + match items {
            Some(items) => gather(json::items_view(items@), |i: JsonView| item_expr(i)),
            None => Seq::empty(),
        },
{
    let ghost before = json::refs_view(out@);
    match items {
        Some(items) => {
            broadcast use json::lemma_items_view;

            let ghost all = json::items_view(items@);
            let ghost f = |i: JsonView| item_expr(i);
            let mut k: usize = 0;
            assert(all.take(0) =~= Seq::<JsonView>::empty());
            assert(json::refs_view(out@) =~= before + gather(all.take(0), f));
            while k < items.len()
                invariant
                    k <= items.len(),
                    all == json::items_view(items@),
                    f == (|i: JsonView| item_expr(i)),
                    json::refs_view(out@) == before + gather(all.take(k as int), f),
                decreases items.len() - k,
            {
                broadcast use json::lemma_items_view;

                let item = &items[k];
                if json::has_variant(item, "UnnamedExpr") {
                    json::push_spread(out, json::variant_payload(item));
                } else if json::has_variant(item, "ExprWithAlias") {
                    push_part(out, json::variant_payload(item), "expr");
                }
                proof {
                    assert(all.take(k as int + 1).drop_last() =~= all.take(k as int));
                    assert(all.take(k as int + 1).last() == item@);
                    assert(f(item@) == item_expr(item@));
                    assert(json::refs_view(out@) =~= before + gather(all.take(k as int + 1), f));
                }
                k = k + 1;
            }
            assert(all.take(all.len() as int) =~= all);
        },
        None => {
            assert(json::refs_view(out@) =~= before + Seq::<JsonView>::empty());
        },
    }
}

fn push_join_condition<'a>(out: &mut Vec<&'a Json>, join: &'a Json)
    ensures
        json::refs_view(final(out)@) == json::refs_view(old(out)@) + join_condition(join@),
{
    let ghost before = json::refs_view(out@);
    match json::get_field(join, "join_operator") {
        Some(operator) => {
            if json::has_variant(operator, "Inner") || json::has_variant(operator, "LeftOuter")
                || json::has_variant(operator, "RightOuter") || json::has_variant(
                operator,
                "FullOuter",
            ) {
                match json::variant_payload(operator) {
                    Some(constraint) => {
                        if json::has_variant(constraint, "On") {
                            json::push_spread(out, json::variant_payload(constraint));
                        }
                    },
                    None => {},
                }
            }
        },
        None => {},
    }
    assert(json::refs_view(out@) =~= before + join_condition(join@));
}

fn push_table_conditions<'a>(out: &mut Vec<&'a Json>, table: &'a Json)
    ensures
        json::refs_view(final(out)@) == json::refs_view(old(out)@) + table_conditions(table@),
{
    let ghost before = json::refs_view(out@);
    let ghost f = |j: JsonView| join_condition(j);
    match named_items(Some(table), "joins") {
        Some(items) => {
            broadcast use json::lemma_items_view;

            let ghost all = json::items_view(items@);
            let mut k: usize = 0;
            assert(all.take(0) =~= Seq::<JsonView>::empty());
            assert(json::refs_view(out@) =~= before + gather(all.take(0), f));
            while k < items.len()
                invariant
                    k <= items.len(),
                    all == json::items_view(items@),
                    f == (|j: JsonView| join_condition(j)),
                    json::refs_view(out@) == before + gather(all.take(k as int), f),
                decreases items.len() - k,
            {
                broadcast use json::lemma_items_view;

                push_join_condition(out, &items[k]);
                proof {
                    assert(all.take(k as int + 1).drop_last() =~= all.take(k as int));
                    assert(all.take(k as int + 1).last() == items@[k as int]@);
                    assert(f(items@[k as int]@) == join_condition(items@[k as int]@));
                    assert(json::refs_view(out@) =~= before + gather(all.take(k as int + 1), f));
                }
                k = k + 1;
            }
            assert(all.take(all.len() as int) =~= all);
        },
        None => {
            assert(json::elements(json::field_or_null(table@, "joins"@))
                =~= Seq::<JsonView>::empty());
            assert(json::refs_view(out@) =~= before + table_conditions(table@));
        },
    }
}

fn push_tables_conditions<'a>(out: &mut Vec<&'a Json>, tables: Option<&'a Vec<Json>>)
    ensures
        json::refs_view(final(out)@) == json::refs_view(old(out)@) + match tables {
            Some(items) => gather(json::items_view(items@), |t: JsonView| table_conditions(t)),
            None => Seq::empty(),
        },
{
    let ghost before = json::refs_view(out@);
    let ghost f = |t: JsonView| table_conditions(t);
    match tables {
        Some(items) => {
            broadcast use json::lemma_items_view;

            let ghost all = json::items_view(items@);
            let mut k: usize = 0;
            assert(all.take(0) =~= Seq::<JsonView>::empty());
            assert(json::refs_view(out@) =~= before + gather(all.take(0), f));
            while k < items.len()
                invariant
                    k <= items.len(),
                    all == json::items_view(items@),
                    f == (|t: JsonView| table_conditions(t)),
                    json::refs_view(out@) == before + gather(all.take(k as int), f),
                decreases items.len() - k,
            {
                broadcast use json::lemma_items_view;

                push_table_conditions(out, &items[k]);
                proof {
                    assert(all.take(k as int + 1).drop_last() =~= all.take(k as int));
                    assert(all.take(k as int + 1).last() == items@[k as int]@);
                    assert(f(items@[k as int]@) == table_conditions(items@[k as int]@));
                    assert(json::refs_view(out@) =~= before + gather(all.take(k as int + 1), f));
                }
                k = k + 1;
            }
            assert(all.take(all.len() as int) =~= all);
        },
        None => {
            assert(json::refs_view(out@) =~= before + Seq::<JsonView>::empty());
        },
    }
}

fn push_grouping_exprs<'a>(out: &mut Vec<&'a Json>, select: &'a Json)
    ensures
        json::refs_view(final(out)@) == json::refs_view(old(out)@) + grouping_exprs(select@),
{
    broadcast use json::lemma_items_view;

    let ghost before = json::refs_view(out@);
    match json::get_field(select, "group_by") {
        Some(group_by) => {
            if json::has_variant(group_by, "Expressions") {
                match json::variant_payload(group_by) {
                    Some(Json::Array(parts)) => {
                        if parts.len() > 0 {
                            assert(json::items_view(parts@)[0] == parts@[0]@);
                            match &parts[0] {
                                Json::Array(_) => {
                                    json::push_spread(out, Some(&parts[0]));
                                },
                                _ => {},
                            }
                        }
                    },
                    _ => {},
                }
            }
        },
        None => {},
    }
    assert(json::refs_view(out@) =~= before + grouping_exprs(select@));
}

fn roots_of_select<'a>(select: &'a Json) -> (r: Vec<&'a Json>)
    ensures
        json::refs_view(r@) == select_roots(select@),
{
    let mut out: Vec<&'a Json> = Vec::new();
    assert(json::refs_view(out@) =~= Seq::<JsonView>::empty());
    let projection = named_items(Some(select), "projection");
    let from = named_items(Some(select), "from");
    proof {
        if projection is None {
            assert(json::elements(json::field_or_null(select@, "projection"@))
                =~= Seq::<JsonView>::empty());
        }
        if from is None {
            assert(json::elements(json::field_or_null(select@, "from"@))
                =~= Seq::<JsonView>::empty());
        }
    }
    push_item_exprs(&mut out, projection);
    push_part(&mut out, Some(select), "selection");
    push_part(&mut out, Some(select), "having");
    push_grouping_exprs(&mut out, select);
    push_tables_conditions(&mut out, from);
    assert(json::refs_view(out@) =~= select_roots(select@));
    out
}

/// The visits that the query bodies on a stack still cause, the top one first.
spec fn bodies_visits(stack: Seq<JsonView>) -> Seq<nat>
    decreases stack.len(),
{
    if stack.len() == 0 {
        Seq::empty()
    } else {
        body_visits(stack.last()) + bodies_visits(stack.drop_last())
    }
}

spec fn bodies_pushes(stack: Seq<JsonView>) -> Seq<JsonView>
    decreases stack.len(),
{
    if stack.len() == 0 {
        Seq::empty()
    } else {
        body_pushes(stack.last()) + bodies_pushes(stack.drop_last())
    }
}

/// The arms of a set operation.
fn arms_of<'a>(body: &'a Json) -> (r: Option<(&'a Json, &'a Json)>)
    requires
        json::is_variant(body@, "SetOperation"@),
    ensures
        match r {
            Some((left, right)) => {
                &&& body_visits(body@) == body_visits(right@) + body_visits(left@)
                &&& body_pushes(body@) == body_pushes(right@) + body_pushes(left@)
                &&& json::size(left@) + json::size(right@) < json::size(body@)
            },
            None => body_visits(body@).len() == 0 && body_pushes(body@).len() == 0,
        },
{
    let p = json::variant_payload(body);
    let left: Option<&'a Json> = match p {
        Some(p) => json::get_field(p, "left"),
        None => None,
    };
    let right: Option<&'a Json> = match p {
        Some(p) => json::get_field(p, "right"),
        None => None,
    };
    proof {
        lemma_names_of_arms();
        json::lemma_payload_size(body@);
        json::lemma_two_fields(json::payload(body@), "left"@, "right"@);
    }
    match (left, right) {
        (Some(left), Some(right)) => Some((left, right)),
        _ => None,
    }
}

proof fn lemma_names_of_arms()
    ensures
        "Select"@ != "SetOperation"@,
        "Query"@ != "SetOperation"@,
        "left"@ != "right"@,
{
    reveal_strlit("Select");
    reveal_strlit("Query");
    reveal_strlit("SetOperation");
    reveal_strlit("left");
    reveal_strlit("right");
    assert("Select"@.len() == 6);
    assert("Query"@.len() == 5);
    assert("SetOperation"@.len() == 12);
    assert("left"@.len() == 4);
    assert("right"@.len() == 5);
}

/// Visits the expressions of a query body, the arms of set operations on an explicit
/// stack, and appends the queries that it holds to `pushes`.
fn scan_body<'a>(
    body: &'a Json,
    limit: usize,
    node_limit: usize,
    count: usize,
    pushes: &mut Vec<&'a Json>,
) -> (r: Result<usize, SqlError>)
    requires
        count <= node_limit,
    ensures
        scan_outcome(r, body_visits(body@), limit as nat, node_limit as nat, count as nat),
        r is Ok ==> json::refs_view(final(pushes)@) == json::refs_view(old(pushes)@) + body_pushes(
            body@,
        ),
{
    let ghost total = body_visits(body@);
    let ghost all_pushes = json::refs_view(pushes@) + body_pushes(body@);
    let mut n: usize = count;
    let mut stack: Vec<&'a Json> = Vec::new();
    stack.push(body);
    proof {
        let views = json::refs_view(stack@);
        assert(views.last() == body@);
        assert(views.drop_last() =~= Seq::<JsonView>::empty());
        assert(bodies_visits(views.drop_last()) =~= Seq::<nat>::empty());
        assert(bodies_pushes(views.drop_last()) =~= Seq::<JsonView>::empty());
        assert(bodies_visits(views) =~= total);
        assert(bodies_pushes(views) =~= body_pushes(body@));
        assert(json::refs_view(pushes@) + bodies_pushes(views) =~= all_pushes);
    }
    while stack.len() > 0
        invariant
            count <= n <= node_limit,
            count + total.len() == n + bodies_visits(json::refs_view(stack@)).len(),
            first_refusal(total, limit as nat, node_limit as nat, count as nat) == first_refusal(
                bodies_visits(json::refs_view(stack@)),
                limit as nat,
                node_limit as nat,
                n as nat,
            ),
            json::refs_view(pushes@) + bodies_pushes(json::refs_view(stack@)) == all_pushes,
            total == body_visits(body@),
        decreases json::items_size(json::refs_view(stack@)),
    {
        let ghost before = json::refs_view(stack@);
        let ghost earlier = json::refs_view(pushes@);
        let top: &'a Json = stack.pop().unwrap();
        let ghost rest = json::refs_view(stack@);
        proof {
            assert(before.last() == top@);
            assert(before.drop_last() =~= rest);
            lemma_size_positive(top@);
            lemma_refusal_append(
                body_visits(top@),
                bodies_visits(rest),
                limit as nat,
                node_limit as nat,
                n as nat,
            );
        }
        if json::has_variant(top, "Select") {
            match json::variant_payload(top) {
                Some(select) => {
                    let roots = roots_of_select(select);
                    match scan_roots(&roots, limit, node_limit, n, pushes) {
                        Ok(next) => {
                            n = next;
                        },
                        Err(e) => {
                            return Err(e);
                        },
                    }
                },
                None => {
                    assert(select_roots(JsonView::Null) =~= Seq::<JsonView>::empty());
                    assert(body_visits(top@) =~= Seq::<nat>::empty());
                    assert(body_pushes(top@) =~= Seq::<JsonView>::empty());
                    assert(earlier =~= earlier + body_pushes(top@));
                },
            }
        } else if json::has_variant(top, "Query") {
            json::push_spread(pushes, json::variant_payload(top));
            assert(body_visits(top@) =~= Seq::<nat>::empty());
            assert(json::refs_view(pushes@) =~= earlier + body_pushes(top@));
        } else if json::has_variant(top, "SetOperation") {
            match arms_of(top) {
                Some((left, right)) => {
                    stack.push(left);
                    let ghost with_left = json::refs_view(stack@);
                    stack.push(right);
                    proof {
                        let views = json::refs_view(stack@);
                        assert(with_left.drop_last() =~= rest);
                        assert(with_left.last() == left@);
                        assert(views.drop_last() =~= with_left);
                        assert(views.last() == right@);
                        assert(bodies_visits(with_left) == body_visits(left@) + bodies_visits(
                            rest,
                        ));
                        assert(bodies_pushes(with_left) == body_pushes(left@) + bodies_pushes(
                            rest,
                        ));
                        assert(bodies_visits(views) =~= body_visits(top@) + bodies_visits(rest));
                        assert(bodies_pushes(views) =~= body_pushes(top@) + bodies_pushes(rest));
                        assert(bodies_visits(views) =~= bodies_visits(before));
                        assert(bodies_pushes(views) =~= bodies_pushes(before));
                        assert(json::items_size(with_left) == json::size(left@)
                            + json::items_size(rest));
                        assert(json::items_size(views) == json::size(right@)
                            + json::items_size(with_left));
                        assert(json::items_size(before) == json::size(top@)
                            + json::items_size(rest));
                    }
                    continue;
                },
                None => {
                    assert(body_visits(top@) =~= Seq::<nat>::empty());
                    assert(body_pushes(top@) =~= Seq::<JsonView>::empty());
                    assert(earlier =~= earlier + body_pushes(top@));
                },
            }
        } else {
            assert(body_visits(top@) =~= Seq::<nat>::empty());
            assert(body_pushes(top@) =~= Seq::<JsonView>::empty());
            assert(earlier =~= earlier + body_pushes(top@));
        }
        assert(json::refs_view(pushes@) + bodies_pushes(rest) =~= all_pushes);
    }
    assert(bodies_pushes(json::refs_view(stack@)) =~= Seq::<JsonView>::empty());
    assert(json::refs_view(pushes@) =~= all_pushes);
    Ok(n)
}

fn scan_query(query: &Json, limit: usize, node_limit: usize, count: usize) -> (r: Result<
    usize,
    SqlError,
>)
    requires
        count <= node_limit,
    ensures
        scan_outcome(r, query_visits(query@), limit as nat, node_limit as nat, count as nat),
    decreases json::size(query@), 0nat,
{
    match json::get_field(query, "body") {
        Some(body) => {
            let mut pushes: Vec<&Json> = Vec::new();
            assert(json::refs_view(pushes@) =~= Seq::<JsonView>::empty());
            proof {
                json::lemma_field_size(query@, "body"@);
                lemma_body_pushes_below(body@);
                lemma_size_positive(body@);
                lemma_largest_below(body_pushes(body@), json::size(body@));
                lemma_refusal_append(
                    body_visits(body@),
                    queries_visits(body_pushes(body@)),
                    limit as nat,
                    node_limit as nat,
                    count as nat,
                );
            }
            match scan_body(body, limit, node_limit, count, &mut pushes) {
                Ok(n) => {
                    assert(json::refs_view(pushes@) =~= body_pushes(body@));
                    assert(body_pushes(body@).take(pushes@.len() as int) =~= body_pushes(body@));
                    scan_queries(&pushes, pushes.len(), limit, node_limit, n)
                },
                Err(e) => Err(e),
            }
        },
        None => Ok(count),
    }
}

proof fn lemma_one_of(nodes: Seq<JsonView>, i: int)
    requires
        0 <= i < nodes.len(),
    ensures
        json::size(nodes[i]) <= largest(nodes),
    decreases nodes.len(),
{
    if i < nodes.len() - 1 {
        lemma_one_of(nodes.drop_last(), i);
    }
}

/// Visits the first `len` of the listed queries, the last one first.
fn scan_queries(
    queries: &Vec<&Json>,
    len: usize,
    limit: usize,
    node_limit: usize,
    count: usize,
) -> (r: Result<usize, SqlError>)
    requires
        count <= node_limit,
        len <= queries@.len(),
    ensures
        scan_outcome(
            r,
            queries_visits(json::refs_view(queries@).take(len as int)),
            limit as nat,
            node_limit as nat,
            count as nat,
        ),
    decreases largest(json::refs_view(queries@).take(len as int)), len + 1,
{
    let ghost all = json::refs_view(queries@);
    let ghost total = queries_visits(all.take(len as int));
    let mut n: usize = count;
    let mut left: usize = len;
    while left > 0
        invariant
            left <= len <= queries@.len(),
            all == json::refs_view(queries@),
            total == queries_visits(all.take(len as int)),
            count <= n <= node_limit,
            count + total.len() == n + queries_visits(all.take(left as int)).len(),
            first_refusal(total, limit as nat, node_limit as nat, count as nat) == first_refusal(
                queries_visits(all.take(left as int)),
                limit as nat,
                node_limit as nat,
                n as nat,
            ),
        decreases left,
    {
        let last: usize = left - 1;
        proof {
            assert(all.take(left as int).drop_last() =~= all.take(last as int));
            assert(all.take(left as int).last() == queries@[last as int]@);
            lemma_refusal_append(
                query_visits(queries@[last as int]@),
                queries_visits(all.take(last as int)),
                limit as nat,
                node_limit as nat,
                n as nat,
            );
            lemma_one_of(all.take(len as int), last as int);
        }
        match scan_query(queries[last], limit, node_limit, n) {
            Ok(next) => {
                n = next;
            },
            Err(e) => {
                return Err(e);
            },
        }
        left = last;
    }
    Ok(n)
}

fn push_assigned_exprs<'a>(out: &mut Vec<&'a Json>, node: Option<&'a Json>)
    ensures
        json::refs_view(final(out)@) == json::refs_view(old(out)@) + match node {
            Some(node) => assigned_exprs(node@),
            None => Seq::empty(),
        },
{
    let ghost before = json::refs_view(out@);
    match named_items(node, "assignments") {
        Some(items) => {
            broadcast use json::lemma_items_view;

            let ghost all = json::items_view(items@);
            let ghost f = |a: JsonView| part(a, "value"@);
            let mut k: usize = 0;
            assert(all.take(0) =~= Seq::<JsonView>::empty());
            assert(json::refs_view(out@) =~= before + gather(all.take(0), f));
            while k < items.len()
                invariant
                    k <= items.len(),
                    all == json::items_view(items@),
                    f == (|a: JsonView| part(a, "value"@)),
                    json::refs_view(out@) == before + gather(all.take(k as int), f),
                decreases items.len() - k,
            {
                broadcast use json::lemma_items_view;

                let item = &items[k];
                push_part(out, Some(item), "value");
                proof {
                    assert(all.take(k as int + 1).drop_last() =~= all.take(k as int));
                    assert(all.take(k as int + 1).last() == item@);
                    assert(f(item@) == part(item@, "value"@));
                    assert(json::refs_view(out@) =~= before + gather(all.take(k as int + 1), f));
                }
                k = k + 1;
            }
            assert(all.take(all.len() as int) =~= all);
        },
        None => {
            proof {
                if let Some(node) = node {
                    assert(json::elements(json::field_or_null(node@, "assignments"@))
                        =~= Seq::<JsonView>::empty());
                    assert(assigned_exprs(node@) =~= Seq::<JsonView>::empty());
                }
                assert(json::refs_view(out@) =~= before + Seq::<JsonView>::empty());
            }
        },
    }
}

fn push_returned_exprs<'a>(out: &mut Vec<&'a Json>, node: Option<&'a Json>)
    ensures
        json::refs_view(final(out)@) == json::refs_view(old(out)@) + match node {
            Some(node) => returned_exprs(node@),
            None => Seq::empty(),
        },
{
    let items = named_items(node, "returning");
    push_item_exprs(out, items);
    proof {
        if node is Some && items is None {
            assert(json::elements(json::field_or_null(node->0@, "returning"@))
                =~= Seq::<JsonView>::empty());
            assert(returned_exprs(node->0@) =~= Seq::<JsonView>::empty());
        }
    }
}

fn conflict_update_of<'a>(insert: Option<&'a Json>) -> (r: Option<&'a Json>)
    ensures
        match insert {
            Some(insert) => match r {
                Some(update) => update@ == conflict_update(insert@),
                None => conflict_update(insert@) is Null,
            },
            None => r is None,
        },
{
    match insert {
        Some(insert) => match json::get_field(insert, "on") {
            Some(on) => {
                if !json::has_variant(on, "OnConflict") {
                    return None;
                }
                match json::variant_payload(on) {
                    Some(conflict) => match json::get_field(conflict, "action") {
                        Some(action) => if json::has_variant(action, "DoUpdate") {
                            json::variant_payload(action)
                        } else {
                            None
                        },
                        None => None,
                    },
                    None => None,
                }
            },
            None => None,
        },
        None => None,
    }
}

proof fn lemma_nothing_in_null()
    ensures
        assigned_exprs(JsonView::Null) == Seq::<JsonView>::empty(),
        part(JsonView::Null, "selection"@) == Seq::<JsonView>::empty(),
        returned_exprs(JsonView::Null) == Seq::<JsonView>::empty(),
{
    assert(assigned_exprs(JsonView::Null) =~= Seq::<JsonView>::empty());
    assert(returned_exprs(JsonView::Null) =~= Seq::<JsonView>::empty());
}

fn push_statement_roots<'a>(out: &mut Vec<&'a Json>, statement: &'a Json)
    ensures
        json::refs_view(final(out)@) == json::refs_view(old(out)@) + statement_roots(statement@),
{
    let ghost before = json::refs_view(out@);
    proof {
        lemma_nothing_in_null();
    }
    let p = json::variant_payload(statement);
    if json::has_variant(statement, "Update") {
        push_assigned_exprs(out, p);
        push_part(out, p, "selection");
        push_returned_exprs(out, p);
    } else if json::has_variant(statement, "Delete") {
        push_part(out, p, "selection");
        push_returned_exprs(out, p);
    } else if json::has_variant(statement, "Insert") {
        let update = conflict_update_of(p);
        push_assigned_exprs(out, update);
        push_part(out, update, "selection");
        push_returned_exprs(out, p);
    }
    assert(json::refs_view(out@) =~= before + statement_roots(statement@));
}

fn all_expressions_within(statements: &Vec<&Json>, limit: usize) -> (r: bool)
    ensures
        r == nesting::all_within(json::refs_view(statements@), limit as nat),
{
    let ghost all = json::refs_view(statements@);
    let mut i: usize = 0;
    while i < statements.len()
        invariant
            i <= statements.len(),
            all == json::refs_view(statements@),
            forall|k: int| 0 <= k < i ==> nesting::within(#[trigger] all[k], 0, limit as nat, true),
        decreases statements.len() - i,
    {
        if !nesting::expressions_within(statements[i], limit) {
            assert(!nesting::within(all[i as int], 0, limit as nat, true));
            return false;
        }
        i = i + 1;
    }
    true
}

/// Refuses statements whose expressions nest deeper than `limit`, wherever they
/// stand, or of which the queries, inserts, updates and deletes expose more
/// expressions than `node_limit`, subqueries included.
pub fn reject_deep_expressions(statements: &Vec<&Json>, limit: usize, node_limit: usize) -> (r:
    Result<(), SqlError>)
    ensures
        match refusal_of(json::refs_view(statements@), limit as nat, node_limit as nat) {
            None => r is Ok,
            Some(refusal) => r matches Err(e) && e@ == refusal_error(
                refusal,
                limit as nat,
                node_limit as nat,
            ),
        },
        r is Ok ==> nesting::all_within(json::refs_view(statements@), limit as nat),
{
    let ghost all = json::refs_view(statements@);
    let ghost f = |s: JsonView| statement_query(s);
    let ghost g = |s: JsonView| statement_roots(s);
    let mut queries: Vec<&Json> = Vec::new();
    let mut roots: Vec<&Json> = Vec::new();
    let mut i: usize = 0;
    assert(all.take(0) =~= Seq::<JsonView>::empty());
    assert(json::refs_view(queries@) =~= gather(all.take(0), f));
    assert(json::refs_view(roots@) =~= gather(all.take(0), g));
    while i < statements.len()
        invariant
            i <= statements.len(),
            all == json::refs_view(statements@),
            f == (|s: JsonView| statement_query(s)),
            g == (|s: JsonView| statement_roots(s)),
            json::refs_view(queries@) == gather(all.take(i as int), f),
            json::refs_view(roots@) == gather(all.take(i as int), g),
        decreases statements.len() - i,
    {
        let s = statements[i];
        if json::has_variant(s, "Query") {
            json::push_spread(&mut queries, json::variant_payload(s));
        } else if json::has_variant(s, "Insert") {
            push_part(&mut queries, json::variant_payload(s), "source");
        }
        push_statement_roots(&mut roots, s);
        proof {
            assert(all.take(i as int + 1).drop_last() =~= all.take(i as int));
            assert(all.take(i as int + 1).last() == s@);
            assert(f(s@) == statement_query(s@));
            assert(g(s@) == statement_roots(s@));
            assert(json::refs_view(queries@) =~= gather(all.take(i as int + 1), f));
            assert(json::refs_view(roots@) =~= gather(all.take(i as int + 1), g));
        }
        i = i + 1;
    }
    let ghost exposed = json::refs_view(roots@);
    proof {
        assert(all.take(all.len() as int) =~= all);
        lemma_refusal_append(
            roots_visits(exposed),
            queries_visits(gather(all, f) + roots_pushes(exposed)),
            limit as nat,
            node_limit as nat,
            0,
        );
    }
    match scan_roots(&roots, limit, node_limit, 0, &mut queries) {
        Ok(n) => {
            assert(json::refs_view(queries@).take(queries@.len() as int) =~= json::refs_view(
                queries@,
            ));
            match scan_queries(&queries, queries.len(), limit, node_limit, n) {
                Ok(_) => {},
                Err(e) => {
                    return Err(e);
                },
            }
        },
        Err(e) => {
            return Err(e);
        },
    }
    if !all_expressions_within(statements, limit) {
        return Err(depth_error(limit));
    }
    Ok(())
}

} // verus!
