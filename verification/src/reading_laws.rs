//! What holds of queries that are read off trees.
use vstd::prelude::*;
use crate::ast::{
    Expr, Function, GroupByExpr, NamedWindowDefinition, NamedWindowExpr, Operand, OrderBy,
    OrderByExpr, Query, Role, Select, SelectItem, SetExpr, WindowSpec, WindowType,
};
use crate::depth;
use crate::json;
use crate::json::JsonView;
use crate::reading;
use crate::syntax;
use crate::syntax::Reader;

verus! {

proof fn lemma_expr_deeper(e: Expr, j: JsonView, r: Reader, n: nat)
    requires
        reading::shows_expr(e, j, r, n),
    ensures
        reading::shows_expr(e, j, r, n + 1),
    decreases n, 0nat,
{
    let m = (n - 1) as nat;
    lemma_operands_deeper(e.operands@, syntax::operands_of(j), r, m);
    match e.call {
        Some(f) => {
            lemma_call_deeper(*f, json::payload(j), r, m);
        },
        None => {},
    }
    match e.query {
        Some(q) => {
            lemma_query_deeper(*q, depth::expr_queries(j)[0], r, m);
        },
        None => {},
    }
}

proof fn lemma_operands_deeper(
    operands: Seq<Operand>,
    nodes: Seq<(Role, JsonView)>,
    r: Reader,
    n: nat,
)
    requires
        reading::shows_operands(operands, nodes, r, n),
    ensures
        reading::shows_operands(operands, nodes, r, n + 1),
    decreases n, 1nat,
{
    assert forall|i: int| 0 <= i < operands.len() implies (#[trigger] operands[i]).role
        == nodes[i].0 && reading::shows_expr(operands[i].expr, nodes[i].1, r, n + 1) by {
        lemma_expr_deeper(operands[i].expr, nodes[i].1, r, n);
    }
}

proof fn lemma_list_deeper(list: Seq<Expr>, nodes: Seq<JsonView>, r: Reader, n: nat)
    requires
        reading::shows_list(list, nodes, r, n),
    ensures
        reading::shows_list(list, nodes, r, n + 1),
    decreases n, 1nat,
{
    assert forall|i: int| 0 <= i < list.len() implies reading::shows_expr(
        #[trigger] list[i],
        nodes[i],
        r,
        n + 1,
    ) by {
        lemma_expr_deeper(list[i], nodes[i], r, n);
    }
}

proof fn lemma_optional_deeper(e: Option<Expr>, j: JsonView, r: Reader, n: nat)
    requires
        reading::shows_optional(e, j, r, n),
    ensures
        reading::shows_optional(e, j, r, n + 1),
    decreases n, 1nat,
{
    match e {
        Some(e) => {
            lemma_expr_deeper(e, j, r, n);
        },
        None => {},
    }
}

proof fn lemma_orders_deeper(list: Seq<OrderByExpr>, nodes: Seq<JsonView>, r: Reader, n: nat)
    requires
        reading::shows_orders(list, nodes, r, n),
    ensures
        reading::shows_orders(list, nodes, r, n + 1),
    decreases n, 1nat,
{
    assert forall|i: int| 0 <= i < list.len() implies (#[trigger] list[i]).options
        == reading::options_of(nodes[i]) && reading::shows_expr(
        list[i].expr,
        json::field_or_null(nodes[i], "expr"@),
        r,
        n + 1,
    ) by {
        lemma_expr_deeper(list[i].expr, json::field_or_null(nodes[i], "expr"@), r, n);
    }
}

proof fn lemma_window_deeper(w: WindowSpec, j: JsonView, r: Reader, n: nat)
    requires
        reading::shows_window(w, j, r, n),
    ensures
        reading::shows_window(w, j, r, n + 1),
    decreases n, 2nat,
{
    lemma_list_deeper(
        w.partition_by@,
        json::elements(json::field_or_null(j, "partition_by"@)),
        r,
        n,
    );
    lemma_orders_deeper(w.order_by@, json::elements(json::field_or_null(j, "order_by"@)), r, n);
}

proof fn lemma_over_deeper(over: Option<WindowType>, j: JsonView, r: Reader, n: nat)
    requires
        reading::shows_over(over, j, r, n),
    ensures
        reading::shows_over(over, j, r, n + 1),
    decreases n, 3nat,
{
    match over {
        Some(WindowType::WindowSpec(w)) => {
            lemma_window_deeper(w, json::payload(j), r, n);
        },
        _ => {},
    }
}

proof fn lemma_call_deeper(f: Function, j: JsonView, r: Reader, n: nat)
    requires
        reading::shows_call(f, j, r, n),
    ensures
        reading::shows_call(f, j, r, n + 1),
    decreases n, 4nat,
{
    lemma_list_deeper(f.args@, depth::argument_exprs(depth::call_arguments(j)), r, n);
    lemma_orders_deeper(f.order_by@, reading::argument_ordering(j), r, n);
    lemma_optional_deeper(reading::unboxed(f.filter), json::field_or_null(j, "filter"@), r, n);
    lemma_orders_deeper(
        f.within_group@,
        json::elements(json::field_or_null(j, "within_group"@)),
        r,
        n,
    );
    lemma_over_deeper(f.over, json::field_or_null(j, "over"@), r, n);
}

proof fn lemma_items_deeper(items: Seq<SelectItem>, nodes: Seq<JsonView>, r: Reader, n: nat)
    requires
        reading::shows_items(items, nodes, r, n),
    ensures
        reading::shows_items(items, nodes, r, n + 1),
    decreases n, 3nat,
{
    assert forall|i: int| 0 <= i < items.len() implies reading::shows_item(
        #[trigger] items[i],
        nodes[i],
        r,
        n + 1,
    ) by {
        let p = json::payload(nodes[i]);
        assert(reading::shows_item(items[i], nodes[i], r, n));
        match items[i] {
            SelectItem::UnnamedExpr(e) => {
                lemma_expr_deeper(e, p, r, n);
            },
            SelectItem::ExprWithAlias { expr, alias } => {
                lemma_expr_deeper(expr, json::field_or_null(p, "expr"@), r, n);
            },
            _ => {},
        }
    }
}

proof fn lemma_grouping_deeper(g: GroupByExpr, j: JsonView, r: Reader, n: nat)
    requires
        reading::shows_grouping(g, j, r, n),
    ensures
        reading::shows_grouping(g, j, r, n + 1),
    decreases n, 2nat,
{
    match g {
        GroupByExpr::Expressions(list, _) => {
            lemma_list_deeper(
                list@,
                json::elements(reading::item_at(json::payload(j), 0)),
                r,
                n,
            );
        },
        _ => {},
    }
}

proof fn lemma_definitions_deeper(
    list: Seq<NamedWindowDefinition>,
    nodes: Seq<JsonView>,
    r: Reader,
    n: nat,
)
    requires
        reading::shows_definitions(list, nodes, r, n),
    ensures
        reading::shows_definitions(list, nodes, r, n + 1),
    decreases n, 4nat,
{
    assert forall|i: int| 0 <= i < list.len() implies reading::shows_definition(
        #[trigger] list[i],
        nodes[i],
        r,
        n + 1,
    ) by {
        assert(reading::shows_definition(list[i], nodes[i], r, n));
        match list[i].window {
            NamedWindowExpr::WindowSpec(w) => {
                lemma_window_deeper(w, json::payload(reading::item_at(nodes[i], 1)), r, n);
            },
            _ => {},
        }
    }
}

proof fn lemma_select_deeper(s: Select, j: JsonView, r: Reader, n: nat)
    requires
        reading::shows_select(s, j, r, n),
    ensures
        reading::shows_select(s, j, r, n + 1),
    decreases n, 5nat,
{
    lemma_items_deeper(
        s.projection@,
        json::elements(json::field_or_null(j, "projection"@)),
        r,
        n,
    );
    lemma_optional_deeper(s.selection, json::field_or_null(j, "selection"@), r, n);
    lemma_grouping_deeper(s.group_by, json::field_or_null(j, "group_by"@), r, n);
    lemma_optional_deeper(s.having, json::field_or_null(j, "having"@), r, n);
    lemma_definitions_deeper(
        s.named_window@,
        json::elements(json::field_or_null(j, "named_window"@)),
        r,
        n,
    );
}

proof fn lemma_body_deeper(b: SetExpr, j: JsonView, r: Reader, n: nat)
    requires
        reading::shows_body(b, j, r, n),
    ensures
        reading::shows_body(b, j, r, n + 1),
    decreases n, 6nat,
{
    let p = json::payload(j);
    match b {
        SetExpr::Select(s) => {
            lemma_select_deeper(*s, p, r, n);
        },
        SetExpr::Query(q) => {
            lemma_query_deeper(*q, p, r, (n - 1) as nat);
        },
        SetExpr::SetOperation { left, right } => {
            lemma_body_deeper(*left, json::field_or_null(p, "left"@), r, (n - 1) as nat);
            lemma_body_deeper(*right, json::field_or_null(p, "right"@), r, (n - 1) as nat);
        },
        _ => {},
    }
}

proof fn lemma_query_deeper(q: Query, j: JsonView, r: Reader, n: nat)
    requires
        reading::shows_query(q, j, r, n),
    ensures
        reading::shows_query(q, j, r, n + 1),
    decreases n, 7nat,
{
    lemma_body_deeper(*q.body, json::field_or_null(j, "body"@), r, n);
    let o = json::field_or_null(j, "order_by"@);
    assert(reading::shows_ordering(q.order_by, o, r, n + 1)) by {
        assert(reading::shows_ordering(q.order_by, o, r, n));
        match q.order_by {
            Some(OrderBy::Expressions(list)) => {
                lemma_orders_deeper(
                    list@,
                    json::elements(json::payload(json::field_or_null(o, "kind"@))),
                    r,
                    n,
                );
            },
            _ => {},
        }
    }
}

/// The levels only bound what is read: an expression that is read with some levels is
/// read the same with more.
pub proof fn law_expr_reads_the_same(e: Expr, j: JsonView, r: Reader, n: nat, more: nat)
    requires
        reading::shows_expr(e, j, r, n),
    ensures
        reading::shows_expr(e, j, r, n + more),
    decreases more,
{
    if more > 0 {
        law_expr_reads_the_same(e, j, r, n, (more - 1) as nat);
        lemma_expr_deeper(e, j, r, (n + more - 1) as nat);
    }
}

/// The levels only bound what is read: a query that is read with some levels is read the
/// same with more.
pub proof fn law_query_reads_the_same(q: Query, j: JsonView, r: Reader, n: nat, more: nat)
    requires
        reading::shows_query(q, j, r, n),
    ensures
        reading::shows_query(q, j, r, n + more),
    decreases more,
{
    if more > 0 {
        law_query_reads_the_same(q, j, r, n, (more - 1) as nat);
        lemma_query_deeper(q, j, r, (n + more - 1) as nat);
    }
}

} // verus!
