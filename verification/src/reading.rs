//! Reading queries and their expressions off the tree of a parsed statement.
//!
//! `levels` bounds how deep what is read may nest.
use vstd::prelude::*;
use crate::ast::{
    Expr, ExprKind, Function, GroupByExpr, Ident, NamedWindowDefinition, NamedWindowExpr, Operand,
    OrderBy, OrderByExpr, OrderByOptions, Query, Role, Select, SelectItem, SetExpr, WindowSpec,
    WindowType,
};
use crate::depth;
use crate::json;
use crate::json::{Json, JsonView};
use crate::sets;
use crate::syntax;
use crate::syntax::Reader;
use crate::text;

verus! {

/// The value of a name.
pub open spec fn ident_value(j: JsonView) -> Seq<char> {
    match json::field(j, "value"@) {
        Some(JsonView::Text(value)) => value,
        _ => Seq::empty(),
    }
}

/// A name is that of a node.
pub open spec fn shows_ident(i: Ident, j: JsonView, r: Reader) -> bool {
    &&& i.value@ == ident_value(j)
    &&& i.quoted == !(json::field_or_null(j, "quote_style"@) is Null)
    &&& r.written(j) == Some(i.text@)
}

/// The names that an identifier is made of.
pub open spec fn names_of(j: JsonView) -> Seq<Seq<char>> {
    let p = json::payload(j);
    match syntax::kind_of(j) {
        Some(ExprKind::Identifier) => seq![ident_value(p)],
        Some(ExprKind::CompoundIdentifier) => json::elements(p).map_values(
            |i: JsonView| ident_value(i),
        ),
        _ => Seq::empty(),
    }
}

/// The type that a cast names is written like that.
pub open spec fn shows_type(t: Option<String>, j: JsonView, r: Reader) -> bool {
    match (syntax::kind_of(j), t) {
        (Some(ExprKind::Cast), Some(t)) => r.written(
            json::field_or_null(json::payload(j), "data_type"@),
        ) == Some(t@),
        (Some(ExprKind::Cast), None) => false,
        (_, t) => t is None,
    }
}

pub open spec fn has_constant_path(j: JsonView, r: Reader) -> bool {
    syntax::kind_of(j) == Some(ExprKind::JsonArrow) && r.is_constant_path(
        json::field_or_null(json::payload(j), "right"@),
    )
}

/// A flag that may be left open.
pub open spec fn flag(j: JsonView) -> Option<bool> {
    match j {
        JsonView::Bool(b) => Some(b),
        _ => None,
    }
}

/// One of the arguments of a call is a star.
pub open spec fn has_star(args: Seq<JsonView>) -> bool {
    exists|k: int|
        0 <= k < args.len() && json::is_variant(#[trigger] args[k], "Unnamed"@) && json::payload(
            args[k],
        ) == JsonView::Text("Wildcard"@)
}

/// The list of arguments of a call, with what belongs to it.
pub open spec fn argument_list(call: JsonView) -> JsonView {
    let args = json::field_or_null(call, "args"@);
    if json::is_variant(args, "List"@) {
        json::payload(args)
    } else {
        JsonView::Null
    }
}

pub open spec fn is_distinct(call: JsonView) -> bool {
    json::field_or_null(argument_list(call), "duplicate_treatment"@) == JsonView::Text("Distinct"@)
}

/// What the arguments of a call are ordered by: the first ORDER BY among its clauses.
pub open spec fn ordering_from(clauses: Seq<JsonView>, from: int) -> Seq<JsonView>
    decreases clauses.len() - from,
{
    if from < 0 || from >= clauses.len() {
        Seq::empty()
    } else if json::is_variant(clauses[from], "OrderBy"@) {
        json::elements(json::payload(clauses[from]))
    } else {
        ordering_from(clauses, from + 1)
    }
}

pub open spec fn argument_ordering(call: JsonView) -> Seq<JsonView> {
    ordering_from(json::elements(json::field_or_null(argument_list(call), "clauses"@)), 0)
}

/// An expression is that of a node.
pub open spec fn shows_expr(e: Expr, j: JsonView, r: Reader, n: nat) -> bool
    decreases n, 0nat,
{
    &&& n > 0
    &&& syntax::kind_of(j) == Some(e.kind)
    &&& text::views(e.names@) == names_of(j)
    &&& shows_operands(e.operands@, syntax::operands_of(j), r, (n - 1) as nat)
    &&& shows_type(e.data_type, j, r)
    &&& e.constant_path == has_constant_path(j, r)
    &&& match e.call {
        Some(f) => syntax::kind_of(j) == Some(ExprKind::Function) && shows_call(
            *f,
            json::payload(j),
            r,
            (n - 1) as nat,
        ),
        None => syntax::kind_of(j) != Some(ExprKind::Function),
    }
    &&& match e.query {
        Some(q) => depth::expr_queries(j).len() > 0 && shows_query(
            *q,
            depth::expr_queries(j)[0],
            r,
            (n - 1) as nat,
        ),
        None => depth::expr_queries(j).len() == 0,
    }
}

pub open spec fn shows_operands(
    operands: Seq<Operand>,
    nodes: Seq<(Role, JsonView)>,
    r: Reader,
    n: nat,
) -> bool
    decreases n, 1nat,
{
    &&& operands.len() == nodes.len()
    &&& forall|i: int|
        0 <= i < operands.len() ==> (#[trigger] operands[i]).role == nodes[i].0 && shows_expr(
            operands[i].expr,
            nodes[i].1,
            r,
            n,
        )
}

/// Expressions are those of nodes.
pub open spec fn shows_list(list: Seq<Expr>, nodes: Seq<JsonView>, r: Reader, n: nat) -> bool
    decreases n, 1nat,
{
    &&& list.len() == nodes.len()
    &&& forall|i: int| 0 <= i < list.len() ==> shows_expr(#[trigger] list[i], nodes[i], r, n)
}

/// An expression that may be missing.
pub open spec fn shows_optional(e: Option<Expr>, j: JsonView, r: Reader, n: nat) -> bool
    decreases n, 1nat,
{
    match e {
        Some(e) => !(j is Null) && shows_expr(e, j, r, n),
        None => j is Null,
    }
}

pub open spec fn options_of(j: JsonView) -> OrderByOptions {
    let options = json::field_or_null(j, "options"@);
    OrderByOptions {
        asc: flag(json::field_or_null(options, "asc"@)),
        nulls_first: flag(json::field_or_null(options, "nulls_first"@)),
    }
}

pub open spec fn shows_orders(list: Seq<OrderByExpr>, nodes: Seq<JsonView>, r: Reader, n: nat) -> bool
    decreases n, 1nat,
{
    &&& list.len() == nodes.len()
    &&& forall|i: int|
        0 <= i < list.len() ==> (#[trigger] list[i]).options == options_of(nodes[i]) && shows_expr(
            list[i].expr,
            json::field_or_null(nodes[i], "expr"@),
            r,
            n,
        )
}

/// A name that may be missing.
pub open spec fn shows_optional_ident(i: Option<Ident>, j: JsonView, r: Reader) -> bool {
    match i {
        Some(i) => !(j is Null) && shows_ident(i, j, r),
        None => j is Null,
    }
}

/// A text that may be missing.
pub open spec fn shows_optional_text(t: Option<String>, j: JsonView, r: Reader) -> bool {
    match t {
        Some(t) => !(j is Null) && r.written(j) == Some(t@),
        None => j is Null,
    }
}

/// A window is that of a node.
pub open spec fn shows_window(w: WindowSpec, j: JsonView, r: Reader, n: nat) -> bool
    decreases n, 2nat,
{
    &&& shows_optional_ident(w.window_name, json::field_or_null(j, "window_name"@), r)
    &&& shows_list(
        w.partition_by@,
        json::elements(json::field_or_null(j, "partition_by"@)),
        r,
        n,
    )
    &&& shows_orders(w.order_by@, json::elements(json::field_or_null(j, "order_by"@)), r, n)
    &&& shows_optional_text(w.window_frame, json::field_or_null(j, "window_frame"@), r)
}

/// The window that a call runs over is that of a node.
pub open spec fn shows_over(over: Option<WindowType>, j: JsonView, r: Reader, n: nat) -> bool
    decreases n, 3nat,
{
    match over {
        None => j is Null,
        Some(WindowType::WindowSpec(w)) => json::is_variant(j, "WindowSpec"@) && shows_window(
            w,
            json::payload(j),
            r,
            n,
        ),
        Some(WindowType::NamedWindow(i)) => json::is_variant(j, "NamedWindow"@) && shows_ident(
            i,
            json::payload(j),
            r,
        ),
    }
}

pub open spec fn unboxed(e: Option<Box<Expr>>) -> Option<Expr> {
    match e {
        Some(e) => Some(*e),
        None => None,
    }
}

/// A call is that of a node.
pub open spec fn shows_call(f: Function, j: JsonView, r: Reader, n: nat) -> bool
    decreases n, 4nat,
{
    let args = depth::call_arguments(j);
    &&& r.written(json::field_or_null(j, "name"@)) == Some(f.name@)
    &&& r.written(j) == Some(f.text@)
    &&& shows_list(f.args@, depth::argument_exprs(args), r, n)
    &&& f.star == has_star(args)
    &&& f.distinct == is_distinct(j)
    &&& f.aggregate == text::views(r.aggregates@).contains(text::lower(f.name@))
    &&& f.spatial_predicate == text::views(r.spatial_predicates@).contains(text::lower(f.name@))
    &&& shows_orders(f.order_by@, argument_ordering(j), r, n)
    &&& shows_optional(unboxed(f.filter), json::field_or_null(j, "filter"@), r, n)
    &&& shows_orders(
        f.within_group@,
        json::elements(json::field_or_null(j, "within_group"@)),
        r,
        n,
    )
    &&& f.null_treatment == !(json::field_or_null(j, "null_treatment"@) is Null)
    &&& shows_over(f.over, json::field_or_null(j, "over"@), r, n)
}

/// An item of a projection is that of a node.
pub open spec fn shows_item(item: SelectItem, j: JsonView, r: Reader, n: nat) -> bool
    decreases n, 2nat,
{
    let p = json::payload(j);
    match item {
        SelectItem::UnnamedExpr(e) => json::is_variant(j, "UnnamedExpr"@) && shows_expr(e, p, r, n),
        SelectItem::ExprWithAlias { expr, alias } => json::is_variant(j, "ExprWithAlias"@)
            && shows_expr(expr, json::field_or_null(p, "expr"@), r, n) && shows_ident(
            alias,
            json::field_or_null(p, "alias"@),
            r,
        ),
        SelectItem::Wildcard(t) => json::is_variant(j, "Wildcard"@) && r.written(j) == Some(t@),
        SelectItem::QualifiedWildcard(t) => json::is_variant(j, "QualifiedWildcard"@) && r.written(
            j,
        ) == Some(t@),
        SelectItem::Other(t) => !json::is_variant(j, "UnnamedExpr"@) && !json::is_variant(
            j,
            "ExprWithAlias"@,
        ) && !json::is_variant(j, "Wildcard"@) && !json::is_variant(j, "QualifiedWildcard"@)
            && r.written(j) == Some(t@),
    }
}

pub open spec fn shows_items(items: Seq<SelectItem>, nodes: Seq<JsonView>, r: Reader, n: nat) -> bool
    decreases n, 3nat,
{
    &&& items.len() == nodes.len()
    &&& forall|i: int| 0 <= i < items.len() ==> shows_item(#[trigger] items[i], nodes[i], r, n)
}

/// The item of a list, or `null`.
pub open spec fn item_at(j: JsonView, k: int) -> JsonView {
    if 0 <= k < json::elements(j).len() {
        json::elements(j)[k]
    } else {
        JsonView::Null
    }
}

/// A GROUP BY clause is that of a node.
pub open spec fn shows_grouping(g: GroupByExpr, j: JsonView, r: Reader, n: nat) -> bool
    decreases n, 2nat,
{
    let p = json::payload(j);
    match g {
        GroupByExpr::All(count) => json::is_variant(j, "All"@) && count == json::elements(p).len(),
        GroupByExpr::Expressions(list, count) => json::is_variant(j, "Expressions"@) && shows_list(
            list@,
            json::elements(item_at(p, 0)),
            r,
            n,
        ) && count == json::elements(item_at(p, 1)).len(),
    }
}

/// A named window is that of a node.
pub open spec fn shows_definition(d: NamedWindowDefinition, j: JsonView, r: Reader, n: nat) -> bool
    decreases n, 3nat,
{
    let w = item_at(j, 1);
    &&& shows_ident(d.name, item_at(j, 0), r)
    &&& match d.window {
        NamedWindowExpr::WindowSpec(spec) => json::is_variant(w, "WindowSpec"@) && shows_window(
            spec,
            json::payload(w),
            r,
            n,
        ),
        NamedWindowExpr::NamedWindow(i) => json::is_variant(w, "NamedWindow"@) && shows_ident(
            i,
            json::payload(w),
            r,
        ),
    }
}

pub open spec fn shows_definitions(
    list: Seq<NamedWindowDefinition>,
    nodes: Seq<JsonView>,
    r: Reader,
    n: nat,
) -> bool
    decreases n, 4nat,
{
    &&& list.len() == nodes.len()
    &&& forall|i: int| 0 <= i < list.len() ==> shows_definition(#[trigger] list[i], nodes[i], r, n)
}

/// A SELECT is that of a node.
pub open spec fn shows_select(s: Select, j: JsonView, r: Reader, n: nat) -> bool
    decreases n, 5nat,
{
    &&& shows_items(s.projection@, json::elements(json::field_or_null(j, "projection"@)), r, n)
    &&& shows_optional(s.selection, json::field_or_null(j, "selection"@), r, n)
    &&& shows_grouping(s.group_by, json::field_or_null(j, "group_by"@), r, n)
    &&& shows_optional(s.having, json::field_or_null(j, "having"@), r, n)
    &&& shows_definitions(
        s.named_window@,
        json::elements(json::field_or_null(j, "named_window"@)),
        r,
        n,
    )
}

/// The body of a query is that of a node.
pub open spec fn shows_body(b: SetExpr, j: JsonView, r: Reader, n: nat) -> bool
    decreases n, 6nat,
{
    let p = json::payload(j);
    match b {
        SetExpr::Select(s) => json::is_variant(j, "Select"@) && shows_select(*s, p, r, n),
        SetExpr::Query(q) => n > 0 && json::is_variant(j, "Query"@) && shows_query(
            *q,
            p,
            r,
            (n - 1) as nat,
        ),
        SetExpr::SetOperation { left, right } => n > 0 && json::is_variant(j, "SetOperation"@)
            && shows_body(*left, json::field_or_null(p, "left"@), r, (n - 1) as nat) && shows_body(
            *right,
            json::field_or_null(p, "right"@),
            r,
            (n - 1) as nat,
        ),
        SetExpr::Insert(t) => json::is_variant(j, "Insert"@) && r.written(p) == Some(t@),
        SetExpr::Update(t) => json::is_variant(j, "Update"@) && r.written(p) == Some(t@),
        SetExpr::Delete(t) => json::is_variant(j, "Delete"@) && r.written(p) == Some(t@),
        SetExpr::Other => !json::is_variant(j, "Select"@) && !json::is_variant(j, "Query"@)
            && !json::is_variant(j, "SetOperation"@) && !json::is_variant(j, "Insert"@)
            && !json::is_variant(j, "Update"@) && !json::is_variant(j, "Delete"@),
    }
}

/// The ORDER BY of a query is that of a node.
pub open spec fn shows_ordering(o: Option<OrderBy>, j: JsonView, r: Reader, n: nat) -> bool
    decreases n, 2nat,
{
    let kind = json::field_or_null(j, "kind"@);
    match o {
        None => j is Null,
        Some(OrderBy::All) => json::is_variant(kind, "All"@),
        Some(OrderBy::Expressions(list)) => json::is_variant(kind, "Expressions"@) && shows_orders(
            list@,
            json::elements(json::payload(kind)),
            r,
            n,
        ),
    }
}

/// A query is that of a node.
pub open spec fn shows_query(q: Query, j: JsonView, r: Reader, n: nat) -> bool
    decreases n, 7nat,
{
    &&& shows_body(*q.body, json::field_or_null(j, "body"@), r, n)
    &&& shows_ordering(q.order_by, json::field_or_null(j, "order_by"@), r, n)
}

proof fn lemma_expr_parts(j: JsonView, r: Reader, n: nat)
    ensures
        forall|e: Expr| #[trigger] shows_expr(e, j, r, n) ==> {
                &&& n > 0
                &&& syntax::kind_of(j) == Some(e.kind)
                &&& text::views(e.names@) == names_of(j)
                &&& shows_operands(e.operands@, syntax::operands_of(j), r, (n - 1) as nat)
                &&& shows_type(e.data_type, j, r)
                &&& e.constant_path == has_constant_path(j, r)
                &&& match e.call {
                    Some(f) => syntax::kind_of(j) == Some(ExprKind::Function) && shows_call(
                        *f,
                        json::payload(j),
                        r,
                        (n - 1) as nat,
                    ),
                    None => syntax::kind_of(j) != Some(ExprKind::Function),
                }
                &&& match e.query {
                    Some(q) => depth::expr_queries(j).len() > 0 && shows_query(
                        *q,
                        depth::expr_queries(j)[0],
                        r,
                        (n - 1) as nat,
                    ),
                    None => depth::expr_queries(j).len() == 0,
                }
        },
{
}

proof fn lemma_optional_parts(j: JsonView, r: Reader, n: nat)
    ensures
        forall|e: Option<Expr>| #[trigger] shows_optional(e, j, r, n) ==> {
                match e {
                    Some(e) => !(j is Null) && shows_expr(e, j, r, n),
                    None => j is Null,
                }
        },
{
}

proof fn lemma_window_parts(j: JsonView, r: Reader, n: nat)
    ensures
        forall|w: WindowSpec| #[trigger] shows_window(w, j, r, n) ==> {
                &&& shows_optional_ident(w.window_name, json::field_or_null(j, "window_name"@), r)
                &&& shows_list(
                    w.partition_by@,
                    json::elements(json::field_or_null(j, "partition_by"@)),
                    r,
                    n,
                )
                &&& shows_orders(w.order_by@, json::elements(json::field_or_null(j, "order_by"@)), r, n)
                &&& shows_optional_text(w.window_frame, json::field_or_null(j, "window_frame"@), r)
        },
{
}

proof fn lemma_over_parts(j: JsonView, r: Reader, n: nat)
    ensures
        forall|over: Option<WindowType>| #[trigger] shows_over(over, j, r, n) ==> {
                match over {
                    None => j is Null,
                    Some(WindowType::WindowSpec(w)) => json::is_variant(j, "WindowSpec"@) && shows_window(
                        w,
                        json::payload(j),
                        r,
                        n,
                    ),
                    Some(WindowType::NamedWindow(i)) => json::is_variant(j, "NamedWindow"@) && shows_ident(
                        i,
                        json::payload(j),
                        r,
                    ),
                }
        },
{
}

proof fn lemma_call_parts(j: JsonView, r: Reader, n: nat)
    ensures
        forall|f: Function| #[trigger] shows_call(f, j, r, n) ==> {
                let args = depth::call_arguments(j);
                &&& r.written(json::field_or_null(j, "name"@)) == Some(f.name@)
                &&& r.written(j) == Some(f.text@)
                &&& shows_list(f.args@, depth::argument_exprs(args), r, n)
                &&& f.star == has_star(args)
                &&& f.distinct == is_distinct(j)
                &&& f.aggregate == text::views(r.aggregates@).contains(text::lower(f.name@))
                &&& f.spatial_predicate == text::views(r.spatial_predicates@).contains(text::lower(f.name@))
                &&& shows_orders(f.order_by@, argument_ordering(j), r, n)
                &&& shows_optional(unboxed(f.filter), json::field_or_null(j, "filter"@), r, n)
                &&& shows_orders(
                    f.within_group@,
                    json::elements(json::field_or_null(j, "within_group"@)),
                    r,
                    n,
                )
                &&& f.null_treatment == !(json::field_or_null(j, "null_treatment"@) is Null)
                &&& shows_over(f.over, json::field_or_null(j, "over"@), r, n)
        },
{
}

proof fn lemma_item_parts(j: JsonView, r: Reader, n: nat)
    ensures
        forall|item: SelectItem| #[trigger] shows_item(item, j, r, n) ==> {
                let p = json::payload(j);
                match item {
                    SelectItem::UnnamedExpr(e) => json::is_variant(j, "UnnamedExpr"@) && shows_expr(e, p, r, n),
                    SelectItem::ExprWithAlias { expr, alias } => json::is_variant(j, "ExprWithAlias"@)
                        && shows_expr(expr, json::field_or_null(p, "expr"@), r, n) && shows_ident(
                        alias,
                        json::field_or_null(p, "alias"@),
                        r,
                    ),
                    SelectItem::Wildcard(t) => json::is_variant(j, "Wildcard"@) && r.written(j) == Some(t@),
                    SelectItem::QualifiedWildcard(t) => json::is_variant(j, "QualifiedWildcard"@) && r.written(
                        j,
                    ) == Some(t@),
                    SelectItem::Other(t) => !json::is_variant(j, "UnnamedExpr"@) && !json::is_variant(
                        j,
                        "ExprWithAlias"@,
                    ) && !json::is_variant(j, "Wildcard"@) && !json::is_variant(j, "QualifiedWildcard"@)
                        && r.written(j) == Some(t@),
                }
        },
{
}

proof fn lemma_grouping_parts(j: JsonView, r: Reader, n: nat)
    ensures
        forall|g: GroupByExpr| #[trigger] shows_grouping(g, j, r, n) ==> {
                let p = json::payload(j);
                match g {
                    GroupByExpr::All(count) => json::is_variant(j, "All"@) && count == json::elements(p).len(),
                    GroupByExpr::Expressions(list, count) => json::is_variant(j, "Expressions"@) && shows_list(
                        list@,
                        json::elements(item_at(p, 0)),
                        r,
                        n,
                    ) && count == json::elements(item_at(p, 1)).len(),
                }
        },
{
}

proof fn lemma_definition_parts(j: JsonView, r: Reader, n: nat)
    ensures
        forall|d: NamedWindowDefinition| #[trigger] shows_definition(d, j, r, n) ==> {
                let w = item_at(j, 1);
                &&& shows_ident(d.name, item_at(j, 0), r)
                &&& match d.window {
                    NamedWindowExpr::WindowSpec(spec) => json::is_variant(w, "WindowSpec"@) && shows_window(
                        spec,
                        json::payload(w),
                        r,
                        n,
                    ),
                    NamedWindowExpr::NamedWindow(i) => json::is_variant(w, "NamedWindow"@) && shows_ident(
                        i,
                        json::payload(w),
                        r,
                    ),
                }
        },
{
}

proof fn lemma_select_parts(j: JsonView, r: Reader, n: nat)
    ensures
        forall|s: Select| #[trigger] shows_select(s, j, r, n) ==> {
                &&& shows_items(s.projection@, json::elements(json::field_or_null(j, "projection"@)), r, n)
                &&& shows_optional(s.selection, json::field_or_null(j, "selection"@), r, n)
                &&& shows_grouping(s.group_by, json::field_or_null(j, "group_by"@), r, n)
                &&& shows_optional(s.having, json::field_or_null(j, "having"@), r, n)
                &&& shows_definitions(
                    s.named_window@,
                    json::elements(json::field_or_null(j, "named_window"@)),
                    r,
                    n,
                )
        },
{
}

proof fn lemma_body_parts(j: JsonView, r: Reader, n: nat)
    ensures
        forall|b: SetExpr| #[trigger] shows_body(b, j, r, n) ==> {
                let p = json::payload(j);
                match b {
                    SetExpr::Select(s) => json::is_variant(j, "Select"@) && shows_select(*s, p, r, n),
                    SetExpr::Query(q) => n > 0 && json::is_variant(j, "Query"@) && shows_query(
                        *q,
                        p,
                        r,
                        (n - 1) as nat,
                    ),
                    SetExpr::SetOperation { left, right } => n > 0 && json::is_variant(j, "SetOperation"@)
                        && shows_body(*left, json::field_or_null(p, "left"@), r, (n - 1) as nat) && shows_body(
                        *right,
                        json::field_or_null(p, "right"@),
                        r,
                        (n - 1) as nat,
                    ),
                    SetExpr::Insert(t) => json::is_variant(j, "Insert"@) && r.written(p) == Some(t@),
                    SetExpr::Update(t) => json::is_variant(j, "Update"@) && r.written(p) == Some(t@),
                    SetExpr::Delete(t) => json::is_variant(j, "Delete"@) && r.written(p) == Some(t@),
                    SetExpr::Other => !json::is_variant(j, "Select"@) && !json::is_variant(j, "Query"@)
                        && !json::is_variant(j, "SetOperation"@) && !json::is_variant(j, "Insert"@)
                        && !json::is_variant(j, "Update"@) && !json::is_variant(j, "Delete"@),
                }
        },
{
}

proof fn lemma_ordering_parts(j: JsonView, r: Reader, n: nat)
    ensures
        forall|o: Option<OrderBy>| #[trigger] shows_ordering(o, j, r, n) ==> {
                let kind = json::field_or_null(j, "kind"@);
                match o {
                    None => j is Null,
                    Some(OrderBy::All) => json::is_variant(kind, "All"@),
                    Some(OrderBy::Expressions(list)) => json::is_variant(kind, "Expressions"@) && shows_orders(
                        list@,
                        json::elements(json::payload(kind)),
                        r,
                        n,
                    ),
                }
        },
{
}

proof fn lemma_query_parts(j: JsonView, r: Reader, n: nat)
    ensures
        forall|q: Query| #[trigger] shows_query(q, j, r, n) ==> {
                &&& shows_body(*q.body, json::field_or_null(j, "body"@), r, n)
                &&& shows_ordering(q.order_by, json::field_or_null(j, "order_by"@), r, n)
        },
{
}

/// What a node is seen as that may be missing.
pub open spec fn node_view(j: Option<&Json>) -> JsonView {
    match j {
        Some(j) => j@,
        None => JsonView::Null,
    }
}

pub(crate) fn member<'a>(j: Option<&'a Json>, name: &str) -> (r: Option<&'a Json>)
    ensures
        node_view(r) == json::field_or_null(node_view(j), name@),
{
    match j {
        Some(j) => json::get_field(j, name),
        None => None,
    }
}

pub(crate) fn content<'a>(j: Option<&'a Json>) -> (r: Option<&'a Json>)
    ensures
        node_view(r) == json::payload(node_view(j)),
{
    match j {
        Some(j) => json::variant_payload(j),
        None => None,
    }
}

fn is_kind(j: Option<&Json>, name: &str) -> (r: bool)
    ensures
        r == json::is_variant(node_view(j), name@),
{
    match j {
        Some(j) => json::has_variant(j, name),
        None => false,
    }
}

fn is_null(j: Option<&Json>) -> (r: bool)
    ensures
        r == (node_view(j) is Null),
{
    match j {
        Some(Json::Null) => true,
        Some(_) => false,
        None => true,
    }
}

pub(crate) fn nodes_of<'a>(j: Option<&'a Json>) -> (r: Vec<&'a Json>)
    ensures
        json::refs_view(r@) == json::elements(node_view(j)),
{
    let r = syntax::listed(j);
    assert(json::refs_view(r@) =~= json::elements(node_view(j)));
    r
}

fn node_at<'a>(j: Option<&'a Json>, k: usize) -> (r: Option<&'a Json>)
    ensures
        node_view(r) == item_at(node_view(j), k as int),
{
    let nodes = nodes_of(j);
    assert(json::refs_view(nodes@).len() == nodes@.len());
    if k < nodes.len() {
        assert(json::refs_view(nodes@)[k as int] == nodes@[k as int]@);
        Some(nodes[k])
    } else {
        None
    }
}

fn written(reader: &Reader, j: Option<&Json>) -> (r: Option<String>)
    ensures
        match (r, reader.written(node_view(j))) {
            (Some(t), Some(view)) => t@ == view,
            (None, None) => true,
            _ => false,
        },
{
    match j {
        Some(j) => reader.find_written(j),
        None => {
            let null = Json::Null;
            reader.find_written(&null)
        },
    }
}

fn value_of_ident(j: Option<&Json>) -> (r: String)
    ensures
        r@ == ident_value(node_view(j)),
{
    match j {
        Some(j) => match json::get_field(j, "value") {
            Some(Json::Text(value)) => value.clone(),
            _ => {
                let none = String::new();
                assert(none@ =~= Seq::<char>::empty());
                none
            },
        },
        None => {
            let none = String::new();
            assert(none@ =~= Seq::<char>::empty());
            none
        },
    }
}

/// Reads a name.
pub fn read_ident(j: Option<&Json>, reader: &Reader) -> (r: Option<Ident>)
    ensures
        match r {
            Some(i) => shows_ident(i, node_view(j), *reader),
            None => forall|i: Ident| !shows_ident(i, node_view(j), *reader),
        },
{
    let text = match written(reader, j) {
        Some(text) => text,
        None => {
            return None;
        },
    };
    Some(Ident { value: value_of_ident(j), quoted: !is_null(member(j, "quote_style")), text })
}

pub(crate) fn read_names(j: &Json) -> (r: Vec<String>)
    ensures
        text::views(r@) == names_of(j@),
{
    let mut out: Vec<String> = Vec::new();
    match syntax::expr_kind(j) {
        Some(ExprKind::Identifier) => {
            let name = value_of_ident(content(Some(j)));
            let ghost view = name@;
            out.push(name);
            assert(text::views(out@) =~= seq![view]);
        },
        Some(ExprKind::CompoundIdentifier) => {
            let nodes = nodes_of(content(Some(j)));
            let ghost all = json::refs_view(nodes@);
            let ghost names = names_of(j@);
            assert(names =~= all.map_values(|i: JsonView| ident_value(i)));
            let mut i: usize = 0;
            assert(text::views(out@) =~= names.take(0));
            while i < nodes.len()
                invariant
                    i <= nodes.len(),
                    all == json::refs_view(nodes@),
                    names == all.map_values(|i: JsonView| ident_value(i)),
                    text::views(out@) == names.take(i as int),
                decreases nodes.len() - i,
            {
                let ghost prior = text::views(out@);
                let name = value_of_ident(Some(nodes[i]));
                let ghost view = name@;
                out.push(name);
                assert(all[i as int] == nodes@[i as int]@);
                assert(text::views(out@) =~= prior.push(view));
                assert(names.take(i + 1) =~= names.take(i as int).push(names[i as int]));
                i = i + 1;
            }
            assert(names.take(names.len() as int) =~= names);
        },
        _ => {
            assert(text::views(out@) =~= Seq::<Seq<char>>::empty());
        },
    }
    out
}

fn read_flag(j: Option<&Json>) -> (r: Option<bool>)
    ensures
        r == flag(node_view(j)),
{
    match j {
        Some(Json::Bool(b)) => Some(*b),
        _ => None,
    }
}

fn read_options(j: &Json) -> (r: OrderByOptions)
    ensures
        r == options_of(j@),
{
    let options = member(Some(j), "options");
    OrderByOptions {
        asc: read_flag(member(options, "asc")),
        nulls_first: read_flag(member(options, "nulls_first")),
    }
}

fn list_of_arguments<'a>(call: Option<&'a Json>) -> (r: Option<&'a Json>)
    ensures
        node_view(r) == argument_list(node_view(call)),
{
    let args = member(call, "args");
    if is_kind(args, "List") {
        content(args)
    } else {
        None
    }
}

fn argument_nodes<'a>(call: Option<&'a Json>) -> (r: Vec<&'a Json>)
    ensures
        json::refs_view(r@) == depth::argument_exprs(depth::call_arguments(node_view(call))),
{
    let mut out: Vec<&'a Json> = Vec::new();
    assert(json::refs_view(out@) =~= Seq::<JsonView>::empty());
    match call {
        Some(call) => {
            depth::push_call_arguments(&mut out, Some(call));
            assert(json::refs_view(out@) =~= depth::argument_exprs(depth::call_arguments(call@)));
        },
        None => {
            assert(depth::call_arguments(JsonView::Null) =~= Seq::<JsonView>::empty());
            assert(depth::argument_exprs(Seq::empty()) =~= Seq::<JsonView>::empty());
        },
    }
    out
}

fn read_star(call: Option<&Json>) -> (r: bool)
    ensures
        r == has_star(depth::call_arguments(node_view(call))),
{
    let nodes = nodes_of(member(list_of_arguments(call), "args"));
    let ghost all = depth::call_arguments(node_view(call));
    proof {
        let args = json::field_or_null(node_view(call), "args"@);
        if !json::is_variant(args, "List"@) {
            assert(json::elements(json::field_or_null(JsonView::Null, "args"@))
                =~= Seq::<JsonView>::empty());
        }
        assert(json::refs_view(nodes@) =~= all);
    }
    let mut i: usize = 0;
    while i < nodes.len()
        invariant
            i <= nodes.len(),
            all == json::refs_view(nodes@),
            all == depth::call_arguments(node_view(call)),
            forall|k: int|
                0 <= k < i ==> !(json::is_variant(#[trigger] all[k], "Unnamed"@) && json::payload(
                    all[k],
                ) == JsonView::Text("Wildcard"@)),
        decreases nodes.len() - i,
    {
        assert(all[i as int] == nodes@[i as int]@);
        if json::has_variant(nodes[i], "Unnamed") && syntax::is_text(
            json::variant_payload(nodes[i]),
            "Wildcard",
        ) {
            return true;
        }
        i = i + 1;
    }
    false
}

fn ordering_nodes<'a>(call: Option<&'a Json>) -> (r: Vec<&'a Json>)
    ensures
        json::refs_view(r@) == argument_ordering(node_view(call)),
{
    let clauses = nodes_of(member(list_of_arguments(call), "clauses"));
    let ghost all = json::refs_view(clauses@);
    let mut i: usize = 0;
    while i < clauses.len()
        invariant
            i <= clauses.len(),
            all == json::refs_view(clauses@),
            all == json::elements(
                json::field_or_null(argument_list(node_view(call)), "clauses"@),
            ),
            ordering_from(all, 0) == ordering_from(all, i as int),
        decreases clauses.len() - i,
    {
        assert(all[i as int] == clauses@[i as int]@);
        if json::has_variant(clauses[i], "OrderBy") {
            return nodes_of(content(Some(clauses[i])));
        }
        i = i + 1;
    }
    let none: Vec<&'a Json> = Vec::new();
    assert(json::refs_view(none@) =~= Seq::<JsonView>::empty());
    none
}

/// Reads an expression, as far as it nests no deeper than `levels`.
pub fn read_expr(j: Option<&Json>, reader: &Reader, levels: usize) -> (r: Option<Expr>)
    ensures
        match r {
            Some(e) => shows_expr(e, node_view(j), *reader, levels as nat),
            None => forall|e: Expr| !shows_expr(e, node_view(j), *reader, levels as nat),
        },
    decreases levels, 0nat,
{
    proof {
        lemma_expr_parts(node_view(j), *reader, levels as nat);
    }
    if levels == 0 {
        return None;
    }
    let j: &Json = match j {
        Some(j) => j,
        None => {
            return None;
        },
    };
    let kind = match syntax::expr_kind(j) {
        Some(kind) => kind,
        None => {
            return None;
        },
    };
    let data_type: Option<String> = if kind == ExprKind::Cast {
        match written(reader, member(content(Some(j)), "data_type")) {
            Some(t) => Some(t),
            None => {
                return None;
            },
        }
    } else {
        None
    };
    let nodes = syntax::expr_operands(j);
    let operands = match read_operands(&nodes, reader, levels - 1) {
        Some(operands) => operands,
        None => {
            return None;
        },
    };
    let call: Option<Box<Function>> = if kind == ExprKind::Function {
        match read_call(content(Some(j)), reader, levels - 1) {
            Some(f) => Some(Box::new(f)),
            None => {
                return None;
            },
        }
    } else {
        None
    };
    let mut queries: Vec<&Json> = Vec::new();
    assert(json::refs_view(queries@) =~= Seq::<JsonView>::empty());
    depth::push_queries(j, &mut queries);
    assert(json::refs_view(queries@) =~= depth::expr_queries(j@));
    assert(json::refs_view(queries@).len() == queries@.len());
    let query: Option<Box<Query>> = if queries.len() > 0 {
        assert(json::refs_view(queries@)[0] == queries@[0]@);
        match read_query(Some(queries[0]), reader, levels - 1) {
            Some(q) => Some(Box::new(q)),
            None => {
                return None;
            },
        }
    } else {
        None
    };
    let constant_path = kind == ExprKind::JsonArrow && match member(content(Some(j)), "right") {
        Some(right) => reader.constant_path(right),
        None => {
            let null = Json::Null;
            reader.constant_path(&null)
        },
    };
    Some(Expr { kind, names: read_names(j), operands, data_type, constant_path, call, query })
}

fn read_operands(nodes: &Vec<(Role, &Json)>, reader: &Reader, levels: usize) -> (r: Option<Vec<Operand>>)
    ensures
        match r {
            Some(v) => shows_operands(
                v@,
                syntax::operand_views(nodes@),
                *reader,
                levels as nat,
            ),
            None => forall|v: Seq<Operand>|
                !shows_operands(v, syntax::operand_views(nodes@), *reader, levels as nat),
        },
    decreases levels, 1nat,
{
    let ghost all = syntax::operand_views(nodes@);
    let mut out: Vec<Operand> = Vec::new();
    let mut i: usize = 0;
    while i < nodes.len()
        invariant
            i <= nodes.len(),
            all == syntax::operand_views(nodes@),
            out@.len() == i,
            forall|k: int|
                0 <= k < i ==> (#[trigger] out@[k]).role == all[k].0 && shows_expr(
                    out@[k].expr,
                    all[k].1,
                    *reader,
                    levels as nat,
                ),
        decreases nodes.len() - i,
    {
        let (role, node) = nodes[i];
        assert(all[i as int] == (role, node@));
        match read_expr(Some(node), reader, levels) {
            Some(expr) => {
                out.push(Operand { role, expr });
            },
            None => {
                proof {
                    assert forall|v: Seq<Operand>| !shows_operands(v, all, *reader, levels as nat) by {
                        if shows_operands(v, all, *reader, levels as nat) {
                            assert(shows_expr(v[i as int].expr, all[i as int].1, *reader, levels as nat));
                        }
                    }
                }
                return None;
            },
        }
        i = i + 1;
    }
    Some(out)
}

fn read_list(nodes: &Vec<&Json>, reader: &Reader, levels: usize) -> (r: Option<Vec<Expr>>)
    ensures
        match r {
            Some(v) => shows_list(v@, json::refs_view(nodes@), *reader, levels as nat),
            None => forall|v: Seq<Expr>|
                !shows_list(v, json::refs_view(nodes@), *reader, levels as nat),
        },
    decreases levels, 1nat,
{
    let ghost all = json::refs_view(nodes@);
    let mut out: Vec<Expr> = Vec::new();
    let mut i: usize = 0;
    while i < nodes.len()
        invariant
            i <= nodes.len(),
            all == json::refs_view(nodes@),
            out@.len() == i,
            forall|k: int|
                0 <= k < i ==> shows_expr(#[trigger] out@[k], all[k], *reader, levels as nat),
        decreases nodes.len() - i,
    {
        assert(all[i as int] == nodes@[i as int]@);
        match read_expr(Some(nodes[i]), reader, levels) {
            Some(expr) => {
                out.push(expr);
            },
            None => {
                proof {
                    assert forall|v: Seq<Expr>| !shows_list(v, all, *reader, levels as nat) by {
                        if shows_list(v, all, *reader, levels as nat) {
                            assert(shows_expr(v[i as int], all[i as int], *reader, levels as nat));
                        }
                    }
                }
                return None;
            },
        }
        i = i + 1;
    }
    Some(out)
}

fn read_orders(nodes: &Vec<&Json>, reader: &Reader, levels: usize) -> (r: Option<Vec<OrderByExpr>>)
    ensures
        match r {
            Some(v) => shows_orders(v@, json::refs_view(nodes@), *reader, levels as nat),
            None => forall|v: Seq<OrderByExpr>|
                !shows_orders(v, json::refs_view(nodes@), *reader, levels as nat),
        },
    decreases levels, 1nat,
{
    let ghost all = json::refs_view(nodes@);
    let mut out: Vec<OrderByExpr> = Vec::new();
    let mut i: usize = 0;
    while i < nodes.len()
        invariant
            i <= nodes.len(),
            all == json::refs_view(nodes@),
            out@.len() == i,
            forall|k: int|
                0 <= k < i ==> (#[trigger] out@[k]).options == options_of(all[k]) && shows_expr(
                    out@[k].expr,
                    json::field_or_null(all[k], "expr"@),
                    *reader,
                    levels as nat,
                ),
        decreases nodes.len() - i,
    {
        assert(all[i as int] == nodes@[i as int]@);
        match read_expr(member(Some(nodes[i]), "expr"), reader, levels) {
            Some(expr) => {
                out.push(OrderByExpr { expr, options: read_options(nodes[i]) });
            },
            None => {
                proof {
                    assert forall|v: Seq<OrderByExpr>| !shows_orders(v, all, *reader, levels as nat) by {
                        if shows_orders(v, all, *reader, levels as nat) {
                            assert(shows_expr(
                                v[i as int].expr,
                                json::field_or_null(all[i as int], "expr"@),
                                *reader,
                                levels as nat,
                            ));
                        }
                    }
                }
                return None;
            },
        }
        i = i + 1;
    }
    Some(out)
}

/// Reads an expression that may be missing; the outer option is empty where it is there
/// and is not read.
fn read_optional(j: Option<&Json>, reader: &Reader, levels: usize) -> (r: Option<Option<Expr>>)
    ensures
        match r {
            Some(e) => shows_optional(e, node_view(j), *reader, levels as nat),
            None => forall|e: Option<Expr>|
                !shows_optional(e, node_view(j), *reader, levels as nat),
        },
    decreases levels, 1nat,
{
    proof {
        lemma_optional_parts(node_view(j), *reader, levels as nat);
    }
    if is_null(j) {
        return Some(None);
    }
    match read_expr(j, reader, levels) {
        Some(e) => Some(Some(e)),
        None => None,
    }
}

fn read_window(j: Option<&Json>, reader: &Reader, levels: usize) -> (r: Option<WindowSpec>)
    ensures
        match r {
            Some(w) => shows_window(w, node_view(j), *reader, levels as nat),
            None => forall|w: WindowSpec| !shows_window(w, node_view(j), *reader, levels as nat),
        },
    decreases levels, 2nat,
{
    proof {
        lemma_window_parts(node_view(j), *reader, levels as nat);
    }
    let name = member(j, "window_name");
    let window_name: Option<Ident> = if is_null(name) {
        None
    } else {
        match read_ident(name, reader) {
            Some(i) => Some(i),
            None => {
                return None;
            },
        }
    };
    let frame = member(j, "window_frame");
    let window_frame: Option<String> = if is_null(frame) {
        None
    } else {
        match written(reader, frame) {
            Some(t) => Some(t),
            None => {
                return None;
            },
        }
    };
    let partitions = nodes_of(member(j, "partition_by"));
    let partition_by = match read_list(&partitions, reader, levels) {
        Some(list) => list,
        None => {
            return None;
        },
    };
    let orders = nodes_of(member(j, "order_by"));
    let order_by = match read_orders(&orders, reader, levels) {
        Some(list) => list,
        None => {
            return None;
        },
    };
    Some(WindowSpec { window_name, partition_by, order_by, window_frame })
}

fn read_over(j: Option<&Json>, reader: &Reader, levels: usize) -> (r: Option<Option<WindowType>>)
    ensures
        match r {
            Some(w) => shows_over(w, node_view(j), *reader, levels as nat),
            None => forall|w: Option<WindowType>|
                !shows_over(w, node_view(j), *reader, levels as nat),
        },
    decreases levels, 3nat,
{
    proof {
        lemma_over_parts(node_view(j), *reader, levels as nat);
    }
    if is_null(j) {
        return Some(None);
    }
    if is_kind(j, "WindowSpec") {
        return match read_window(content(j), reader, levels) {
            Some(w) => Some(Some(WindowType::WindowSpec(w))),
            None => {
                proof {
                    lemma_other_window();
                }
                None
            },
        };
    }
    if is_kind(j, "NamedWindow") {
        return match read_ident(content(j), reader) {
            Some(i) => Some(Some(WindowType::NamedWindow(i))),
            None => None,
        };
    }
    None
}

proof fn lemma_other_window()
    ensures
        "WindowSpec"@ != "NamedWindow"@,
{
    reveal_strlit("WindowSpec");
    reveal_strlit("NamedWindow");
    assert("WindowSpec"@.len() == 10);
    assert("NamedWindow"@.len() == 11);
}

fn read_call(j: Option<&Json>, reader: &Reader, levels: usize) -> (r: Option<Function>)
    ensures
        match r {
            Some(f) => shows_call(f, node_view(j), *reader, levels as nat),
            None => forall|f: Function| !shows_call(f, node_view(j), *reader, levels as nat),
        },
    decreases levels, 4nat,
{
    proof {
        lemma_call_parts(node_view(j), *reader, levels as nat);
    }
    let name = match written(reader, member(j, "name")) {
        Some(name) => name,
        None => {
            return None;
        },
    };
    let text = match written(reader, j) {
        Some(text) => text,
        None => {
            return None;
        },
    };
    let arguments = argument_nodes(j);
    let args = match read_list(&arguments, reader, levels) {
        Some(args) => args,
        None => {
            return None;
        },
    };
    let orders = ordering_nodes(j);
    let order_by = match read_orders(&orders, reader, levels) {
        Some(list) => list,
        None => {
            return None;
        },
    };
    let filter: Option<Box<Expr>> = match read_optional(member(j, "filter"), reader, levels) {
        Some(Some(e)) => Some(Box::new(e)),
        Some(None) => None,
        None => {
            return None;
        },
    };
    let groups = nodes_of(member(j, "within_group"));
    let within_group = match read_orders(&groups, reader, levels) {
        Some(list) => list,
        None => {
            return None;
        },
    };
    let over = match read_over(member(j, "over"), reader, levels) {
        Some(over) => over,
        None => {
            return None;
        },
    };
    let lower = text::to_lower(name.as_str());
    let aggregate = sets::holds_text(&reader.aggregates, lower.as_str());
    let spatial_predicate = sets::holds_text(&reader.spatial_predicates, lower.as_str());
    let star = read_star(j);
    let distinct = syntax::is_text(member(list_of_arguments(j), "duplicate_treatment"), "Distinct");
    let null_treatment = !is_null(member(j, "null_treatment"));
    Some(
        Function {
            name,
            text,
            args,
            star,
            distinct,
            aggregate,
            spatial_predicate,
            order_by,
            filter,
            within_group,
            null_treatment,
            over,
        },
    )
}

fn read_item(j: &Json, reader: &Reader, levels: usize) -> (r: Option<SelectItem>)
    ensures
        match r {
            Some(item) => shows_item(item, j@, *reader, levels as nat),
            None => forall|item: SelectItem| !shows_item(item, j@, *reader, levels as nat),
        },
    decreases levels, 2nat,
{
    proof {
        lemma_item_parts(j@, *reader, levels as nat);
        lemma_item_names();
    }
    let p = content(Some(j));
    if json::has_variant(j, "UnnamedExpr") {
        return match read_expr(p, reader, levels) {
            Some(e) => Some(SelectItem::UnnamedExpr(e)),
            None => None,
        };
    }
    if json::has_variant(j, "ExprWithAlias") {
        return match (
            read_expr(member(p, "expr"), reader, levels),
            read_ident(member(p, "alias"), reader),
        ) {
            (Some(expr), Some(alias)) => Some(SelectItem::ExprWithAlias { expr, alias }),
            _ => None,
        };
    }
    let text = match reader.find_written(j) {
        Some(text) => text,
        None => {
            return None;
        },
    };
    if json::has_variant(j, "Wildcard") {
        Some(SelectItem::Wildcard(text))
    } else if json::has_variant(j, "QualifiedWildcard") {
        Some(SelectItem::QualifiedWildcard(text))
    } else {
        Some(SelectItem::Other(text))
    }
}

proof fn lemma_item_names()
    ensures
        "UnnamedExpr"@ != "ExprWithAlias"@,
        "UnnamedExpr"@ != "Wildcard"@,
        "UnnamedExpr"@ != "QualifiedWildcard"@,
        "ExprWithAlias"@ != "Wildcard"@,
        "ExprWithAlias"@ != "QualifiedWildcard"@,
        "Wildcard"@ != "QualifiedWildcard"@,
{
    reveal_strlit("UnnamedExpr");
    reveal_strlit("ExprWithAlias");
    reveal_strlit("Wildcard");
    reveal_strlit("QualifiedWildcard");
    assert("UnnamedExpr"@.len() == 11);
    assert("ExprWithAlias"@.len() == 13);
    assert("Wildcard"@.len() == 8);
    assert("QualifiedWildcard"@.len() == 17);
}

fn read_items(nodes: &Vec<&Json>, reader: &Reader, levels: usize) -> (r: Option<Vec<SelectItem>>)
    ensures
        match r {
            Some(v) => shows_items(v@, json::refs_view(nodes@), *reader, levels as nat),
            None => forall|v: Seq<SelectItem>|
                !shows_items(v, json::refs_view(nodes@), *reader, levels as nat),
        },
    decreases levels, 3nat,
{
    let ghost all = json::refs_view(nodes@);
    let mut out: Vec<SelectItem> = Vec::new();
    let mut i: usize = 0;
    while i < nodes.len()
        invariant
            i <= nodes.len(),
            all == json::refs_view(nodes@),
            out@.len() == i,
            forall|k: int|
                0 <= k < i ==> shows_item(#[trigger] out@[k], all[k], *reader, levels as nat),
        decreases nodes.len() - i,
    {
        assert(all[i as int] == nodes@[i as int]@);
        match read_item(nodes[i], reader, levels) {
            Some(item) => {
                out.push(item);
            },
            None => {
                proof {
                    assert forall|v: Seq<SelectItem>| !shows_items(v, all, *reader, levels as nat) by {
                        if shows_items(v, all, *reader, levels as nat) {
                            assert(shows_item(v[i as int], all[i as int], *reader, levels as nat));
                        }
                    }
                }
                return None;
            },
        }
        i = i + 1;
    }
    Some(out)
}

fn read_grouping(j: Option<&Json>, reader: &Reader, levels: usize) -> (r: Option<GroupByExpr>)
    ensures
        match r {
            Some(g) => shows_grouping(g, node_view(j), *reader, levels as nat),
            None => forall|g: GroupByExpr| !shows_grouping(g, node_view(j), *reader, levels as nat),
        },
    decreases levels, 2nat,
{
    proof {
        lemma_grouping_parts(node_view(j), *reader, levels as nat);
        lemma_list_names();
    }
    let p = content(j);
    if is_kind(j, "All") {
        let modifiers = nodes_of(p);
        assert(json::refs_view(modifiers@).len() == modifiers@.len());
        return Some(GroupByExpr::All(modifiers.len()));
    }
    if is_kind(j, "Expressions") {
        let nodes = nodes_of(node_at(p, 0));
        let modifiers = nodes_of(node_at(p, 1));
        assert(json::refs_view(modifiers@).len() == modifiers@.len());
        return match read_list(&nodes, reader, levels) {
            Some(list) => Some(GroupByExpr::Expressions(list, modifiers.len())),
            None => None,
        };
    }
    None
}

proof fn lemma_list_names()
    ensures
        "All"@ != "Expressions"@,
{
    reveal_strlit("All");
    reveal_strlit("Expressions");
    assert("All"@.len() == 3);
    assert("Expressions"@.len() == 11);
}

fn read_definition(j: &Json, reader: &Reader, levels: usize) -> (r: Option<NamedWindowDefinition>)
    ensures
        match r {
            Some(d) => shows_definition(d, j@, *reader, levels as nat),
            None => forall|d: NamedWindowDefinition|
                !shows_definition(d, j@, *reader, levels as nat),
        },
    decreases levels, 3nat,
{
    proof {
        lemma_definition_parts(j@, *reader, levels as nat);
        lemma_other_window();
    }
    let name = match read_ident(node_at(Some(j), 0), reader) {
        Some(name) => name,
        None => {
            return None;
        },
    };
    let w = node_at(Some(j), 1);
    if is_kind(w, "WindowSpec") {
        return match read_window(content(w), reader, levels) {
            Some(spec) => Some(
                NamedWindowDefinition { name, window: NamedWindowExpr::WindowSpec(spec) },
            ),
            None => None,
        };
    }
    if is_kind(w, "NamedWindow") {
        return match read_ident(content(w), reader) {
            Some(i) => Some(NamedWindowDefinition { name, window: NamedWindowExpr::NamedWindow(i) }),
            None => None,
        };
    }
    None
}

fn read_definitions(nodes: &Vec<&Json>, reader: &Reader, levels: usize) -> (r: Option<
    Vec<NamedWindowDefinition>,
>)
    ensures
        match r {
            Some(v) => shows_definitions(v@, json::refs_view(nodes@), *reader, levels as nat),
            None => forall|v: Seq<NamedWindowDefinition>|
                !shows_definitions(v, json::refs_view(nodes@), *reader, levels as nat),
        },
    decreases levels, 4nat,
{
    let ghost all = json::refs_view(nodes@);
    let mut out: Vec<NamedWindowDefinition> = Vec::new();
    let mut i: usize = 0;
    while i < nodes.len()
        invariant
            i <= nodes.len(),
            all == json::refs_view(nodes@),
            out@.len() == i,
            forall|k: int|
                0 <= k < i ==> shows_definition(#[trigger] out@[k], all[k], *reader, levels as nat),
        decreases nodes.len() - i,
    {
        assert(all[i as int] == nodes@[i as int]@);
        match read_definition(nodes[i], reader, levels) {
            Some(d) => {
                out.push(d);
            },
            None => {
                proof {
                    assert forall|v: Seq<NamedWindowDefinition>|
                        !shows_definitions(v, all, *reader, levels as nat) by {
                        if shows_definitions(v, all, *reader, levels as nat) {
                            assert(shows_definition(v[i as int], all[i as int], *reader, levels as nat));
                        }
                    }
                }
                return None;
            },
        }
        i = i + 1;
    }
    Some(out)
}

/// Reads a SELECT.
pub fn read_select(j: Option<&Json>, reader: &Reader, levels: usize) -> (r: Option<Select>)
    ensures
        match r {
            Some(s) => shows_select(s, node_view(j), *reader, levels as nat),
            None => forall|s: Select| !shows_select(s, node_view(j), *reader, levels as nat),
        },
    decreases levels, 5nat,
{
    proof {
        lemma_select_parts(node_view(j), *reader, levels as nat);
    }
    let items = nodes_of(member(j, "projection"));
    let projection = match read_items(&items, reader, levels) {
        Some(list) => list,
        None => {
            return None;
        },
    };
    let selection = match read_optional(member(j, "selection"), reader, levels) {
        Some(e) => e,
        None => {
            return None;
        },
    };
    let group_by = match read_grouping(member(j, "group_by"), reader, levels) {
        Some(g) => g,
        None => {
            return None;
        },
    };
    let having = match read_optional(member(j, "having"), reader, levels) {
        Some(e) => e,
        None => {
            return None;
        },
    };
    let windows = nodes_of(member(j, "named_window"));
    let named_window = match read_definitions(&windows, reader, levels) {
        Some(list) => list,
        None => {
            return None;
        },
    };
    Some(Select { projection, selection, group_by, having, named_window })
}

proof fn lemma_body_names()
    ensures
        "Select"@ != "Query"@,
        "Select"@ != "SetOperation"@,
        "Select"@ != "Insert"@,
        "Select"@ != "Update"@,
        "Select"@ != "Delete"@,
        "Query"@ != "SetOperation"@,
        "Query"@ != "Insert"@,
        "Query"@ != "Update"@,
        "Query"@ != "Delete"@,
        "SetOperation"@ != "Insert"@,
        "SetOperation"@ != "Update"@,
        "SetOperation"@ != "Delete"@,
        "Insert"@ != "Update"@,
        "Insert"@ != "Delete"@,
        "Update"@ != "Delete"@,
{
    reveal_strlit("Select");
    reveal_strlit("Query");
    reveal_strlit("SetOperation");
    reveal_strlit("Insert");
    reveal_strlit("Update");
    reveal_strlit("Delete");
    assert("Select"@.len() == 6 && "Select"@[0] == 'S');
    assert("Query"@.len() == 5);
    assert("SetOperation"@.len() == 12);
    assert("Insert"@.len() == 6 && "Insert"@[0] == 'I');
    assert("Update"@.len() == 6 && "Update"@[0] == 'U');
    assert("Delete"@.len() == 6 && "Delete"@[0] == 'D');
}

/// Reads the body of a query.
pub fn read_body(j: Option<&Json>, reader: &Reader, levels: usize) -> (r: Option<SetExpr>)
    ensures
        match r {
            Some(b) => shows_body(b, node_view(j), *reader, levels as nat),
            None => forall|b: SetExpr| !shows_body(b, node_view(j), *reader, levels as nat),
        },
    decreases levels, 6nat,
{
    proof {
        lemma_body_parts(node_view(j), *reader, levels as nat);
        lemma_body_names();
    }
    let p = content(j);
    if is_kind(j, "Select") {
        return match read_select(p, reader, levels) {
            Some(s) => Some(SetExpr::Select(Box::new(s))),
            None => None,
        };
    }
    if is_kind(j, "Query") {
        if levels == 0 {
            return None;
        }
        return match read_query(p, reader, levels - 1) {
            Some(q) => Some(SetExpr::Query(Box::new(q))),
            None => None,
        };
    }
    if is_kind(j, "SetOperation") {
        if levels == 0 {
            return None;
        }
        let left = match read_body(member(p, "left"), reader, levels - 1) {
            Some(left) => left,
            None => {
                return None;
            },
        };
        return match read_body(member(p, "right"), reader, levels - 1) {
            Some(right) => Some(
                SetExpr::SetOperation { left: Box::new(left), right: Box::new(right) },
            ),
            None => None,
        };
    }
    if is_kind(j, "Insert") {
        return match written(reader, p) {
            Some(t) => Some(SetExpr::Insert(t)),
            None => None,
        };
    }
    if is_kind(j, "Update") {
        return match written(reader, p) {
            Some(t) => Some(SetExpr::Update(t)),
            None => None,
        };
    }
    if is_kind(j, "Delete") {
        return match written(reader, p) {
            Some(t) => Some(SetExpr::Delete(t)),
            None => None,
        };
    }
    Some(SetExpr::Other)
}

fn read_ordering(j: Option<&Json>, reader: &Reader, levels: usize) -> (r: Option<Option<OrderBy>>)
    ensures
        match r {
            Some(o) => shows_ordering(o, node_view(j), *reader, levels as nat),
            None => forall|o: Option<OrderBy>|
                !shows_ordering(o, node_view(j), *reader, levels as nat),
        },
    decreases levels, 2nat,
{
    proof {
        lemma_ordering_parts(node_view(j), *reader, levels as nat);
        lemma_list_names();
    }
    if is_null(j) {
        return Some(None);
    }
    let kind = member(j, "kind");
    if is_kind(kind, "All") {
        return Some(Some(OrderBy::All));
    }
    if is_kind(kind, "Expressions") {
        let nodes = nodes_of(content(kind));
        return match read_orders(&nodes, reader, levels) {
            Some(list) => Some(Some(OrderBy::Expressions(list))),
            None => None,
        };
    }
    None
}

/// Reads a query, as far as it nests no deeper than `levels`.
pub fn read_query(j: Option<&Json>, reader: &Reader, levels: usize) -> (r: Option<Query>)
    ensures
        match r {
            Some(q) => shows_query(q, node_view(j), *reader, levels as nat),
            None => forall|q: Query| !shows_query(q, node_view(j), *reader, levels as nat),
        },
    decreases levels, 7nat,
{
    proof {
        lemma_query_parts(node_view(j), *reader, levels as nat);
    }
    let body = match read_body(member(j, "body"), reader, levels) {
        Some(body) => body,
        None => {
            return None;
        },
    };
    let order_by = match read_ordering(member(j, "order_by"), reader, levels) {
        Some(order_by) => order_by,
        None => {
            return None;
        },
    };
    Some(Query { body: Box::new(body), order_by })
}

} // verus!
