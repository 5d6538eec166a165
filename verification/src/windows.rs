//! Window functions and grouped aggregates: which calls a query makes, whether
//! they are valid, and which window each of them runs over.
use vstd::prelude::*;
use crate::ast::{Expr, ExprKind, Function, GroupByExpr, Ident, NamedWindowDefinition,
    NamedWindowExpr, Operand, OrderBy, OrderByExpr, Query, Role, Select, SelectItem, WindowSpec,
    WindowType};
use crate::error;
use crate::error::{ErrorView, SqlError};
use crate::text;

verus! {

/// The kinds of expressions whose operands are searched for aggregate calls.
pub open spec fn searched_for_aggregates(kind: ExprKind) -> bool {
    match kind {
        ExprKind::BinaryOp | ExprKind::JsonArrow | ExprKind::IsDistinctFrom
        | ExprKind::IsNotDistinctFrom | ExprKind::AnyOp | ExprKind::AllOp | ExprKind::UnaryOp
        | ExprKind::Cast | ExprKind::Nested | ExprKind::Collate | ExprKind::IsNull
        | ExprKind::IsNotNull | ExprKind::IsTrue | ExprKind::IsNotTrue | ExprKind::IsFalse
        | ExprKind::IsNotFalse | ExprKind::IsUnknown | ExprKind::IsNotUnknown | ExprKind::Extract
        | ExprKind::Position | ExprKind::InList | ExprKind::Between | ExprKind::Like
        | ExprKind::ILike | ExprKind::SimilarTo | ExprKind::RLike | ExprKind::Case
        | ExprKind::Array | ExprKind::CompoundFieldAccess | ExprKind::Interval
        | ExprKind::AtTimeZone | ExprKind::Tuple | ExprKind::Struct => true,
        _ => false,
    }
}

/// The kinds of expressions whose operands are searched for window functions.
pub open spec fn searched_for_windows(kind: ExprKind) -> bool {
    searched_for_aggregates(kind) || match kind {
        ExprKind::Ceil | ExprKind::Floor | ExprKind::OuterJoin | ExprKind::Prior | ExprKind::Trim
        | ExprKind::JsonAccess | ExprKind::InSubquery | ExprKind::InUnnest | ExprKind::Prefixed
        | ExprKind::Named | ExprKind::Convert | ExprKind::Substring | ExprKind::Overlay
        | ExprKind::GroupingSets | ExprKind::Cube | ExprKind::Rollup | ExprKind::Lambda => true,
        _ => false,
    }
}

/// Whether an operand is searched for window functions: all but the array of
/// `IN UNNEST`.
pub open spec fn operand_searched_for_windows(kind: ExprKind, role: Role) -> bool {
    searched_for_windows(kind) && role != Role::UnnestArray
}

/// Whether an operand is searched for aggregate calls: subscripts are not.
pub open spec fn operand_searched_for_aggregates(kind: ExprKind, role: Role) -> bool {
    searched_for_aggregates(kind) && (role == Role::Operand || role == Role::FieldStep)
}

/// The calls with an OVER clause in an expression: that of the expression
/// itself, then those in its arguments and its filter, or in its operands.
pub open spec fn window_functions(e: Expr) -> Seq<Function>
    decreases e,
{
    match e.call {
        Some(f) => {
            let own: Seq<Function> = if f.over is Some {
                seq![*f]
            } else {
                Seq::empty()
            };
            own + windows_in_args(f.args@) + match f.filter {
                Some(filter) => window_functions(*filter),
                None => Seq::empty(),
            }
        },
        None => windows_in_operands(e.kind, e.operands@),
    }
}

pub open spec fn windows_in_args(args: Seq<Expr>) -> Seq<Function>
    decreases args,
{
    if args.len() == 0 {
        Seq::empty()
    } else {
        windows_in_args(args.drop_last()) + window_functions(args.last())
    }
}

pub open spec fn windows_in_operands(kind: ExprKind, operands: Seq<Operand>) -> Seq<Function>
    decreases operands,
{
    if operands.len() == 0 {
        Seq::empty()
    } else {
        windows_in_operands(kind, operands.drop_last()) + if operand_searched_for_windows(
            kind,
            operands.last().role,
        ) {
            window_functions(operands.last().expr)
        } else {
            Seq::empty()
        }
    }
}

fn search_for_aggregates(kind: ExprKind) -> (r: bool)
    ensures
        r == searched_for_aggregates(kind),
{
    match kind {
        ExprKind::BinaryOp | ExprKind::JsonArrow | ExprKind::IsDistinctFrom
        | ExprKind::IsNotDistinctFrom | ExprKind::AnyOp | ExprKind::AllOp | ExprKind::UnaryOp
        | ExprKind::Cast | ExprKind::Nested | ExprKind::Collate | ExprKind::IsNull
        | ExprKind::IsNotNull | ExprKind::IsTrue | ExprKind::IsNotTrue | ExprKind::IsFalse
        | ExprKind::IsNotFalse | ExprKind::IsUnknown | ExprKind::IsNotUnknown | ExprKind::Extract
        | ExprKind::Position | ExprKind::InList | ExprKind::Between | ExprKind::Like
        | ExprKind::ILike | ExprKind::SimilarTo | ExprKind::RLike | ExprKind::Case
        | ExprKind::Array | ExprKind::CompoundFieldAccess | ExprKind::Interval
        | ExprKind::AtTimeZone | ExprKind::Tuple | ExprKind::Struct => true,
        _ => false,
    }
}

fn search_for_windows(kind: ExprKind) -> (r: bool)
    ensures
        r == searched_for_windows(kind),
{
    search_for_aggregates(kind) || match kind {
        ExprKind::Ceil | ExprKind::Floor | ExprKind::OuterJoin | ExprKind::Prior | ExprKind::Trim
        | ExprKind::JsonAccess | ExprKind::InSubquery | ExprKind::InUnnest | ExprKind::Prefixed
        | ExprKind::Named | ExprKind::Convert | ExprKind::Substring | ExprKind::Overlay
        | ExprKind::GroupingSets | ExprKind::Cube | ExprKind::Rollup | ExprKind::Lambda => true,
        _ => false,
    }
}

/// The calls in a list of borrowed calls.
pub open spec fn calls(v: Seq<&Function>) -> Seq<Function> {
    v.map_values(|f: &Function| *f)
}

/// Appends the calls with an OVER clause in an expression.
pub fn collect_window_functions<'a>(e: &'a Expr, out: &mut Vec<&'a Function>)
    ensures
        calls(final(out)@) == calls(old(out)@) + window_functions(*e),
    decreases e,
{
    let ghost before = calls(out@);
    match &e.call {
        Some(f) => {
            let f: &'a Function = &**f;
            let ghost entry = out@;
            if f.over.is_some() {
                out.push(f);
                assert(calls(out@) =~= calls(entry).push(*f));
            }
            let ghost own: Seq<Function> = if f.over is Some {
                seq![*f]
            } else {
                Seq::empty()
            };
            assert(calls(out@) =~= before + own);
            collect_windows_in_args(&f.args, out);
            assert(calls(out@) =~= before + own + windows_in_args(f.args@));
            match &f.filter {
                Some(filter) => {
                    collect_window_functions(&**filter, out);
                },
                None => {},
            }
            assert(calls(out@) =~= before + window_functions(*e));
        },
        None => {
            let mut i: usize = 0;
            assert(windows_in_operands(e.kind, e.operands@.take(0)) =~= Seq::<Function>::empty());
            assert(calls(out@) =~= before + windows_in_operands(e.kind, e.operands@.take(0)));
            while i < e.operands.len()
                invariant
                    i <= e.operands.len(),
                    calls(out@) == before + windows_in_operands(e.kind, e.operands@.take(i as int)),
                decreases e.operands.len() - i,
            {
                let operand = &e.operands[i];
                if search_for_windows(e.kind) && operand.role != Role::UnnestArray {
                    collect_window_functions(&operand.expr, out);
                }
                assert(e.operands@.take(i as int + 1).drop_last() =~= e.operands@.take(i as int));
                assert(calls(out@) =~= before + windows_in_operands(
                    e.kind,
                    e.operands@.take(i as int + 1),
                ));
                i = i + 1;
            }
            assert(e.operands@.take(e.operands@.len() as int) =~= e.operands@);
        },
    }
}

fn collect_windows_in_args<'a>(args: &'a Vec<Expr>, out: &mut Vec<&'a Function>)
    ensures
        calls(final(out)@) == calls(old(out)@) + windows_in_args(args@),
    decreases args,
{
    let ghost before = calls(out@);
    let mut i: usize = 0;
    assert(windows_in_args(args@.take(0)) =~= Seq::<Function>::empty());
    assert(calls(out@) =~= before + windows_in_args(args@.take(0)));
    while i < args.len()
        invariant
            i <= args.len(),
            calls(out@) == before + windows_in_args(args@.take(i as int)),
        decreases args.len() - i,
    {
        collect_window_functions(&args[i], out);
        assert(args@.take(i as int + 1).drop_last() =~= args@.take(i as int));
        assert(calls(out@) =~= before + windows_in_args(args@.take(i as int + 1)));
        i = i + 1;
    }
    assert(args@.take(args@.len() as int) =~= args@);
}

/// The aggregate calls without an OVER clause in an expression, in the order in
/// which `window_functions` goes.
pub open spec fn group_aggregate_functions(e: Expr) -> Seq<Function>
    decreases e,
{
    match e.call {
        Some(f) => {
            let own: Seq<Function> = if f.over is None && f.aggregate {
                seq![*f]
            } else {
                Seq::empty()
            };
            own + aggregates_in_args(f.args@) + match f.filter {
                Some(filter) => group_aggregate_functions(*filter),
                None => Seq::empty(),
            }
        },
        None => aggregates_in_operands(e.kind, e.operands@),
    }
}

pub open spec fn aggregates_in_args(args: Seq<Expr>) -> Seq<Function>
    decreases args,
{
    if args.len() == 0 {
        Seq::empty()
    } else {
        aggregates_in_args(args.drop_last()) + group_aggregate_functions(args.last())
    }
}

pub open spec fn aggregates_in_operands(kind: ExprKind, operands: Seq<Operand>) -> Seq<Function>
    decreases operands,
{
    if operands.len() == 0 {
        Seq::empty()
    } else {
        aggregates_in_operands(kind, operands.drop_last()) + if operand_searched_for_aggregates(
            kind,
            operands.last().role,
        ) {
            group_aggregate_functions(operands.last().expr)
        } else {
            Seq::empty()
        }
    }
}

/// Appends the aggregate calls without an OVER clause in an expression.
pub fn collect_group_aggregate_functions<'a>(e: &'a Expr, out: &mut Vec<&'a Function>)
    ensures
        calls(final(out)@) == calls(old(out)@) + group_aggregate_functions(*e),
    decreases e,
{
    let ghost before = calls(out@);
    match &e.call {
        Some(f) => {
            let f: &'a Function = &**f;
            let ghost entry = out@;
            if f.over.is_none() && f.aggregate {
                out.push(f);
                assert(calls(out@) =~= calls(entry).push(*f));
            }
            let ghost own: Seq<Function> = if f.over is None && f.aggregate {
                seq![*f]
            } else {
                Seq::empty()
            };
            assert(calls(out@) =~= before + own);
            collect_aggregates_in_args(&f.args, out);
            assert(calls(out@) =~= before + own + aggregates_in_args(f.args@));
            match &f.filter {
                Some(filter) => {
                    collect_group_aggregate_functions(&**filter, out);
                },
                None => {},
            }
            assert(calls(out@) =~= before + group_aggregate_functions(*e));
        },
        None => {
            let mut i: usize = 0;
            assert(aggregates_in_operands(e.kind, e.operands@.take(0))
                =~= Seq::<Function>::empty());
            assert(calls(out@) =~= before + aggregates_in_operands(e.kind, e.operands@.take(0)));
            while i < e.operands.len()
                invariant
                    i <= e.operands.len(),
                    calls(out@) == before + aggregates_in_operands(
                        e.kind,
                        e.operands@.take(i as int),
                    ),
                decreases e.operands.len() - i,
            {
                let operand = &e.operands[i];
                if search_for_aggregates(e.kind) && (operand.role == Role::Operand || operand.role
                    == Role::FieldStep) {
                    collect_group_aggregate_functions(&operand.expr, out);
                }
                assert(e.operands@.take(i as int + 1).drop_last() =~= e.operands@.take(i as int));
                assert(calls(out@) =~= before + aggregates_in_operands(
                    e.kind,
                    e.operands@.take(i as int + 1),
                ));
                i = i + 1;
            }
            assert(e.operands@.take(e.operands@.len() as int) =~= e.operands@);
        },
    }
}

fn collect_aggregates_in_args<'a>(args: &'a Vec<Expr>, out: &mut Vec<&'a Function>)
    ensures
        calls(final(out)@) == calls(old(out)@) + aggregates_in_args(args@),
    decreases args,
{
    let ghost before = calls(out@);
    let mut i: usize = 0;
    assert(aggregates_in_args(args@.take(0)) =~= Seq::<Function>::empty());
    assert(calls(out@) =~= before + aggregates_in_args(args@.take(0)));
    while i < args.len()
        invariant
            i <= args.len(),
            calls(out@) == before + aggregates_in_args(args@.take(i as int)),
        decreases args.len() - i,
    {
        collect_group_aggregate_functions(&args[i], out);
        assert(args@.take(i as int + 1).drop_last() =~= args@.take(i as int));
        assert(calls(out@) =~= before + aggregates_in_args(args@.take(i as int + 1)));
        i = i + 1;
    }
    assert(args@.take(args@.len() as int) =~= args@);
}

/// The column that holds the result of a window function.
pub fn window_column_name(function: &Function) -> (r: String)
    ensures
        r@ == "__bicdb_window__"@ + function.text@,
{
    text::concat("__bicdb_window__", function.text.as_str())
}

/// The column that holds the result of a grouped aggregate.
pub fn group_aggregate_column_name(function: &Function) -> (r: String)
    ensures
        r@ == "__bicdb_group_aggregate__"@ + function.text@,
{
    text::concat("__bicdb_group_aggregate__", function.text.as_str())
}

/// A call that is written that way is among the calls.
pub open spec fn has_text(fs: Seq<Function>, t: Seq<char>) -> bool {
    exists|i: int| 0 <= i < fs.len() && (#[trigger] fs[i]).text@ == t
}

/// The calls without those that are written like an earlier one.
pub open spec fn distinct_by_text(fs: Seq<Function>) -> Seq<Function>
    decreases fs.len(),
{
    if fs.len() == 0 {
        Seq::empty()
    } else {
        let kept = distinct_by_text(fs.drop_last());
        if has_text(kept, fs.last().text@) {
            kept
        } else {
            kept.push(fs.last())
        }
    }
}

fn text_listed(fs: &Vec<&Function>, t: &str) -> (r: bool)
    ensures
        r == has_text(calls(fs@), t@),
{
    let mut i: usize = 0;
    while i < fs.len()
        invariant
            i <= fs.len(),
            forall|k: int| 0 <= k < i ==> (#[trigger] calls(fs@)[k]).text@ != t@,
        decreases fs.len() - i,
    {
        assert(calls(fs@)[i as int] == *fs@[i as int]);
        if text::text_eq(fs[i].text.as_str(), t) {
            return true;
        }
        i = i + 1;
    }
    false
}

fn retain_distinct<'a>(fs: Vec<&'a Function>) -> (r: Vec<&'a Function>)
    ensures
        calls(r@) == distinct_by_text(calls(fs@)),
{
    let ghost all = calls(fs@);
    let mut out: Vec<&'a Function> = Vec::new();
    let mut i: usize = 0;
    assert(all.take(0) =~= Seq::<Function>::empty());
    assert(calls(out@) =~= distinct_by_text(all.take(0)));
    while i < fs.len()
        invariant
            i <= fs.len(),
            all == calls(fs@),
            calls(out@) == distinct_by_text(all.take(i as int)),
        decreases fs.len() - i,
    {
        let f = fs[i];
        let ghost prior = out@;
        assert(all.take(i as int + 1).drop_last() =~= all.take(i as int));
        assert(all.take(i as int + 1).last() == *f);
        if !text_listed(&out, f.text.as_str()) {
            out.push(f);
            assert(calls(out@) =~= calls(prior).push(*f));
        }
        i = i + 1;
    }
    assert(all.take(all.len() as int) =~= all);
    out
}

/// Keeping calls once each keeps every text that occurs, once.
pub proof fn law_distinct_by_text(fs: Seq<Function>)
    ensures
        forall|t: Seq<char>|
            #[trigger] has_text(distinct_by_text(fs), t) <==> has_text(fs, t),
        forall|i: int, j: int|
            0 <= i < j < distinct_by_text(fs).len() ==> (#[trigger] distinct_by_text(fs)[i]).text@
                != (#[trigger] distinct_by_text(fs)[j]).text@,
    decreases fs.len(),
{
    if fs.len() > 0 {
        let rest = fs.drop_last();
        law_distinct_by_text(rest);
        let kept = distinct_by_text(rest);
        let all = distinct_by_text(fs);
        assert forall|t: Seq<char>| #[trigger] has_text(all, t) <==> has_text(fs, t) by {
            if has_text(fs, t) {
                let i = choose|i: int| 0 <= i < fs.len() && (#[trigger] fs[i]).text@ == t;
                if i < rest.len() {
                    assert(rest[i].text@ == t);
                    assert(has_text(rest, t));
                    assert(has_text(kept, t));
                    let k = choose|k: int| 0 <= k < kept.len() && (#[trigger] kept[k]).text@ == t;
                    assert(all[k].text@ == t);
                } else {
                    if has_text(kept, t) {
                        let k = choose|k: int|
                            0 <= k < kept.len() && (#[trigger] kept[k]).text@ == t;
                        assert(all[k].text@ == t);
                    } else {
                        assert(all[all.len() - 1].text@ == t);
                    }
                }
            }
            if has_text(all, t) {
                let k = choose|k: int| 0 <= k < all.len() && (#[trigger] all[k]).text@ == t;
                if k < kept.len() {
                    assert(kept[k].text@ == t);
                    assert(has_text(kept, t));
                    assert(has_text(rest, t));
                    let i = choose|i: int| 0 <= i < rest.len() && (#[trigger] rest[i]).text@ == t;
                    assert(fs[i].text@ == t);
                } else {
                    assert(fs[fs.len() - 1].text@ == t);
                }
            }
        }
        assert forall|i: int, j: int| 0 <= i < j < all.len() implies (#[trigger] all[i]).text@ != (
        #[trigger] all[j]).text@ by {
            assert(kept[i] == all[i]);
            if j < kept.len() {
                assert(kept[j] == all[j]);
            }
        }
    }
}

/// The window functions in the projection.
pub open spec fn windows_in_items(items: Seq<SelectItem>) -> Seq<Function>
    decreases items.len(),
{
    if items.len() == 0 {
        Seq::empty()
    } else {
        windows_in_items(items.drop_last()) + match items.last() {
            SelectItem::UnnamedExpr(expr) => window_functions(expr),
            SelectItem::ExprWithAlias { expr, alias } => window_functions(expr),
            _ => Seq::empty(),
        }
    }
}

pub open spec fn windows_in_order(order: Seq<OrderByExpr>) -> Seq<Function>
    decreases order.len(),
{
    if order.len() == 0 {
        Seq::empty()
    } else {
        windows_in_order(order.drop_last()) + window_functions(order.last().expr)
    }
}

/// The window functions of a query: those of its projection and its ORDER BY,
/// each way of writing one once.
pub open spec fn windows_of_query(select: Select, query: Query) -> Result<
    Seq<Function>,
    ErrorView,
> {
    let items = windows_in_items(select.projection@);
    match query.order_by {
        Some(OrderBy::All) => Err(error::unsupported_error("ORDER BY ALL is not supported"@)),
        Some(OrderBy::Expressions(order)) => Ok(
            distinct_by_text(items + windows_in_order(order@)),
        ),
        None => Ok(distinct_by_text(items)),
    }
}

fn collect_windows_in_items<'a>(items: &'a Vec<SelectItem>, out: &mut Vec<&'a Function>)
    ensures
        calls(final(out)@) == calls(old(out)@) + windows_in_items(items@),
{
    let ghost before = calls(out@);
    let mut i: usize = 0;
    assert(windows_in_items(items@.take(0)) =~= Seq::<Function>::empty());
    assert(calls(out@) =~= before + windows_in_items(items@.take(0)));
    while i < items.len()
        invariant
            i <= items.len(),
            calls(out@) == before + windows_in_items(items@.take(i as int)),
        decreases items.len() - i,
    {
        match &items[i] {
            SelectItem::UnnamedExpr(expr) => {
                collect_window_functions(expr, out);
            },
            SelectItem::ExprWithAlias { expr, alias } => {
                collect_window_functions(expr, out);
            },
            _ => {},
        }
        assert(items@.take(i as int + 1).drop_last() =~= items@.take(i as int));
        assert(calls(out@) =~= before + windows_in_items(items@.take(i as int + 1)));
        i = i + 1;
    }
    assert(items@.take(items@.len() as int) =~= items@);
}

fn collect_windows_in_order<'a>(order: &'a Vec<OrderByExpr>, out: &mut Vec<&'a Function>)
    ensures
        calls(final(out)@) == calls(old(out)@) + windows_in_order(order@),
{
    let ghost before = calls(out@);
    let mut i: usize = 0;
    assert(windows_in_order(order@.take(0)) =~= Seq::<Function>::empty());
    assert(calls(out@) =~= before + windows_in_order(order@.take(0)));
    while i < order.len()
        invariant
            i <= order.len(),
            calls(out@) == before + windows_in_order(order@.take(i as int)),
        decreases order.len() - i,
    {
        collect_window_functions(&order[i].expr, out);
        assert(order@.take(i as int + 1).drop_last() =~= order@.take(i as int));
        assert(calls(out@) =~= before + windows_in_order(order@.take(i as int + 1)));
        i = i + 1;
    }
    assert(order@.take(order@.len() as int) =~= order@);
}

pub open spec fn calls_view(r: Result<Vec<&Function>, SqlError>) -> Result<
    Seq<Function>,
    ErrorView,
> {
    match r {
        Ok(v) => Ok(calls(v@)),
        Err(e) => Err(e@),
    }
}

/// The window functions of a query.
pub fn query_window_functions<'a>(select: &'a Select, query: &'a Query) -> (r: Result<
    Vec<&'a Function>,
    SqlError,
>)
    ensures
        calls_view(r) == windows_of_query(*select, *query),
{
    let mut out: Vec<&'a Function> = Vec::new();
    assert(calls(out@) =~= Seq::<Function>::empty());
    collect_windows_in_items(&select.projection, &mut out);
    assert(calls(out@) =~= windows_in_items(select.projection@));
    match &query.order_by {
        Some(OrderBy::Expressions(order)) => {
            collect_windows_in_order(order, &mut out);
        },
        Some(OrderBy::All) => {
            return Err(SqlError::unsupported("ORDER BY ALL is not supported".to_owned()));
        },
        None => {},
    }
    Ok(retain_distinct(out))
}

/// Whether a query calls window functions.
pub fn select_has_window_functions(select: &Select, query: &Query) -> (r: Result<bool, SqlError>)
    ensures
        match (r, windows_of_query(*select, *query)) {
            (Ok(b), Ok(fs)) => b == (fs.len() > 0),
            (Err(e), Err(v)) => e@ == v,
            _ => false,
        },
{
    match query_window_functions(select, query) {
        Ok(fs) => Ok(fs.len() > 0),
        Err(e) => Err(e),
    }
}

/// What a window is made of.
#[derive(Clone, Copy, Debug)]
pub struct ResolvedWindow<'a> {
    pub partition_by: &'a Vec<Expr>,
    pub order_by: &'a Vec<OrderByExpr>,
    pub window_frame: &'a Option<String>,
}

/// What a window is made of, with the clauses that it inherits.
#[verifier::ext_equal]
pub struct WindowView {
    pub partition_by: Seq<Expr>,
    pub order_by: Seq<OrderByExpr>,
    pub window_frame: Option<Seq<char>>,
}

pub open spec fn spec_view(spec: WindowSpec) -> WindowView {
    WindowView {
        partition_by: spec.partition_by@,
        order_by: spec.order_by@,
        window_frame: error::view_option(spec.window_frame),
    }
}

impl<'a> View for ResolvedWindow<'a> {
    type V = WindowView;

    open spec fn view(&self) -> WindowView {
        WindowView {
            partition_by: self.partition_by@,
            order_by: self.order_by@,
            window_frame: error::view_option(*self.window_frame),
        }
    }
}

/// The window that `overlay` adds up to on top of `base`: each clause comes from
/// one of them, and from neither twice.
pub open spec fn merged_window(base: WindowView, overlay: WindowView) -> Result<
    WindowView,
    ErrorView,
> {
    if base.partition_by.len() > 0 && overlay.partition_by.len() > 0 {
        Err(error::invalid_sql_error("cannot override PARTITION BY in an inherited window"@))
    } else if base.order_by.len() > 0 && overlay.order_by.len() > 0 {
        Err(error::invalid_sql_error("cannot override ORDER BY in an inherited window"@))
    } else if base.window_frame is Some && overlay.window_frame is Some {
        Err(error::invalid_sql_error("cannot override the frame clause of an inherited window"@))
    } else {
        Ok(
            WindowView {
                partition_by: if overlay.partition_by.len() > 0 {
                    overlay.partition_by
                } else {
                    base.partition_by
                },
                order_by: if overlay.order_by.len() > 0 {
                    overlay.order_by
                } else {
                    base.order_by
                },
                window_frame: if overlay.window_frame is Some {
                    overlay.window_frame
                } else {
                    base.window_frame
                },
            },
        )
    }
}

pub open spec fn window_result(r: Result<ResolvedWindow, SqlError>) -> Result<
    WindowView,
    ErrorView,
> {
    match r {
        Ok(w) => Ok(w@),
        Err(e) => Err(e@),
    }
}

/// The window that `overlay` adds up to on top of an inherited one.
pub fn merge_window_specs<'a>(base: ResolvedWindow<'a>, overlay: &'a WindowSpec) -> (r: Result<
    ResolvedWindow<'a>,
    SqlError,
>)
    ensures
        window_result(r) == merged_window(base@, spec_view(*overlay)),
{
    if base.partition_by.len() > 0 && overlay.partition_by.len() > 0 {
        return Err(
            SqlError::invalid_sql(
                "cannot override PARTITION BY in an inherited window".to_owned(),
            ),
        );
    }
    if base.order_by.len() > 0 && overlay.order_by.len() > 0 {
        return Err(
            SqlError::invalid_sql("cannot override ORDER BY in an inherited window".to_owned()),
        );
    }
    if base.window_frame.is_some() && overlay.window_frame.is_some() {
        return Err(
            SqlError::invalid_sql(
                "cannot override the frame clause of an inherited window".to_owned(),
            ),
        );
    }
    let merged = ResolvedWindow {
        partition_by: if overlay.partition_by.len() > 0 {
            &overlay.partition_by
        } else {
            base.partition_by
        },
        order_by: if overlay.order_by.len() > 0 {
            &overlay.order_by
        } else {
            base.order_by
        },
        window_frame: if overlay.window_frame.is_some() {
            &overlay.window_frame
        } else {
            base.window_frame
        },
    };
    Ok(merged)
}

/// The position of the first definition of a named window at or after `from`;
/// names are compared up to case.
pub open spec fn definition_index(
    defs: Seq<NamedWindowDefinition>,
    name: Seq<char>,
    from: int,
) -> Option<int>
    decreases defs.len() - from,
{
    if from < 0 || from >= defs.len() {
        None
    } else if text::same_ignoring_case(defs[from].name.value@, name) {
        Some(from)
    } else {
        definition_index(defs, name, from + 1)
    }
}

/// The number of definitions whose names are not on the path of names that are
/// being resolved.
pub open spec fn open_definitions(
    defs: Seq<NamedWindowDefinition>,
    visiting: Seq<Seq<char>>,
) -> nat
    decreases defs.len(),
{
    if defs.len() == 0 {
        0
    } else {
        open_definitions(defs.drop_last(), visiting) + if visiting.contains(
            text::lower(defs.last().name.value@),
        ) {
            0nat
        } else {
            1nat
        }
    }
}

pub proof fn lemma_definition_index(
    defs: Seq<NamedWindowDefinition>,
    name: Seq<char>,
    from: int,
)
    ensures
        definition_index(defs, name, from) matches Some(i) ==> from <= i < defs.len()
            && text::same_ignoring_case(defs[i].name.value@, name),
    decreases defs.len() - from,
{
    if from < 0 || from >= defs.len() {
    } else if text::same_ignoring_case(defs[from].name.value@, name) {
    } else {
        lemma_definition_index(defs, name, from + 1);
    }
}

proof fn lemma_open_monotone(
    defs: Seq<NamedWindowDefinition>,
    visiting: Seq<Seq<char>>,
    key: Seq<char>,
)
    ensures
        open_definitions(defs, visiting.push(key)) <= open_definitions(defs, visiting),
    decreases defs.len(),
{
    if defs.len() > 0 {
        lemma_open_monotone(defs.drop_last(), visiting, key);
        let k = text::lower(defs.last().name.value@);
        if visiting.contains(k) {
            let j = choose|j: int| 0 <= j < visiting.len() && visiting[j] == k;
            assert(visiting.push(key)[j] == k);
        }
    }
}

pub proof fn lemma_open_decreases(
    defs: Seq<NamedWindowDefinition>,
    visiting: Seq<Seq<char>>,
    key: Seq<char>,
    i: int,
)
    requires
        0 <= i < defs.len(),
        text::lower(defs[i].name.value@) == key,
        !visiting.contains(key),
    ensures
        open_definitions(defs, visiting.push(key)) < open_definitions(defs, visiting),
    decreases defs.len(),
{
    let rest = defs.drop_last();
    let k = text::lower(defs.last().name.value@);
    if i < rest.len() {
        lemma_open_decreases(rest, visiting, key, i);
        if visiting.contains(k) {
            let j = choose|j: int| 0 <= j < visiting.len() && visiting[j] == k;
            assert(visiting.push(key)[j] == k);
        }
    } else {
        lemma_open_monotone(rest, visiting, key);
        assert(visiting.push(key)[visiting.len() as int] == key);
    }
}

/// The window that a name stands for. `visiting` are the names on the way to
/// it, in lower case.
pub open spec fn named_window(
    name: Ident,
    defs: Seq<NamedWindowDefinition>,
    visiting: Seq<Seq<char>>,
) -> Result<WindowView, ErrorView>
    decreases open_definitions(defs, visiting), 0nat,
{
    let key = text::lower(name.value@);
    if visiting.contains(key) {
        Err(
            error::invalid_sql_error(
                "cyclic named window definition involving "@ + name.text@,
            ),
        )
    } else {
        match definition_index(defs, name.value@, 0) {
            None => Err(
                error::invalid_sql_error("window "@ + name.text@ + " does not exist"@),
            ),
            Some(i) => {
                proof {
                    lemma_definition_index(defs, name.value@, 0);
                    lemma_open_decreases(defs, visiting, key, i);
                }
                match defs[i].window {
                    NamedWindowExpr::WindowSpec(spec) => inline_window(
                        spec,
                        defs,
                        visiting.push(key),
                    ),
                    NamedWindowExpr::NamedWindow(parent) => named_window(
                        parent,
                        defs,
                        visiting.push(key),
                    ),
                }
            },
        }
    }
}

/// The window that a specification describes, on top of the one it names.
pub open spec fn inline_window(
    spec: WindowSpec,
    defs: Seq<NamedWindowDefinition>,
    visiting: Seq<Seq<char>>,
) -> Result<WindowView, ErrorView>
    decreases open_definitions(defs, visiting), 1nat,
{
    match spec.window_name {
        None => Ok(spec_view(spec)),
        Some(parent) => match named_window(parent, defs, visiting) {
            Ok(base) => merged_window(base, spec_view(spec)),
            Err(e) => Err(e),
        },
    }
}

/// The window that a call runs over.
pub open spec fn window_of_call(
    function: Function,
    defs: Seq<NamedWindowDefinition>,
) -> Result<WindowView, ErrorView> {
    match function.over {
        None => Err(error::invalid_sql_error("window function is missing OVER"@)),
        Some(WindowType::WindowSpec(spec)) => inline_window(spec, defs, Seq::empty()),
        Some(WindowType::NamedWindow(name)) => named_window(name, defs, Seq::empty()),
    }
}

fn key_listed(visiting: &Vec<String>, key: &str) -> (r: bool)
    ensures
        r == text::views(visiting@).contains(key@),
{
    let mut i: usize = 0;
    while i < visiting.len()
        invariant
            i <= visiting.len(),
            forall|k: int| 0 <= k < i ==> (#[trigger] visiting@[k])@ != key@,
        decreases visiting.len() - i,
    {
        if text::text_eq(visiting[i].as_str(), key) {
            assert(text::views(visiting@)[i as int] == key@);
            return true;
        }
        i = i + 1;
    }
    proof {
        if text::views(visiting@).contains(key@) {
            let k = choose|k: int|
                0 <= k < text::views(visiting@).len() && text::views(visiting@)[k] == key@;
            assert(visiting@[k]@ == key@);
        }
    }
    false
}

fn find_definition(defs: &Vec<NamedWindowDefinition>, name: &str) -> (r: Option<usize>)
    ensures
        match r {
            Some(i) => definition_index(defs@, name@, 0) == Some(i as int) && i < defs@.len(),
            None => definition_index(defs@, name@, 0) is None,
        },
{
    let mut i: usize = 0;
    while i < defs.len()
        invariant
            i <= defs.len(),
            definition_index(defs@, name@, 0) == definition_index(defs@, name@, i as int),
        decreases defs.len() - i,
    {
        if text::eq_ignore_case(defs[i].name.value.as_str(), name) {
            return Some(i);
        }
        i = i + 1;
    }
    None
}

/// The names on the way to a window after it has been resolved: the same, or after
/// an error with the name of a window that does not exist behind them.
pub open spec fn left_visiting(before: Seq<Seq<char>>, after: Seq<Seq<char>>, resolved: bool) -> bool {
    ||| after == before
    ||| !resolved && after.len() == before.len() + 1 && after.drop_last() == before
}

/// The window that a name stands for.
pub fn resolve_named_window_spec<'a>(
    name: &'a Ident,
    defs: &'a Vec<NamedWindowDefinition>,
    visiting: &mut Vec<String>,
) -> (r: Result<ResolvedWindow<'a>, SqlError>)
    ensures
        window_result(r) == named_window(*name, defs@, text::views(old(visiting)@)),
        left_visiting(
            text::views(old(visiting)@),
            text::views(final(visiting)@),
            r is Ok,
        ),
    decreases open_definitions(defs@, text::views(old(visiting)@)), 0nat,
{
    let key = text::to_lower(name.value.as_str());
    if key_listed(visiting, key.as_str()) {
        return Err(
            SqlError::invalid_sql(
                text::concat("cyclic named window definition involving ", name.text.as_str()),
            ),
        );
    }
    let ghost path = text::views(visiting@);
    let ghost key_view = key@;
    let at: usize = visiting.len();
    visiting.push(key);
    assert(text::views(visiting@) =~= path.push(key_view));
    assert(path.push(key_view).drop_last() =~= path);
    match find_definition(defs, name.value.as_str()) {
        None => Err(
            SqlError::invalid_sql(
                text::concat3("window ", name.text.as_str(), " does not exist"),
            ),
        ),
        Some(i) => {
            proof {
                lemma_definition_index(defs@, name.value@, 0);
                lemma_open_decreases(defs@, path, key_view, i as int);
            }
            let resolved = match &defs[i].window {
                NamedWindowExpr::WindowSpec(spec) => resolve_inline_window_spec(
                    spec,
                    defs,
                    visiting,
                ),
                NamedWindowExpr::NamedWindow(parent) => resolve_named_window_spec(
                    parent,
                    defs,
                    visiting,
                ),
            };
            let ghost left = text::views(visiting@);
            proof {
                if left != path.push(key_view) {
                    assert(left.drop_last() == path.push(key_view));
                }
                assert forall|k: int| 0 <= k < path.len() implies left[k] == path[k] by {
                    assert(path.push(key_view)[k] == path[k]);
                    if left != path.push(key_view) {
                        assert(left.drop_last()[k] == left[k]);
                    }
                }
            }
            visiting.remove(at);
            proof {
                assert(text::views(visiting@) =~= left.remove(at as int));
                if left == path.push(key_view) {
                    assert(text::views(visiting@) =~= path);
                } else {
                    assert(text::views(visiting@).drop_last() =~= path);
                }
            }
            resolved
        },
    }
}

/// The window that a specification describes, on top of the one it names.
pub fn resolve_inline_window_spec<'a>(
    spec: &'a WindowSpec,
    defs: &'a Vec<NamedWindowDefinition>,
    visiting: &mut Vec<String>,
) -> (r: Result<ResolvedWindow<'a>, SqlError>)
    ensures
        window_result(r) == inline_window(*spec, defs@, text::views(old(visiting)@)),
        left_visiting(
            text::views(old(visiting)@),
            text::views(final(visiting)@),
            r is Ok,
        ),
    decreases open_definitions(defs@, text::views(old(visiting)@)), 1nat,
{
    match &spec.window_name {
        None => Ok(
            ResolvedWindow {
                partition_by: &spec.partition_by,
                order_by: &spec.order_by,
                window_frame: &spec.window_frame,
            },
        ),
        Some(parent) => match resolve_named_window_spec(parent, defs, visiting) {
            Ok(base) => merge_window_specs(base, spec),
            Err(e) => Err(e),
        },
    }
}

/// The window that a call runs over.
pub fn resolve_window_spec<'a>(function: &'a Function, select: &'a Select) -> (r: Result<
    ResolvedWindow<'a>,
    SqlError,
>)
    ensures
        window_result(r) == window_of_call(*function, select.named_window@),
{
    let mut visiting: Vec<String> = Vec::new();
    assert(text::views(visiting@) =~= Seq::<Seq<char>>::empty());
    match &function.over {
        None => Err(SqlError::invalid_sql("window function is missing OVER".to_owned())),
        Some(WindowType::WindowSpec(spec)) => resolve_inline_window_spec(
            spec,
            &select.named_window,
            &mut visiting,
        ),
        Some(WindowType::NamedWindow(name)) => resolve_named_window_spec(
            name,
            &select.named_window,
            &mut visiting,
        ),
    }
}

/// The name of a function in lower case, without the catalog it may be
/// qualified with.
pub open spec fn plain_name(name: Seq<char>) -> Seq<char> {
    let n = text::lower(name);
    if text::starts_with(n, "pg_catalog."@) {
        n.skip("pg_catalog."@.len() as int)
    } else {
        n
    }
}

fn plain_function_name(name: &str) -> (r: String)
    ensures
        r@ == plain_name(name@),
{
    let n = text::to_lower(name);
    match text::without_prefix(n.as_str(), "pg_catalog.") {
        Some(rest) => rest,
        None => n,
    }
}

pub open spec fn is_rank_name(n: Seq<char>) -> bool {
    n == "row_number"@ || n == "rank"@ || n == "dense_rank"@ || n == "percent_rank"@ || n
        == "cume_dist"@
}

pub open spec fn is_offset_name(n: Seq<char>) -> bool {
    n == "lag"@ || n == "lead"@
}

pub open spec fn is_position_name(n: Seq<char>) -> bool {
    n == "first_value"@ || n == "last_value"@
}

/// The aggregates of one argument that run over a window.
pub open spec fn is_window_aggregate_name(n: Seq<char>) -> bool {
    n == "sum"@ || n == "avg"@ || n == "min"@ || n == "max"@ || n == "bool_and"@ || n == "bool_or"@
        || n == "every"@
}

/// The functions that run over a window.
pub open spec fn is_window_name(n: Seq<char>) -> bool {
    is_rank_name(n) || n == "ntile"@ || n == "count"@ || is_window_aggregate_name(n)
        || is_offset_name(n) || is_position_name(n) || n == "nth_value"@
}

/// The call passes as many arguments as the function takes.
pub open spec fn window_arguments_valid(n: Seq<char>, f: Function) -> bool {
    let count = f.args@.len();
    if is_rank_name(n) {
        count == 0
    } else if n == "ntile"@ || is_position_name(n) {
        count == 1
    } else if n == "nth_value"@ {
        count == 2
    } else if is_offset_name(n) {
        1 <= count <= 3
    } else if n == "count"@ {
        f.star || count == 1
    } else if is_window_aggregate_name(n) {
        count == 1
    } else {
        false
    }
}

/// Why a window function is refused, apart from its window.
pub open spec fn window_call_refusal(f: Function) -> Option<ErrorView> {
    let n = plain_name(f.name@);
    if !is_window_name(n) {
        Some(
            error::unsupported_error(
                "window function "@ + text::upper(n) + " is not supported"@,
            ),
        )
    } else if f.null_treatment && !(is_offset_name(n) || is_position_name(n) || n
        == "nth_value"@) {
        Some(error::invalid_sql_error("NULL treatment is not valid for "@ + text::upper(n)))
    } else if f.within_group@.len() > 0 {
        Some(
            error::unsupported_error("WITHIN GROUP is not supported for window functions"@),
        )
    } else if f.filter is Some && !(n == "count"@ || is_window_aggregate_name(n)) {
        Some(error::invalid_sql_error("FILTER is not valid for "@ + text::upper(n)))
    } else if !window_arguments_valid(n, f) {
        Some(
            error::invalid_sql_error(
                "invalid argument count for "@ + text::upper(n) + " window function"@,
            ),
        )
    } else {
        None
    }
}

/// Why a window function is refused.
pub open spec fn window_refusal(
    f: Function,
    defs: Seq<NamedWindowDefinition>,
) -> Option<ErrorView> {
    match window_call_refusal(f) {
        Some(e) => Some(e),
        None => match window_of_call(f, defs) {
            Ok(_) => None,
            Err(e) => Some(e),
        },
    }
}

fn rank_name(n: &str) -> (r: bool)
    ensures
        r == is_rank_name(n@),
{
    text::text_eq(n, "row_number") || text::text_eq(n, "rank") || text::text_eq(n, "dense_rank")
        || text::text_eq(n, "percent_rank") || text::text_eq(n, "cume_dist")
}

fn offset_name(n: &str) -> (r: bool)
    ensures
        r == is_offset_name(n@),
{
    text::text_eq(n, "lag") || text::text_eq(n, "lead")
}

fn position_name(n: &str) -> (r: bool)
    ensures
        r == is_position_name(n@),
{
    text::text_eq(n, "first_value") || text::text_eq(n, "last_value")
}

fn window_aggregate_name(n: &str) -> (r: bool)
    ensures
        r == is_window_aggregate_name(n@),
{
    text::text_eq(n, "sum") || text::text_eq(n, "avg") || text::text_eq(n, "min") || text::text_eq(
        n,
        "max",
    ) || text::text_eq(n, "bool_and") || text::text_eq(n, "bool_or") || text::text_eq(n, "every")
}

fn arguments_valid(n: &str, f: &Function) -> (r: bool)
    ensures
        r == window_arguments_valid(n@, *f),
{
    let count: usize = f.args.len();
    if rank_name(n) {
        count == 0
    } else if text::text_eq(n, "ntile") || position_name(n) {
        count == 1
    } else if text::text_eq(n, "nth_value") {
        count == 2
    } else if offset_name(n) {
        1 <= count && count <= 3
    } else if text::text_eq(n, "count") {
        f.star || count == 1
    } else if window_aggregate_name(n) {
        count == 1
    } else {
        false
    }
}

/// Refuses a window function that is not supported, is called the wrong way, or
/// whose window cannot be resolved.
pub fn validate_window_function(function: &Function, select: &Select) -> (r: Result<(), SqlError>)
    ensures
        match (r, window_refusal(*function, select.named_window@)) {
            (Ok(_), None) => true,
            (Err(e), Some(v)) => e@ == v,
            _ => false,
        },
{
    let name = plain_function_name(function.name.as_str());
    let n = name.as_str();
    let shown = text::to_upper(n);
    let is_count = text::text_eq(n, "count");
    let is_nth = text::text_eq(n, "nth_value");
    if !(rank_name(n) || text::text_eq(n, "ntile") || is_count || window_aggregate_name(n)
        || offset_name(n) || position_name(n) || is_nth) {
        return Err(
            SqlError::unsupported(
                text::concat3("window function ", shown.as_str(), " is not supported"),
            ),
        );
    }
    if function.null_treatment && !(offset_name(n) || position_name(n) || is_nth) {
        return Err(
            SqlError::invalid_sql(
                text::concat("NULL treatment is not valid for ", shown.as_str()),
            ),
        );
    }
    if function.within_group.len() > 0 {
        return Err(
            SqlError::unsupported(
                "WITHIN GROUP is not supported for window functions".to_owned(),
            ),
        );
    }
    if function.filter.is_some() && !(is_count || window_aggregate_name(n)) {
        return Err(
            SqlError::invalid_sql(text::concat("FILTER is not valid for ", shown.as_str())),
        );
    }
    if !arguments_valid(n, function) {
        return Err(
            SqlError::invalid_sql(
                text::concat3("invalid argument count for ", shown.as_str(), " window function"),
            ),
        );
    }
    match resolve_window_spec(function, select) {
        Ok(_) => Ok(()),
        Err(e) => Err(e),
    }
}

/// Why the first call at or after `from` that is refused is refused.
pub open spec fn first_window_refusal(
    fs: Seq<Function>,
    defs: Seq<NamedWindowDefinition>,
    from: int,
) -> Option<ErrorView>
    decreases fs.len() - from,
{
    if from < 0 || from >= fs.len() {
        None
    } else {
        match window_refusal(fs[from], defs) {
            Some(e) => Some(e),
            None => first_window_refusal(fs, defs, from + 1),
        }
    }
}

/// Refuses a query with a window function that cannot run.
pub fn validate_window_functions(select: &Select, query: &Query) -> (r: Result<(), SqlError>)
    ensures
        match windows_of_query(*select, *query) {
            Err(v) => r matches Err(e) && e@ == v,
            Ok(fs) => match (r, first_window_refusal(fs, select.named_window@, 0)) {
                (Ok(_), None) => true,
                (Err(e), Some(v)) => e@ == v,
                _ => false,
            },
        },
{
    let functions = match query_window_functions(select, query) {
        Ok(fs) => fs,
        Err(e) => {
            return Err(e);
        },
    };
    let ghost all = calls(functions@);
    let mut i: usize = 0;
    while i < functions.len()
        invariant
            i <= functions.len(),
            all == calls(functions@),
            windows_of_query(*select, *query) == Ok::<Seq<Function>, ErrorView>(all),
            first_window_refusal(all, select.named_window@, 0) == first_window_refusal(
                all,
                select.named_window@,
                i as int,
            ),
        decreases functions.len() - i,
    {
        assert(all[i as int] == *functions@[i as int]);
        match validate_window_function(functions[i], select) {
            Ok(_) => {},
            Err(e) => {
                return Err(e);
            },
        }
        i = i + 1;
    }
    Ok(())
}

pub open spec fn aggregates_in_items(items: Seq<SelectItem>) -> Seq<Function>
    decreases items.len(),
{
    if items.len() == 0 {
        Seq::empty()
    } else {
        aggregates_in_items(items.drop_last()) + match items.last() {
            SelectItem::UnnamedExpr(expr) => group_aggregate_functions(expr),
            SelectItem::ExprWithAlias { expr, alias } => group_aggregate_functions(expr),
            _ => Seq::empty(),
        }
    }
}

pub open spec fn aggregates_in_order(order: Seq<OrderByExpr>) -> Seq<Function>
    decreases order.len(),
{
    if order.len() == 0 {
        Seq::empty()
    } else {
        aggregates_in_order(order.drop_last()) + group_aggregate_functions(order.last().expr)
    }
}

/// The aggregate calls in the partitioning and the ordering of the windows of
/// the first `n` calls; or the first error on the way.
pub open spec fn aggregates_in_windows(
    fs: Seq<Function>,
    defs: Seq<NamedWindowDefinition>,
    n: int,
) -> Result<Seq<Function>, ErrorView>
    decreases n,
{
    if n <= 0 {
        Ok(Seq::empty())
    } else {
        match aggregates_in_windows(fs, defs, n - 1) {
            Err(e) => Err(e),
            Ok(found) => match window_of_call(fs[n - 1], defs) {
                Err(e) => Err(e),
                Ok(w) => Ok(
                    found + aggregates_in_args(w.partition_by) + aggregates_in_order(w.order_by),
                ),
            },
        }
    }
}

/// The aggregate calls of a grouped query: those of its projection, its HAVING
/// condition, its ORDER BY and the windows of its window functions, each way of
/// writing one once.
pub open spec fn aggregates_of_query(select: Select, query: Query) -> Result<
    Seq<Function>,
    ErrorView,
> {
    let direct = aggregates_in_items(select.projection@) + (match select.having {
        Some(having) => group_aggregate_functions(having),
        None => Seq::empty(),
    }) + (match query.order_by {
        Some(OrderBy::Expressions(order)) => aggregates_in_order(order@),
        _ => Seq::empty(),
    });
    match windows_of_query(select, query) {
        Err(e) => Err(e),
        Ok(fs) => match aggregates_in_windows(fs, select.named_window@, fs.len() as int) {
            Err(e) => Err(e),
            Ok(found) => Ok(distinct_by_text(direct + found)),
        },
    }
}

fn collect_aggregates_in_items<'a>(items: &'a Vec<SelectItem>, out: &mut Vec<&'a Function>)
    ensures
        calls(final(out)@) == calls(old(out)@) + aggregates_in_items(items@),
{
    let ghost before = calls(out@);
    let mut i: usize = 0;
    assert(aggregates_in_items(items@.take(0)) =~= Seq::<Function>::empty());
    assert(calls(out@) =~= before + aggregates_in_items(items@.take(0)));
    while i < items.len()
        invariant
            i <= items.len(),
            calls(out@) == before + aggregates_in_items(items@.take(i as int)),
        decreases items.len() - i,
    {
        match &items[i] {
            SelectItem::UnnamedExpr(expr) => {
                collect_group_aggregate_functions(expr, out);
            },
            SelectItem::ExprWithAlias { expr, alias } => {
                collect_group_aggregate_functions(expr, out);
            },
            _ => {},
        }
        assert(items@.take(i as int + 1).drop_last() =~= items@.take(i as int));
        assert(calls(out@) =~= before + aggregates_in_items(items@.take(i as int + 1)));
        i = i + 1;
    }
    assert(items@.take(items@.len() as int) =~= items@);
}

fn collect_aggregates_in_order<'a>(order: &'a Vec<OrderByExpr>, out: &mut Vec<&'a Function>)
    ensures
        calls(final(out)@) == calls(old(out)@) + aggregates_in_order(order@),
{
    let ghost before = calls(out@);
    let mut i: usize = 0;
    assert(aggregates_in_order(order@.take(0)) =~= Seq::<Function>::empty());
    assert(calls(out@) =~= before + aggregates_in_order(order@.take(0)));
    while i < order.len()
        invariant
            i <= order.len(),
            calls(out@) == before + aggregates_in_order(order@.take(i as int)),
        decreases order.len() - i,
    {
        collect_group_aggregate_functions(&order[i].expr, out);
        assert(order@.take(i as int + 1).drop_last() =~= order@.take(i as int));
        assert(calls(out@) =~= before + aggregates_in_order(order@.take(i as int + 1)));
        i = i + 1;
    }
    assert(order@.take(order@.len() as int) =~= order@);
}

proof fn lemma_window_aggregates_error(
    fs: Seq<Function>,
    defs: Seq<NamedWindowDefinition>,
    i: int,
    n: int,
)
    requires
        0 <= i <= n,
        aggregates_in_windows(fs, defs, i) is Err,
    ensures
        aggregates_in_windows(fs, defs, n) == aggregates_in_windows(fs, defs, i),
    decreases n - i,
{
    if i < n {
        lemma_window_aggregates_error(fs, defs, i, n - 1);
    }
}

/// The aggregate calls of a grouped query.
pub fn query_group_aggregate_functions<'a>(select: &'a Select, query: &'a Query) -> (r: Result<
    Vec<&'a Function>,
    SqlError,
>)
    ensures
        calls_view(r) == aggregates_of_query(*select, *query),
{
    let mut out: Vec<&'a Function> = Vec::new();
    assert(calls(out@) =~= Seq::<Function>::empty());
    collect_aggregates_in_items(&select.projection, &mut out);
    assert(calls(out@) =~= aggregates_in_items(select.projection@));
    match &select.having {
        Some(having) => {
            collect_group_aggregate_functions(having, &mut out);
        },
        None => {
            assert(calls(out@) =~= calls(out@) + Seq::<Function>::empty());
        },
    }
    match &query.order_by {
        Some(OrderBy::Expressions(order)) => {
            collect_aggregates_in_order(order, &mut out);
        },
        _ => {
            assert(calls(out@) =~= calls(out@) + Seq::<Function>::empty());
        },
    }
    let ghost direct = calls(out@);
    let windows = match query_window_functions(select, query) {
        Ok(fs) => fs,
        Err(e) => {
            return Err(e);
        },
    };
    let ghost fs = calls(windows@);
    let mut i: usize = 0;
    assert(calls(out@) =~= direct + Seq::<Function>::empty());
    while i < windows.len()
        invariant
            i <= windows.len(),
            fs == calls(windows@),
            windows_of_query(*select, *query) == Ok::<Seq<Function>, ErrorView>(fs),
            aggregates_in_windows(fs, select.named_window@, i as int) matches Ok(found) && calls(
                out@,
            ) == direct + found,
        decreases windows.len() - i,
    {
        let ghost found = aggregates_in_windows(fs, select.named_window@, i as int)->Ok_0;
        assert(fs[i as int] == *windows@[i as int]);
        match resolve_window_spec(windows[i], select) {
            Ok(w) => {
                collect_aggregates_in_args(w.partition_by, &mut out);
                collect_aggregates_in_order(w.order_by, &mut out);
                assert(calls(out@) =~= direct + (found + aggregates_in_args(w.partition_by@)
                    + aggregates_in_order(w.order_by@)));
            },
            Err(e) => {
                proof {
                    lemma_window_aggregates_error(
                        fs,
                        select.named_window@,
                        i as int + 1,
                        fs.len() as int,
                    );
                }
                return Err(e);
            },
        }
        i = i + 1;
    }
    Ok(retain_distinct(out))
}

/// The expressions that a query groups by.
pub open spec fn grouping(group_by: GroupByExpr) -> Result<Seq<Expr>, ErrorView> {
    match group_by {
        GroupByExpr::Expressions(exprs, modifiers) => if modifiers > 0 {
            Err(error::unsupported_error("GROUP BY modifiers are not supported"@))
        } else {
            Ok(exprs@)
        },
        GroupByExpr::All(modifiers) => if modifiers == 0 {
            Err(error::unsupported_error("GROUP BY ALL is not supported"@))
        } else {
            Err(error::unsupported_error("GROUP BY ALL modifiers are not supported"@))
        },
    }
}

/// The expressions that a query groups by.
pub fn group_by_exprs(select: &Select) -> (r: Result<&Vec<Expr>, SqlError>)
    ensures
        match (r, grouping(select.group_by)) {
            (Ok(exprs), Ok(v)) => exprs@ == v,
            (Err(e), Err(v)) => e@ == v,
            _ => false,
        },
{
    match &select.group_by {
        GroupByExpr::Expressions(exprs, modifiers) => {
            if *modifiers > 0 {
                return Err(
                    SqlError::unsupported("GROUP BY modifiers are not supported".to_owned()),
                );
            }
            Ok(exprs)
        },
        GroupByExpr::All(modifiers) => {
            if *modifiers == 0 {
                Err(SqlError::unsupported("GROUP BY ALL is not supported".to_owned()))
            } else {
                Err(SqlError::unsupported("GROUP BY ALL modifiers are not supported".to_owned()))
            }
        },
    }
}

/// Whether a query groups its rows.
pub fn has_group_by(select: &Select) -> (r: Result<bool, SqlError>)
    ensures
        match (r, grouping(select.group_by)) {
            (Ok(b), Ok(v)) => b == (v.len() > 0),
            (Err(e), Err(v)) => e@ == v,
            _ => false,
        },
{
    match group_by_exprs(select) {
        Ok(exprs) => Ok(exprs.len() > 0),
        Err(e) => Err(e),
    }
}

/// The expression of a projection item of a grouped query, with its alias.
pub fn select_item_expr_and_alias(item: &SelectItem) -> (r: Result<
    (&Expr, Option<String>),
    SqlError,
>)
    ensures
        match item {
            SelectItem::UnnamedExpr(expr) => r matches Ok(p) && *p.0 == *expr && p.1 is None,
            SelectItem::ExprWithAlias { expr, alias } => r matches Ok(p) && *p.0 == *expr
                && error::view_option(p.1) == Some(alias.value@),
            SelectItem::Wildcard(written) => r matches Err(e) && e@ == error::unsupported_error(
                "unsupported grouped projection "@ + written@,
            ),
            SelectItem::QualifiedWildcard(written) => r matches Err(e) && e@
                == error::unsupported_error("unsupported grouped projection "@ + written@),
            SelectItem::Other(written) => r matches Err(e) && e@ == error::unsupported_error(
                "unsupported grouped projection "@ + written@,
            ),
        },
{
    match item {
        SelectItem::UnnamedExpr(expr) => Ok((expr, None)),
        SelectItem::ExprWithAlias { expr, alias } => Ok((expr, Some(alias.value.clone()))),
        SelectItem::Wildcard(written) => Err(
            SqlError::unsupported(
                text::concat("unsupported grouped projection ", written.as_str()),
            ),
        ),
        SelectItem::QualifiedWildcard(written) => Err(
            SqlError::unsupported(
                text::concat("unsupported grouped projection ", written.as_str()),
            ),
        ),
        SelectItem::Other(written) => Err(
            SqlError::unsupported(
                text::concat("unsupported grouped projection ", written.as_str()),
            ),
        ),
    }
}

/// The expression of the first projection item at or after `from` with that
/// alias.
pub open spec fn aliased_expr(
    projection: Seq<SelectItem>,
    name: Seq<char>,
    from: int,
) -> Option<Expr>
    decreases projection.len() - from,
{
    if from < 0 || from >= projection.len() {
        None
    } else {
        match projection[from] {
            SelectItem::ExprWithAlias { expr, alias } => if text::same_ignoring_case(
                alias.value@,
                name,
            ) {
                Some(expr)
            } else {
                aliased_expr(projection, name, from + 1)
            },
            _ => aliased_expr(projection, name, from + 1),
        }
    }
}

/// The expression that an ORDER BY item orders by: a bare identifier that is an
/// alias of the projection stands for the expression it names.
pub open spec fn ordered_expr(order: OrderByExpr, projection: Seq<SelectItem>) -> Expr {
    if order.expr.kind == ExprKind::Identifier && order.expr.names@.len() > 0 {
        match aliased_expr(projection, order.expr.names@[0]@, 0) {
            Some(expr) => expr,
            None => order.expr,
        }
    } else {
        order.expr
    }
}

fn find_aliased<'a>(projection: &'a Vec<SelectItem>, name: &str) -> (r: Option<&'a Expr>)
    ensures
        match r {
            Some(expr) => aliased_expr(projection@, name@, 0) == Some(*expr),
            None => aliased_expr(projection@, name@, 0) is None,
        },
{
    let mut i: usize = 0;
    while i < projection.len()
        invariant
            i <= projection.len(),
            aliased_expr(projection@, name@, 0) == aliased_expr(projection@, name@, i as int),
        decreases projection.len() - i,
    {
        match &projection[i] {
            SelectItem::ExprWithAlias { expr, alias } => {
                if text::eq_ignore_case(alias.value.as_str(), name) {
                    return Some(expr);
                }
            },
            _ => {},
        }
        i = i + 1;
    }
    None
}

/// The expressions that an ORDER BY orders by, with the aliases of the
/// projection resolved.
pub fn resolve_order_by_projection_aliases<'a>(
    order: &'a Vec<OrderByExpr>,
    projection: &'a Vec<SelectItem>,
) -> (r: Vec<&'a Expr>)
    ensures
        r@.len() == order@.len(),
        forall|i: int|
            0 <= i < order@.len() ==> *(#[trigger] r@[i]) == ordered_expr(
                order@[i],
                projection@,
            ),
{
    let mut out: Vec<&'a Expr> = Vec::new();
    let mut i: usize = 0;
    while i < order.len()
        invariant
            i <= order.len(),
            out@.len() == i,
            forall|k: int|
                0 <= k < i ==> *(#[trigger] out@[k]) == ordered_expr(order@[k], projection@),
        decreases order.len() - i,
    {
        let expr = &order[i].expr;
        let mut resolved: &'a Expr = expr;
        if expr.kind == ExprKind::Identifier && expr.names.len() > 0 {
            match find_aliased(projection, expr.names[0].as_str()) {
                Some(found) => {
                    resolved = found;
                },
                None => {},
            }
        }
        out.push(resolved);
        i = i + 1;
    }
    out
}

} // verus!
