//! What windows and the search for window functions and aggregates keep, stated
//! of their clauses and of the places that are searched.
use vstd::prelude::*;
use crate::ast::{Expr, ExprKind, Function, Ident, NamedWindowDefinition, NamedWindowExpr, OrderBy,
    OrderByExpr, Query, Role, Select, SelectItem, WindowSpec, WindowType};
use crate::error::ErrorView;
use crate::text;
use crate::windows;
use crate::windows::{WindowView, aggregates_in_args, aggregates_in_operands, definition_index,
    group_aggregate_functions, inline_window, merged_window, named_window, spec_view,
    window_functions, window_of_call, windows_in_args, windows_in_items, windows_in_operands,
    windows_in_order, windows_of_query};

verus! {

/// Two windows have a clause in common.
pub open spec fn clash(a: WindowView, b: WindowView) -> bool {
    ||| a.partition_by.len() > 0 && b.partition_by.len() > 0
    ||| a.order_by.len() > 0 && b.order_by.len() > 0
    ||| a.window_frame is Some && b.window_frame is Some
}

/// A window has each clause that another has.
pub open spec fn keeps_clauses(w: WindowView, of: WindowView) -> bool {
    &&& of.partition_by.len() > 0 ==> w.partition_by == of.partition_by
    &&& of.order_by.len() > 0 ==> w.order_by == of.order_by
    &&& of.window_frame is Some ==> w.window_frame == of.window_frame
}

/// A window has no clause that neither of two others has.
pub open spec fn adds_no_clause(w: WindowView, a: WindowView, b: WindowView) -> bool {
    &&& w.partition_by.len() > 0 ==> a.partition_by.len() > 0 || b.partition_by.len() > 0
    &&& w.order_by.len() > 0 ==> a.order_by.len() > 0 || b.order_by.len() > 0
    &&& w.window_frame is Some ==> a.window_frame is Some || b.window_frame is Some
}

/// A window specification without clauses of its own.
pub open spec fn is_bare(spec: WindowSpec) -> bool {
    spec.partition_by@.len() == 0 && spec.order_by@.len() == 0 && spec.window_frame is None
}

/// Two windows combine exactly where no clause is given twice, and the
/// combination has every clause of each of them and no other: what the
/// inherited window has and the other does not is kept. It does not matter
/// which of them is the inherited one.
pub proof fn law_merged_clauses(base: WindowView, overlay: WindowView)
    ensures
        merged_window(base, overlay) is Ok <==> !clash(base, overlay),
        merged_window(base, overlay) matches Ok(w) ==> {
            &&& keeps_clauses(w, base)
            &&& keeps_clauses(w, overlay)
            &&& adds_no_clause(w, base, overlay)
            &&& merged_window(overlay, base) matches Ok(v) && keeps_clauses(v, w)
                && keeps_clauses(w, v)
        },
{
}

/// A window specification that names a window resolves exactly where that window
/// does and no clause is given twice. The result partitions by what the named
/// window partitions by unless the specification has a PARTITION BY of its own,
/// and likewise for ORDER BY and the frame.
pub proof fn law_inherited_clauses(
    spec: WindowSpec,
    parent: Ident,
    defs: Seq<NamedWindowDefinition>,
    visiting: Seq<Seq<char>>,
)
    requires
        spec.window_name == Some(parent),
    ensures
        match named_window(parent, defs, visiting) {
            Err(e) => inline_window(spec, defs, visiting) == Err::<WindowView, ErrorView>(e),
            Ok(base) => match inline_window(spec, defs, visiting) {
                Ok(w) => {
                    &&& !clash(base, spec_view(spec))
                    &&& spec.partition_by@.len() == 0 ==> w.partition_by == base.partition_by
                    &&& spec.order_by@.len() == 0 ==> w.order_by == base.order_by
                    &&& spec.window_frame is None ==> w.window_frame == base.window_frame
                    &&& spec.partition_by@.len() > 0 ==> w.partition_by == spec.partition_by@
                    &&& spec.order_by@.len() > 0 ==> w.order_by == spec.order_by@
                    &&& spec.window_frame matches Some(frame) ==> w.window_frame == Some(frame@)
                },
                Err(_) => clash(base, spec_view(spec)),
            },
        },
{
}

/// `OVER (w)` runs over the same window as `OVER w`, and fails as it does.
pub proof fn law_over_name(
    bare: Function,
    named: Function,
    spec: WindowSpec,
    name: Ident,
    defs: Seq<NamedWindowDefinition>,
)
    requires
        bare.over == Some(WindowType::WindowSpec(spec)),
        named.over == Some(WindowType::NamedWindow(name)),
        spec.window_name == Some(name),
        is_bare(spec),
    ensures
        window_of_call(bare, defs) == window_of_call(named, defs),
{
    if let Ok(base) = named_window(name, defs, Seq::empty()) {
        let w = merged_window(base, spec_view(spec))->Ok_0;
        assert(w =~= base);
    }
}

/// A call over a specification that names no window runs over the clauses that
/// are written in it, whatever windows are defined; a call without OVER runs
/// over none.
pub proof fn law_own_clauses(
    call: Function,
    defs: Seq<NamedWindowDefinition>,
)
    ensures
        call.over is None ==> window_of_call(call, defs) is Err,
        match call.over {
            Some(WindowType::WindowSpec(spec)) => spec.window_name is None ==> (
            match window_of_call(call, defs) {
                Ok(w) => w.partition_by == spec.partition_by@ && w.order_by == spec.order_by@ && (
                match spec.window_frame {
                    Some(frame) => w.window_frame == Some(frame@),
                    None => w.window_frame is None,
                }),
                Err(_) => false,
            }),
            _ => true,
        },
{
}

/// The first definition of a name.
pub open spec fn first_definition(
    defs: Seq<NamedWindowDefinition>,
    name: Seq<char>,
    i: int,
) -> bool {
    &&& 0 <= i < defs.len()
    &&& text::lower(defs[i].name.value@) == text::lower(name)
    &&& forall|k: int|
        0 <= k < i ==> text::lower((#[trigger] defs[k]).name.value@) != text::lower(name)
}

proof fn lemma_first_definition(defs: Seq<NamedWindowDefinition>, name: Seq<char>, from: int, i: int)
    requires
        0 <= from <= i,
        first_definition(defs, name, i),
    ensures
        definition_index(defs, name, from) == Some(i),
    decreases i - from,
{
    if from < i {
        lemma_first_definition(defs, name, from + 1, i);
    }
}

proof fn lemma_no_definition(defs: Seq<NamedWindowDefinition>, name: Seq<char>, from: int)
    requires
        forall|k: int|
            0 <= k < defs.len() ==> text::lower((#[trigger] defs[k]).name.value@) != text::lower(
                name,
            ),
    ensures
        definition_index(defs, name, from) is None,
    decreases defs.len() - from,
{
    if 0 <= from < defs.len() {
        lemma_no_definition(defs, name, from + 1);
    }
}

/// Fewer names on the way change nothing where the window resolves.
proof fn lemma_fewer_names(
    name: Ident,
    defs: Seq<NamedWindowDefinition>,
    more: Seq<Seq<char>>,
    fewer: Seq<Seq<char>>,
)
    requires
        forall|k: Seq<char>| #[trigger] fewer.contains(k) ==> more.contains(k),
        named_window(name, defs, more) is Ok,
    ensures
        named_window(name, defs, fewer) == named_window(name, defs, more),
    decreases windows::open_definitions(defs, more),
{
    reveal_with_fuel(named_window, 2);
    reveal_with_fuel(inline_window, 2);
    let key = text::lower(name.value@);
    windows::lemma_definition_index(defs, name.value@, 0);
    assert(!more.contains(key));
    assert(!fewer.contains(key));
    let i = definition_index(defs, name.value@, 0)->0;
    windows::lemma_open_decreases(defs, more, key, i);
    assert forall|k: Seq<char>| #[trigger]
        fewer.push(key).contains(k) implies more.push(key).contains(k) by {
        if k == key {
            assert(more.push(key)[more.len() as int] == key);
        } else {
            let j = choose|j: int| 0 <= j < fewer.push(key).len() && fewer.push(key)[j] == k;
            assert(fewer[j] == k);
            assert(fewer.contains(k));
            let m = choose|m: int| 0 <= m < more.len() && more[m] == k;
            assert(more.push(key)[m] == k);
        }
    }
    match defs[i].window {
        NamedWindowExpr::WindowSpec(spec) => {
            if let Some(parent) = spec.window_name {
                lemma_fewer_names(parent, defs, more.push(key), fewer.push(key));
            }
        },
        NamedWindowExpr::NamedWindow(parent) => {
            lemma_fewer_names(parent, defs, more.push(key), fewer.push(key));
        },
    }
}

/// A name stands for its first definition, whatever the case of its letters: a
/// name without one stands for no window; one that is defined by clauses alone
/// stands for these; one that is defined by another name stands for what that
/// one stands for, and never for itself.
pub proof fn law_named_window(name: Ident, defs: Seq<NamedWindowDefinition>, i: int)
    ensures
        (forall|k: int|
            0 <= k < defs.len() ==> text::lower((#[trigger] defs[k]).name.value@) != text::lower(
                name.value@,
            )) ==> named_window(name, defs, Seq::empty()) is Err,
        first_definition(defs, name.value@, i) ==> match defs[i].window {
            NamedWindowExpr::WindowSpec(spec) => match spec.window_name {
                None => named_window(name, defs, Seq::empty()) == Ok::<WindowView, ErrorView>(
                    spec_view(spec),
                ),
                Some(parent) => match named_window(name, defs, Seq::empty()) {
                    Ok(w) => named_window(parent, defs, Seq::empty()) matches Ok(base)
                        && keeps_clauses(w, base) && keeps_clauses(w, spec_view(spec))
                        && adds_no_clause(w, base, spec_view(spec)),
                    Err(_) => true,
                },
            },
            NamedWindowExpr::NamedWindow(parent) => match named_window(
                name,
                defs,
                Seq::empty(),
            ) {
                Ok(w) => named_window(parent, defs, Seq::empty()) == Ok::<WindowView, ErrorView>(w)
                    && text::lower(parent.value@) != text::lower(name.value@),
                Err(_) => true,
            },
        },
{
    reveal_with_fuel(named_window, 2);
    reveal_with_fuel(inline_window, 2);
    let none = Seq::<Seq<char>>::empty();
    if forall|k: int|
        0 <= k < defs.len() ==> text::lower((#[trigger] defs[k]).name.value@) != text::lower(
            name.value@,
        ) {
        lemma_no_definition(defs, name.value@, 0);
    }
    if first_definition(defs, name.value@, i) {
        lemma_first_definition(defs, name.value@, 0, i);
        let key = text::lower(name.value@);
        assert(none.push(key)[0] == key);
        assert(none.push(key).contains(key));
        match defs[i].window {
            NamedWindowExpr::WindowSpec(spec) => {
                if let Some(parent) = spec.window_name {
                    if named_window(name, defs, none) is Ok {
                        lemma_fewer_names(parent, defs, none.push(key), none);
                    }
                }
            },
            NamedWindowExpr::NamedWindow(parent) => {
                if named_window(name, defs, none) is Ok {
                    lemma_fewer_names(parent, defs, none.push(key), none);
                }
            },
        }
    }
}

/// A name and the same name in other letters stand for the same window.
pub proof fn law_name_in_any_case(
    a: Ident,
    b: Ident,
    defs: Seq<NamedWindowDefinition>,
    visiting: Seq<Seq<char>>,
)
    requires
        text::lower(a.value@) == text::lower(b.value@),
    ensures
        named_window(a, defs, visiting) is Ok <==> named_window(b, defs, visiting) is Ok,
        named_window(a, defs, visiting) is Ok ==> named_window(a, defs, visiting) == named_window(
            b,
            defs,
            visiting,
        ),
{
    lemma_same_index(defs, a.value@, b.value@, 0);
}

proof fn lemma_same_index(defs: Seq<NamedWindowDefinition>, a: Seq<char>, b: Seq<char>, from: int)
    requires
        text::lower(a) == text::lower(b),
    ensures
        definition_index(defs, a, from) == definition_index(defs, b, from),
    decreases defs.len() - from,
{
    if 0 <= from < defs.len() {
        lemma_same_index(defs, a, b, from + 1);
    }
}

/// The kinds of expressions in whose operands no window function stands: names,
/// literals, queries of their own, and the few forms that take none.
pub open spec fn hides_windows(kind: ExprKind) -> bool {
    match kind {
        ExprKind::Identifier | ExprKind::CompoundIdentifier | ExprKind::IsNormalized
        | ExprKind::Value | ExprKind::TypedString | ExprKind::Function | ExprKind::Exists
        | ExprKind::Subquery | ExprKind::Dictionary | ExprKind::MapLiteral
        | ExprKind::MatchAgainst | ExprKind::Wildcard | ExprKind::QualifiedWildcard
        | ExprKind::MemberOf => true,
        _ => false,
    }
}

/// The kinds of expressions in whose operands no aggregate of a group stands.
pub open spec fn hides_aggregates(kind: ExprKind) -> bool {
    hides_windows(kind) || match kind {
        ExprKind::JsonAccess | ExprKind::InSubquery | ExprKind::InUnnest | ExprKind::Convert
        | ExprKind::Ceil | ExprKind::Floor | ExprKind::Substring | ExprKind::Trim
        | ExprKind::Overlay | ExprKind::Prefixed | ExprKind::GroupingSets | ExprKind::Cube
        | ExprKind::Rollup | ExprKind::Named | ExprKind::OuterJoin | ExprKind::Prior
        | ExprKind::Lambda => true,
        _ => false,
    }
}

proof fn lemma_windows_in_args(args: Seq<Expr>, f: Function)
    ensures
        windows_in_args(args).contains(f) <==> exists|i: int|
            0 <= i < args.len() && #[trigger] window_functions(args[i]).contains(f),
    decreases args.len(),
{
    if args.len() > 0 {
        let rest = args.drop_last();
        lemma_windows_in_args(rest, f);
        lemma_contains_sum(windows_in_args(rest), window_functions(args.last()), f);
        if windows_in_args(args).contains(f) {
            if windows_in_args(rest).contains(f) {
                let i = choose|i: int|
                    0 <= i < rest.len() && #[trigger] window_functions(rest[i]).contains(f);
                assert(window_functions(args[i]).contains(f));
            } else {
                assert(window_functions(args[args.len() - 1]).contains(f));
            }
        }
        if exists|i: int| 0 <= i < args.len() && #[trigger] window_functions(args[i]).contains(f) {
            let i = choose|i: int|
                0 <= i < args.len() && #[trigger] window_functions(args[i]).contains(f);
            if i < rest.len() {
                assert(window_functions(rest[i]).contains(f));
            }
        }
    }
}

proof fn lemma_aggregates_in_args(args: Seq<Expr>, f: Function)
    ensures
        aggregates_in_args(args).contains(f) <==> exists|i: int|
            0 <= i < args.len() && #[trigger] group_aggregate_functions(args[i]).contains(f),
    decreases args.len(),
{
    if args.len() > 0 {
        let rest = args.drop_last();
        lemma_aggregates_in_args(rest, f);
        lemma_contains_sum(aggregates_in_args(rest), group_aggregate_functions(args.last()), f);
        if aggregates_in_args(args).contains(f) {
            if aggregates_in_args(rest).contains(f) {
                let i = choose|i: int|
                    0 <= i < rest.len() && #[trigger] group_aggregate_functions(rest[i]).contains(
                        f,
                    );
                assert(group_aggregate_functions(args[i]).contains(f));
            } else {
                assert(group_aggregate_functions(args[args.len() - 1]).contains(f));
            }
        }
        if exists|i: int|
            0 <= i < args.len() && #[trigger] group_aggregate_functions(args[i]).contains(f) {
            let i = choose|i: int|
                0 <= i < args.len() && #[trigger] group_aggregate_functions(args[i]).contains(f);
            if i < rest.len() {
                assert(group_aggregate_functions(rest[i]).contains(f));
            }
        }
    }
}

proof fn lemma_contains_sum(a: Seq<Function>, b: Seq<Function>, f: Function)
    ensures
        (a + b).contains(f) <==> a.contains(f) || b.contains(f),
{
    if a.contains(f) {
        let i = choose|i: int| 0 <= i < a.len() && a[i] == f;
        assert((a + b)[i] == f);
    }
    if b.contains(f) {
        let i = choose|i: int| 0 <= i < b.len() && b[i] == f;
        assert((a + b)[a.len() + i] == f);
    }
    if (a + b).contains(f) {
        let i = choose|i: int| 0 <= i < (a + b).len() && (a + b)[i] == f;
        if i < a.len() {
            assert(a[i] == f);
        } else {
            assert(b[i - a.len()] == f);
        }
    }
}

/// A part of an operator's operands that is looked into for window functions.
pub open spec fn shows_windows(e: Expr, i: int) -> bool {
    0 <= i < e.operands@.len() && !hides_windows(e.kind) && e.operands@[i].role
        != Role::UnnestArray
}

/// A part of an operator's operands that is looked into for aggregates: not a
/// subscript, and not the array of `IN UNNEST`.
pub open spec fn shows_aggregates(e: Expr, i: int) -> bool {
    0 <= i < e.operands@.len() && !hides_aggregates(e.kind) && e.operands@[i].role
        != Role::UnnestArray && e.operands@[i].role != Role::Subscript
}

proof fn lemma_windows_in_operands(e: Expr, n: int, f: Function)
    requires
        0 <= n <= e.operands@.len(),
    ensures
        windows_in_operands(e.kind, e.operands@.take(n)).contains(f) <==> exists|i: int|
            0 <= i < n && shows_windows(e, i) && #[trigger] window_functions(
                e.operands@[i].expr,
            ).contains(f),
    decreases n,
{
    if n > 0 {
        lemma_windows_in_operands(e, n - 1, f);
        let all = e.operands@.take(n);
        assert(all.drop_last() =~= e.operands@.take(n - 1));
        assert(all.last() == e.operands@[n - 1]);
        let own = if windows::operand_searched_for_windows(e.kind, all.last().role) {
            window_functions(all.last().expr)
        } else {
            Seq::empty()
        };
        lemma_contains_sum(windows_in_operands(e.kind, all.drop_last()), own, f);
        if own.contains(f) {
            assert(window_functions(e.operands@[n - 1].expr).contains(f));
        }
    } else {
        assert(e.operands@.take(0) =~= Seq::empty());
    }
}

proof fn lemma_aggregates_in_operands(e: Expr, n: int, f: Function)
    requires
        0 <= n <= e.operands@.len(),
    ensures
        aggregates_in_operands(e.kind, e.operands@.take(n)).contains(f) <==> exists|i: int|
            0 <= i < n && shows_aggregates(e, i) && #[trigger] group_aggregate_functions(
                e.operands@[i].expr,
            ).contains(f),
    decreases n,
{
    if n > 0 {
        lemma_aggregates_in_operands(e, n - 1, f);
        let all = e.operands@.take(n);
        assert(all.drop_last() =~= e.operands@.take(n - 1));
        assert(all.last() == e.operands@[n - 1]);
        let own = if windows::operand_searched_for_aggregates(e.kind, all.last().role) {
            group_aggregate_functions(all.last().expr)
        } else {
            Seq::empty()
        };
        lemma_contains_sum(aggregates_in_operands(e.kind, all.drop_last()), own, f);
        if own.contains(f) {
            assert(group_aggregate_functions(e.operands@[n - 1].expr).contains(f));
        }
    } else {
        assert(e.operands@.take(0) =~= Seq::empty());
    }
}

/// A call is found in an expression exactly where it is the expression itself
/// and has an OVER clause, or is found in an argument, in the filter, or in an
/// operand that is looked into.
pub proof fn law_windows_found(e: Expr, f: Function)
    ensures
        window_functions(e).contains(f) <==> match e.call {
            Some(call) => {
                ||| *call == f && f.over is Some
                ||| exists|i: int|
                    0 <= i < call.args@.len() && #[trigger] window_functions(
                        call.args@[i],
                    ).contains(f)
                ||| call.filter is Some && window_functions(*call.filter->0).contains(f)
            },
            None => exists|i: int|
                shows_windows(e, i) && #[trigger] window_functions(
                    e.operands@[i].expr,
                ).contains(f),
        },
{
    match e.call {
        Some(call) => {
            let own: Seq<Function> = if call.over is Some {
                seq![*call]
            } else {
                Seq::empty()
            };
            let args = windows_in_args(call.args@);
            let filter = match call.filter {
                Some(filter) => window_functions(*filter),
                None => Seq::empty(),
            };
            lemma_windows_in_args(call.args@, f);
            lemma_contains_sum(own, args, f);
            lemma_contains_sum(own + args, filter, f);
            if call.over is Some {
                assert(own[0] == *call);
            }
        },
        None => {
            lemma_windows_in_operands(e, e.operands@.len() as int, f);
            assert(e.operands@.take(e.operands@.len() as int) =~= e.operands@);
        },
    }
}

/// An aggregate of a group is found in an expression exactly where it is the
/// expression itself, is an aggregate and has no OVER clause, or is found in an
/// argument, in the filter, or in an operand that is looked into.
pub proof fn law_aggregates_found(e: Expr, f: Function)
    ensures
        group_aggregate_functions(e).contains(f) <==> match e.call {
            Some(call) => {
                ||| *call == f && f.over is None && f.aggregate
                ||| exists|i: int|
                    0 <= i < call.args@.len() && #[trigger] group_aggregate_functions(
                        call.args@[i],
                    ).contains(f)
                ||| call.filter is Some && group_aggregate_functions(*call.filter->0).contains(f)
            },
            None => exists|i: int|
                shows_aggregates(e, i) && #[trigger] group_aggregate_functions(
                    e.operands@[i].expr,
                ).contains(f),
        },
{
    match e.call {
        Some(call) => {
            let own: Seq<Function> = if call.over is None && call.aggregate {
                seq![*call]
            } else {
                Seq::empty()
            };
            let args = aggregates_in_args(call.args@);
            let filter = match call.filter {
                Some(filter) => group_aggregate_functions(*filter),
                None => Seq::empty(),
            };
            lemma_aggregates_in_args(call.args@, f);
            lemma_contains_sum(own, args, f);
            lemma_contains_sum(own + args, filter, f);
            if call.over is None && call.aggregate {
                assert(own[0] == *call);
            }
        },
        None => {
            lemma_aggregates_in_operands(e, e.operands@.len() as int, f);
            assert(e.operands@.take(e.operands@.len() as int) =~= e.operands@);
        },
    }
}

proof fn lemma_window_names()
    ensures
        "row_number"@.len() == 10 && "row_number"@[0] == 'r',
        "rank"@.len() == 4 && "rank"@[0] == 'r',
        "dense_rank"@.len() == 10 && "dense_rank"@[0] == 'd',
        "percent_rank"@.len() == 12,
        "cume_dist"@.len() == 9 && "cume_dist"@[0] == 'c',
        "ntile"@.len() == 5 && "ntile"@[0] == 'n',
        "count"@.len() == 5 && "count"@[0] == 'c',
        "sum"@.len() == 3 && "sum"@[0] == 's',
        "avg"@.len() == 3 && "avg"@[0] == 'a',
        "min"@.len() == 3 && "min"@[0] == 'm' && "min"@[1] == 'i',
        "max"@.len() == 3 && "max"@[0] == 'm' && "max"@[1] == 'a',
        "bool_and"@.len() == 8,
        "bool_or"@.len() == 7,
        "every"@.len() == 5 && "every"@[0] == 'e',
        "lag"@.len() == 3 && "lag"@[0] == 'l',
        "lead"@.len() == 4 && "lead"@[0] == 'l',
        "first_value"@.len() == 11,
        "last_value"@.len() == 10 && "last_value"@[0] == 'l',
        "nth_value"@.len() == 9 && "nth_value"@[0] == 'n',
{
    reveal_strlit("row_number");
    reveal_strlit("rank");
    reveal_strlit("dense_rank");
    reveal_strlit("percent_rank");
    reveal_strlit("cume_dist");
    reveal_strlit("ntile");
    reveal_strlit("count");
    reveal_strlit("sum");
    reveal_strlit("avg");
    reveal_strlit("min");
    reveal_strlit("max");
    reveal_strlit("bool_and");
    reveal_strlit("bool_or");
    reveal_strlit("every");
    reveal_strlit("lag");
    reveal_strlit("lead");
    reveal_strlit("first_value");
    reveal_strlit("last_value");
    reveal_strlit("nth_value");
}

/// The call has as many arguments as that.
pub open spec fn has_arguments(f: Function, least: nat, most: nat) -> bool {
    least <= f.args@.len() <= most
}

/// A call over a window is refused, its window aside, exactly where WITHIN GROUP is
/// given or it is not one of these. The functions that rank rows take no
/// argument, those that read another row of the window one to three, and those
/// that read a place in it one or two; only these read nulls in their own way.
/// The aggregates take one argument, `count` a star as well, and only they take a
/// filter.
pub proof fn law_window_call(f: Function)
    ensures
        ({
            let n = windows::plain_name(f.name@);
            let ranks = n == "cume_dist"@ || n == "percent_rank"@ || n == "dense_rank"@ || n
                == "rank"@ || n == "row_number"@;
            let reads_row = n == "lead"@ || n == "lag"@;
            let reads_place = n == "last_value"@ || n == "first_value"@;
            let aggregates = n == "every"@ || n == "bool_or"@ || n == "bool_and"@ || n == "max"@
                || n == "min"@ || n == "avg"@ || n == "sum"@;
            let plain = !f.null_treatment && f.filter is None;
            windows::window_call_refusal(f) is None <==> f.within_group@.len() == 0 && {
                ||| ranks && plain && has_arguments(f, 0, 0)
                ||| n == "ntile"@ && plain && has_arguments(f, 1, 1)
                ||| reads_row && f.filter is None && has_arguments(f, 1, 3)
                ||| reads_place && f.filter is None && has_arguments(f, 1, 1)
                ||| n == "nth_value"@ && f.filter is None && has_arguments(f, 2, 2)
                ||| n == "count"@ && !f.null_treatment && (f.star || has_arguments(f, 1, 1))
                ||| aggregates && !f.null_treatment && has_arguments(f, 1, 1)
            }
        }),
{
    lemma_window_names();
}

/// A query is refused for its windows exactly where one of its calls is, by itself
/// or because its window does not resolve.
pub proof fn law_window_refusals(fs: Seq<Function>, defs: Seq<NamedWindowDefinition>, from: int)
    requires
        0 <= from <= fs.len(),
    ensures
        windows::first_window_refusal(fs, defs, from) is None <==> forall|i: int|
            from <= i < fs.len() ==> windows::window_call_refusal(#[trigger] fs[i]) is None
                && window_of_call(fs[i], defs) is Ok,
    decreases fs.len() - from,
{
    if from < fs.len() {
        law_window_refusals(fs, defs, from + 1);
    }
}

proof fn lemma_windows_in_items(items: Seq<SelectItem>, f: Function)
    ensures
        windows_in_items(items).contains(f) <==> exists|i: int|
            0 <= i < items.len() && item_shows(#[trigger] items[i], f),
    decreases items.len(),
{
    if items.len() > 0 {
        let rest = items.drop_last();
        lemma_windows_in_items(rest, f);
        let own = match items.last() {
            SelectItem::UnnamedExpr(expr) => window_functions(expr),
            SelectItem::ExprWithAlias { expr, alias } => window_functions(expr),
            _ => Seq::empty(),
        };
        lemma_contains_sum(windows_in_items(rest), own, f);
        assert(own.contains(f) <==> item_shows(items.last(), f));
        if windows_in_items(rest).contains(f) {
            let i = choose|i: int| 0 <= i < rest.len() && item_shows(#[trigger] rest[i], f);
            assert(items[i] == rest[i]);
        }
        if exists|i: int| 0 <= i < items.len() && item_shows(#[trigger] items[i], f) {
            let i = choose|i: int| 0 <= i < items.len() && item_shows(#[trigger] items[i], f);
            if i < rest.len() {
                assert(rest[i] == items[i]);
            }
        }
    }
}

proof fn lemma_windows_in_order(order: Seq<OrderByExpr>, f: Function)
    ensures
        windows_in_order(order).contains(f) <==> exists|i: int|
            0 <= i < order.len() && #[trigger] window_functions(order[i].expr).contains(f),
    decreases order.len(),
{
    if order.len() > 0 {
        let rest = order.drop_last();
        lemma_windows_in_order(rest, f);
        lemma_contains_sum(windows_in_order(rest), window_functions(order.last().expr), f);
        if windows_in_order(rest).contains(f) {
            let i = choose|i: int|
                0 <= i < rest.len() && #[trigger] window_functions(rest[i].expr).contains(f);
            assert(window_functions(order[i].expr).contains(f));
        }
        if exists|i: int|
            0 <= i < order.len() && #[trigger] window_functions(order[i].expr).contains(f) {
            let i = choose|i: int|
                0 <= i < order.len() && #[trigger] window_functions(order[i].expr).contains(f);
            if i < rest.len() {
                assert(window_functions(rest[i].expr).contains(f));
            } else {
                assert(window_functions(order.last().expr).contains(f));
            }
        } else if window_functions(order.last().expr).contains(f) {
            assert(window_functions(order[order.len() - 1].expr).contains(f));
        }
    }
}

/// An item of a projection holds a window function.
pub open spec fn item_shows(item: SelectItem, f: Function) -> bool {
    match item {
        SelectItem::UnnamedExpr(expr) => window_functions(expr).contains(f),
        SelectItem::ExprWithAlias { expr, alias } => window_functions(expr).contains(f),
        _ => false,
    }
}

/// A window function stands in the projection of a query or in its ORDER BY.
pub open spec fn query_shows(select: Select, query: Query, f: Function) -> bool {
    ||| exists|i: int|
        0 <= i < select.projection@.len() && item_shows(#[trigger] select.projection@[i], f)
    ||| match query.order_by {
        Some(OrderBy::Expressions(order)) => exists|i: int|
            0 <= i < order@.len() && #[trigger] window_functions(order@[i].expr).contains(f),
        _ => false,
    }
}

/// The window functions of a query are those of its projection and of its ORDER BY:
/// each way of writing one is there, once, and nothing else is. Only ORDER BY ALL
/// is refused.
pub proof fn law_windows_of_query(select: Select, query: Query, f: Function)
    ensures
        windows_of_query(select, query) is Err <==> query.order_by == Some(OrderBy::All),
        windows_of_query(select, query) matches Ok(fs) ==> {
            &&& query_shows(select, query, f) ==> windows::has_text(fs, f.text@)
            &&& fs.contains(f) ==> query_shows(select, query, f)
            &&& forall|i: int, j: int|
                0 <= i < j < fs.len() ==> (#[trigger] fs[i]).text@ != (#[trigger] fs[j]).text@
        },
{
    let items = windows_in_items(select.projection@);
    lemma_windows_in_items(select.projection@, f);
    let all = match query.order_by {
        Some(OrderBy::Expressions(order)) => {
            lemma_windows_in_order(order@, f);
            lemma_contains_sum(items, windows_in_order(order@), f);
            items + windows_in_order(order@)
        },
        _ => items,
    };
    windows::law_distinct_by_text(all);
    lemma_distinct_among(all, f);
    if all.contains(f) {
        let k = choose|k: int| 0 <= k < all.len() && all[k] == f;
        assert(all[k].text@ == f.text@);
        assert(windows::has_text(all, f.text@));
        assert(windows::has_text(windows::distinct_by_text(all), f.text@));
    }
}

proof fn lemma_distinct_among(fs: Seq<Function>, f: Function)
    ensures
        windows::distinct_by_text(fs).contains(f) ==> fs.contains(f),
    decreases fs.len(),
{
    if fs.len() > 0 && windows::distinct_by_text(fs).contains(f) {
        let rest = fs.drop_last();
        let kept = windows::distinct_by_text(rest);
        lemma_distinct_among(rest, f);
        let all = windows::distinct_by_text(fs);
        let k = choose|k: int| 0 <= k < all.len() && all[k] == f;
        if k < kept.len() {
            assert(kept[k] == f);
            let i = choose|i: int| 0 <= i < rest.len() && rest[i] == f;
            assert(fs[i] == f);
        } else {
            assert(fs[fs.len() - 1] == f);
        }
    }
}

} // verus!
