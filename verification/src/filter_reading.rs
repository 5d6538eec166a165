//! Reading the terms of a WHERE clause off the tree of a parsed statement, with what
//! the engine makes of each expression.
use vstd::prelude::*;
use crate::ast::ExprKind;
use crate::error::SqlError;
use crate::filters::{Constant, FilterExpr, FilterShape, OidSource};
use crate::json;
use crate::json::{Json, JsonView};
use crate::reading;
use crate::syntax;
use crate::text;

verus! {

/// What the engine makes of an expression: the constant that it evaluates to and the
/// relation number that it gives.
#[derive(Debug)]
pub struct Evaluation {
    pub constant: Result<Constant, SqlError>,
    pub oid: OidSource,
}

/// The form of an expression, apart from the expressions in it.
#[verifier::ext_equal]
pub enum FormView {
    Column(Seq<Seq<char>>),
    Nested,
    Equal,
    RegexMatch,
    InList(bool),
    EqualAny,
    Other,
}

enum Form {
    Column(Vec<String>),
    Nested,
    Equal,
    RegexMatch,
    InList(bool),
    EqualAny,
    Other,
}

spec fn form_view(f: Form) -> FormView {
    match f {
        Form::Column(parts) => FormView::Column(text::views(parts@)),
        Form::Nested => FormView::Nested,
        Form::Equal => FormView::Equal,
        Form::RegexMatch => FormView::RegexMatch,
        Form::InList(negated) => FormView::InList(negated),
        Form::EqualAny => FormView::EqualAny,
        Form::Other => FormView::Other,
    }
}

/// The form of an expression of a tree.
pub open spec fn form_of(j: JsonView) -> FormView {
    let p = json::payload(j);
    match syntax::kind_of(j) {
        Some(ExprKind::Identifier) => FormView::Column(reading::names_of(j)),
        Some(ExprKind::CompoundIdentifier) => FormView::Column(reading::names_of(j)),
        Some(ExprKind::Nested) => FormView::Nested,
        Some(ExprKind::BinaryOp) => if json::field_or_null(p, "op"@) == JsonView::Text("Eq"@) {
            FormView::Equal
        } else if json::field_or_null(p, "op"@) == JsonView::Text("PGRegexMatch"@) {
            FormView::RegexMatch
        } else {
            FormView::Other
        },
        Some(ExprKind::InList) => FormView::InList(
            json::field_or_null(p, "negated"@) == JsonView::Bool(true),
        ),
        Some(ExprKind::AnyOp) => if json::field_or_null(p, "compare_op"@) == JsonView::Text(
            "Eq"@,
        ) {
            FormView::EqualAny
        } else {
            FormView::Other
        },
        _ => FormView::Other,
    }
}

/// The expressions in an expression of a tree that its form has a place for.
pub open spec fn inner_nodes(j: JsonView) -> Seq<JsonView> {
    let p = json::payload(j);
    match form_of(j) {
        FormView::Column(_) => Seq::empty(),
        FormView::Nested => seq![p],
        FormView::Equal => seq![json::field_or_null(p, "left"@), json::field_or_null(p, "right"@)],
        FormView::RegexMatch => seq![
            json::field_or_null(p, "left"@),
            json::field_or_null(p, "right"@),
        ],
        FormView::InList(_) => seq![json::field_or_null(p, "expr"@)] + json::elements(
            json::field_or_null(p, "list"@),
        ),
        FormView::EqualAny => seq![
            json::field_or_null(p, "left"@),
            json::field_or_null(p, "right"@),
        ],
        FormView::Other => Seq::empty(),
    }
}

/// The form of a shape.
pub open spec fn shape_form(s: FilterShape) -> FormView {
    match s {
        FilterShape::Column(parts) => FormView::Column(text::views(parts@)),
        FilterShape::Nested(_) => FormView::Nested,
        FilterShape::Equal(_, _) => FormView::Equal,
        FilterShape::RegexMatch(_, _) => FormView::RegexMatch,
        FilterShape::InList(_, _, negated) => FormView::InList(negated),
        FilterShape::EqualAny(_, _) => FormView::EqualAny,
        FilterShape::Other => FormView::Other,
    }
}

/// The expressions in a shape.
pub open spec fn inner_exprs(s: FilterShape) -> Seq<FilterExpr> {
    match s {
        FilterShape::Column(_) => Seq::empty(),
        FilterShape::Nested(inner) => seq![*inner],
        FilterShape::Equal(left, right) => seq![*left, *right],
        FilterShape::RegexMatch(left, right) => seq![*left, *right],
        FilterShape::InList(e, list, _) => seq![*e] + list@,
        FilterShape::EqualAny(left, right) => seq![*left, *right],
        FilterShape::Other => Seq::empty(),
    }
}

/// How many expressions an expression of a tree is read as, itself counted; nothing
/// where they nest deeper than `n`.
pub open spec fn count_of(j: JsonView, n: nat) -> Option<nat>
    decreases n, 0nat, 0nat,
{
    if n == 0 {
        None
    } else {
        match count_in(inner_nodes(j), (n - 1) as nat) {
            Some(k) => Some(k + 1),
            None => None,
        }
    }
}

pub open spec fn count_in(nodes: Seq<JsonView>, n: nat) -> Option<nat>
    decreases n, 1nat, nodes.len(),
{
    if nodes.len() == 0 {
        Some(0)
    } else {
        match (count_in(nodes.drop_last(), n), count_of(nodes.last(), n)) {
            (Some(a), Some(b)) => Some(a + b),
            _ => None,
        }
    }
}

/// An expression is that of a node, with those evaluations: its own first, then those of
/// the expressions in it.
pub open spec fn shows_filter(e: FilterExpr, j: JsonView, done: Seq<Evaluation>, n: nat) -> bool
    decreases n, 0nat, 0nat,
{
    &&& n > 0
    &&& done.len() > 0
    &&& done[0] == Evaluation { constant: e.constant, oid: e.oid }
    &&& shape_form(e.shape) == form_of(j)
    &&& shows_filters(inner_exprs(e.shape), inner_nodes(j), done.skip(1), (n - 1) as nat)
}

pub open spec fn shows_filters(
    list: Seq<FilterExpr>,
    nodes: Seq<JsonView>,
    done: Seq<Evaluation>,
    n: nat,
) -> bool
    decreases n, 1nat, nodes.len(),
{
    &&& list.len() == nodes.len()
    &&& if nodes.len() == 0 {
        done.len() == 0
    } else {
        let k = count_in(nodes.drop_last(), n)->0 as int;
        &&& 0 <= k <= done.len()
        &&& shows_filters(list.drop_last(), nodes.drop_last(), done.take(k), n)
        &&& shows_filter(list.last(), nodes.last(), done.skip(k), n)
    }
}

/// That many evaluations do for what is read.
pub open spec fn enough(count: Option<nat>, given: nat) -> bool {
    count matches Some(k) && k <= given
}

/// What fails for the first nodes fails for all of them.
proof fn lemma_first_fail(nodes: Seq<JsonView>, upto: int, n: nat, given: nat)
    requires
        0 <= upto <= nodes.len(),
        !enough(count_in(nodes.take(upto), n), given),
    ensures
        !enough(count_in(nodes, n), given),
    decreases nodes.len() - upto,
{
    if upto == nodes.len() {
        assert(nodes.take(upto) =~= nodes);
    } else {
        let next = nodes.take(upto + 1);
        assert(next.drop_last() =~= nodes.take(upto));
        assert(!enough(count_in(next, n), given)) by {
            reveal_with_fuel(count_in, 2);
            assert(next.len() > 0);
            assert(count_in(next, n) == match (
                count_in(next.drop_last(), n),
                count_of(next.last(), n),
            ) {
                (Some(a), Some(b)) => Some((a + b) as nat),
                _ => None::<nat>,
            });
        }
        lemma_first_fail(nodes, upto + 1, n, given);
    }
}

spec fn in_order(evaluations: Seq<Evaluation>) -> Seq<Evaluation> {
    evaluations.reverse()
}

fn filter_form(j: Option<&Json>) -> (r: Form)
    ensures
        form_view(r) == form_of(reading::node_view(j)),
{
    let j: &Json = match j {
        Some(j) => j,
        None => {
            return Form::Other;
        },
    };
    let p = reading::content(Some(j));
    match syntax::expr_kind(j) {
        Some(ExprKind::Identifier) => Form::Column(reading::read_names(j)),
        Some(ExprKind::CompoundIdentifier) => Form::Column(reading::read_names(j)),
        Some(ExprKind::Nested) => Form::Nested,
        Some(ExprKind::BinaryOp) => if syntax::is_text(reading::member(p, "op"), "Eq") {
            Form::Equal
        } else if syntax::is_text(reading::member(p, "op"), "PGRegexMatch") {
            Form::RegexMatch
        } else {
            Form::Other
        },
        Some(ExprKind::InList) => Form::InList(
            match reading::member(p, "negated") {
                Some(Json::Bool(negated)) => *negated,
                _ => false,
            },
        ),
        Some(ExprKind::AnyOp) => if syntax::is_text(reading::member(p, "compare_op"), "Eq") {
            Form::EqualAny
        } else {
            Form::Other
        },
        _ => Form::Other,
    }
}

spec fn option_views(v: Seq<Option<&Json>>) -> Seq<JsonView> {
    v.map_values(|j: Option<&Json>| reading::node_view(j))
}

fn form_nodes<'a>(j: Option<&'a Json>, form: &Form) -> (r: Vec<Option<&'a Json>>)
    requires
        form_view(*form) == form_of(reading::node_view(j)),
    ensures
        option_views(r@) == inner_nodes(reading::node_view(j)),
{
    let mut out: Vec<Option<&'a Json>> = Vec::new();
    let p = reading::content(j);
    match form {
        Form::Column(_) => {},
        Form::Nested => {
            out.push(p);
        },
        Form::InList(_) => {
            out.push(reading::member(p, "expr"));
            let items = reading::nodes_of(reading::member(p, "list"));
            let ghost first = reading::node_view(out@[0]);
            let ghost all = json::refs_view(items@);
            let mut i: usize = 0;
            assert(option_views(out@) =~= seq![first] + all.take(0));
            while i < items.len()
                invariant
                    i <= items.len(),
                    all == json::refs_view(items@),
                    option_views(out@) == seq![first] + all.take(i as int),
                decreases items.len() - i,
            {
                let ghost prior = option_views(out@);
                let ghost item = items@[i as int]@;
                out.push(Some(items[i]));
                assert(all[i as int] == item);
                assert(option_views(out@) =~= prior.push(item));
                assert(seq![first] + all.take(i + 1) =~= (seq![first] + all.take(i as int)).push(
                    all[i as int],
                ));
                i = i + 1;
            }
            assert(all.take(all.len() as int) =~= all);
        },
        Form::Other => {},
        _ => {
            out.push(reading::member(p, "left"));
            out.push(reading::member(p, "right"));
        },
    }
    assert(option_views(out@) =~= inner_nodes(reading::node_view(j)));
    out
}

/// The shape of that form with those expressions in it, which come last first.
fn assemble(form: Form, inner: Vec<FilterExpr>) -> (r: FilterShape)
    requires
        match form_view(form) {
            FormView::Column(_) => inner@.len() == 0,
            FormView::Nested => inner@.len() == 1,
            FormView::InList(_) => inner@.len() >= 1,
            FormView::Other => inner@.len() == 0,
            _ => inner@.len() == 2,
        },
    ensures
        shape_form(r) == form_view(form),
        inner_exprs(r) == inner@.reverse(),
{
    let mut inner = inner;
    let ghost all = inner@.reverse();
    let r = match form {
        Form::Column(parts) => FilterShape::Column(parts),
        Form::Nested => match inner.pop() {
            Some(e) => FilterShape::Nested(Box::new(e)),
            None => FilterShape::Other,
        },
        Form::Equal => match (inner.pop(), inner.pop()) {
            (Some(left), Some(right)) => FilterShape::Equal(Box::new(left), Box::new(right)),
            _ => FilterShape::Other,
        },
        Form::RegexMatch => match (inner.pop(), inner.pop()) {
            (Some(left), Some(right)) => FilterShape::RegexMatch(Box::new(left), Box::new(right)),
            _ => FilterShape::Other,
        },
        Form::EqualAny => match (inner.pop(), inner.pop()) {
            (Some(left), Some(right)) => FilterShape::EqualAny(Box::new(left), Box::new(right)),
            _ => FilterShape::Other,
        },
        Form::InList(negated) => match inner.pop() {
            Some(e) => {
                let list = in_turn(inner);
                assert(all =~= seq![e] + list@);
                FilterShape::InList(Box::new(e), list, negated)
            },
            None => FilterShape::Other,
        },
        Form::Other => FilterShape::Other,
    };
    assert(inner_exprs(r) =~= all);
    r
}

fn in_turn(last_first: Vec<FilterExpr>) -> (r: Vec<FilterExpr>)
    ensures
        r@ == last_first@.reverse(),
{
    let mut rest = last_first;
    let ghost all = rest@.reverse();
    let mut out: Vec<FilterExpr> = Vec::new();
    while rest.len() > 0
        invariant
            all == out@ + rest@.reverse(),
        decreases rest@.len(),
    {
        let ghost before = rest@;
        let ghost prior = out@;
        match rest.pop() {
            Some(e) => {
                assert(before.reverse() =~= seq![e] + rest@.reverse());
                out.push(e);
                assert(prior + before.reverse() =~= out@ + rest@.reverse());
            },
            None => {},
        }
    }
    assert(out@ + rest@.reverse() =~= out@);
    out
}

/// Reads an expression; the evaluations come last first, and those that are taken are
/// removed.
fn take_filter(j: Option<&Json>, evaluations: &mut Vec<Evaluation>, levels: usize) -> (r: Option<
    FilterExpr,
>)
    ensures
        ({
            let count = count_of(reading::node_view(j), levels as nat);
            let given = in_order(old(evaluations)@);
            match r {
                Some(e) => {
                    let k = count->0 as int;
                    &&& enough(count, given.len())
                    &&& in_order(final(evaluations)@) == given.skip(k)
                    &&& shows_filter(e, reading::node_view(j), given.take(k), levels as nat)
                },
                None => !enough(count, given.len()),
            }
        }),
    decreases levels, 0nat,
{
    let ghost node = reading::node_view(j);
    let ghost given = in_order(evaluations@);
    if levels == 0 {
        return None;
    }
    let own = match evaluations.pop() {
        Some(own) => own,
        None => {
            return None;
        },
    };
    assert(given[0] == own);
    assert(in_order(evaluations@) =~= given.skip(1));
    let form = filter_form(j);
    let nodes = form_nodes(j, &form);
    let ghost inner_count = count_in(inner_nodes(node), (levels - 1) as nat);
    let inner = match take_filters(&nodes, evaluations, levels - 1) {
        Some(inner) => inner,
        None => {
            assert(!enough(inner_count, given.skip(1).len()));
            return None;
        },
    };
    let ghost k = inner_count->0 as int;
    let ghost taken = inner@;
    let last_first = in_turn(inner);
    assert(last_first@.reverse() =~= taken);
    assert(option_views(nodes@).len() == nodes@.len());
    proof {
        lemma_same_length(taken, inner_nodes(node), given.skip(1).take(k), (levels - 1) as nat);
    }
    let shape = assemble(form, last_first);
    let e = FilterExpr { shape, constant: own.constant, oid: own.oid };
    proof {
        assert(given.skip(1).skip(k) =~= given.skip(k + 1));
        assert(given.take(k + 1).skip(1) =~= given.skip(1).take(k));
        assert(given.take(k + 1)[0] == own);
        assert(own == Evaluation { constant: e.constant, oid: e.oid });
        assert(count_of(node, levels as nat) == Some((k + 1) as nat));
    }
    Some(e)
}

proof fn lemma_same_length(
    list: Seq<FilterExpr>,
    nodes: Seq<JsonView>,
    done: Seq<Evaluation>,
    n: nat,
)
    requires
        shows_filters(list, nodes, done, n),
    ensures
        list.len() == nodes.len(),
{
}

fn take_filters(nodes: &Vec<Option<&Json>>, evaluations: &mut Vec<Evaluation>, levels: usize) -> (r:
    Option<Vec<FilterExpr>>)
    ensures
        ({
            let count = count_in(option_views(nodes@), levels as nat);
            let given = in_order(old(evaluations)@);
            match r {
                Some(list) => {
                    let k = count->0 as int;
                    &&& enough(count, given.len())
                    &&& in_order(final(evaluations)@) == given.skip(k)
                    &&& shows_filters(list@, option_views(nodes@), given.take(k), levels as nat)
                },
                None => !enough(count, given.len()),
            }
        }),
    decreases levels, 1nat,
{
    let ghost all = option_views(nodes@);
    let ghost given = in_order(evaluations@);
    let ghost n = levels as nat;
    let mut out: Vec<FilterExpr> = Vec::new();
    let ghost mut used: int = 0;
    let mut i: usize = 0;
    proof {
        assert(all.take(0).len() == 0);
        assert(given.skip(0) =~= given);
        assert(count_in(all.take(0), n) == Some(0nat));
        assert(shows_filters(out@, all.take(0), given.take(0), n));
    }
    while i < nodes.len()
        invariant
            i <= nodes.len(),
            all == option_views(nodes@),
            n == levels as nat,
            given == in_order(old(evaluations)@),
            0 <= used <= given.len(),
            count_in(all.take(i as int), n) == Some(used as nat),
            in_order(evaluations@) == given.skip(used),
            shows_filters(out@, all.take(i as int), given.take(used), n),
        decreases nodes.len() - i,
    {
        let ghost node = reading::node_view(nodes@[i as int]);
        let ghost next = all.take(i + 1);
        let ghost prior = out@;
        proof {
            assert(all[i as int] == node);
            assert(next.drop_last() =~= all.take(i as int));
            assert(next.last() == node);
        }
        match take_filter(nodes[i], evaluations, levels) {
            Some(e) => {
                out.push(e);
                proof {
                    let more = count_of(node, n)->0 as int;
                    assert(out@.drop_last() =~= prior);
                    assert(given.skip(used).skip(more) =~= given.skip(used + more));
                    let done = given.take(used + more);
                    assert(done.take(used) =~= given.take(used));
                    assert(done.skip(used) =~= given.skip(used).take(more));
                    assert(count_in(next, n) == Some((used + more) as nat));
                    assert(shows_filters(out@, next, done, n)) by {
                        lemma_same_length(prior, all.take(i as int), given.take(used), n);
                    }
                    used = used + more;
                }
            },
            None => {
                proof {
                    assert(!enough(count_in(next, n), given.len()));
                    lemma_first_fail(all, i + 1, n, given.len());
                }
                return None;
            },
        }
        i = i + 1;
    }
    assert(all.take(all.len() as int) =~= all);
    Some(out)
}

/// Reads a term of a WHERE clause. The evaluations are those of its expressions, each
/// before those of the expressions in it; it is read where there are exactly as many of
/// them, and where its expressions nest no deeper than `levels`.
pub fn read_filter(j: &Json, evaluations: Vec<Evaluation>, levels: usize) -> (r: Option<FilterExpr>)
    ensures
        r is Some <==> count_of(j@, levels as nat) == Some(evaluations@.len()),
        r matches Some(e) ==> shows_filter(e, j@, evaluations@, levels as nat),
{
    let ghost all = evaluations@;
    let mut rest = evaluations;
    let mut last_first: Vec<Evaluation> = Vec::new();
    assert(all =~= rest@ + last_first@.reverse());
    while rest.len() > 0
        invariant
            all == rest@ + last_first@.reverse(),
        decreases rest@.len(),
    {
        let ghost before = rest@;
        let ghost prior = last_first@;
        match rest.pop() {
            Some(e) => {
                last_first.push(e);
                assert(before + prior.reverse() =~= rest@ + last_first@.reverse());
            },
            None => {},
        }
    }
    assert(in_order(last_first@) =~= all);
    let r = take_filter(Some(j), &mut last_first, levels);
    assert(in_order(last_first@).len() == last_first@.len());
    match r {
        Some(e) => {
            assert(reading::node_view(Some(j)) == j@);
            if last_first.len() == 0 {
                assert(all.take(all.len() as int) =~= all);
                Some(e)
            } else {
                None
            }
        },
        None => None,
    }
}

} // verus!
