//! Aggregates over rows whose expressions may fail to evaluate.
//!
//! The engine evaluates the expressions of a group row by row and asks, every so
//! many rows, whether the statement has been cancelled. The first thing that goes
//! wrong is what the aggregate comes to.
use vstd::prelude::*;
use crate::aggregates;
use crate::aggregates::{AggregateKind, AggregateRow, AggregateView, Aggregated, AggregatedView, RowAggregate};
use crate::error::{ErrorView, SqlError};
use crate::text;

verus! {

/// The number of rows between two questions whether the statement is cancelled.
pub const CHECKED_ROWS: usize = 1024;

/// What went wrong with a row: with the filter of the call, with the aggregated
/// value, with the other argument of the call, with each of the values that the
/// call orders by, and with the comparison of the value with the extreme one before
/// it.
#[derive(Debug)]
pub struct RowFailures {
    pub filter: Option<SqlError>,
    pub value: Option<SqlError>,
    pub other: Option<SqlError>,
    pub keys: Vec<Option<SqlError>>,
    pub comparison: Option<SqlError>,
}

/// The rows of a group, what went wrong with each, and what each question whether
/// the statement is cancelled was answered.
#[derive(Debug)]
pub struct RowGroup {
    pub rows: Vec<AggregateRow>,
    pub failures: Vec<RowFailures>,
    pub checks: Vec<Option<SqlError>>,
}

pub open spec fn failure_view(e: Option<SqlError>) -> Option<ErrorView> {
    match e {
        Some(e) => Some(e@),
        None => None,
    }
}

fn copy_failure(e: &Option<SqlError>) -> (r: Option<SqlError>)
    ensures
        failure_view(r) == failure_view(*e),
{
    match e {
        Some(e) => Some(e.copied()),
        None => None,
    }
}

/// The first failure of two that may come one after the other.
pub open spec fn either(first: Option<ErrorView>, second: Option<ErrorView>) -> Option<ErrorView> {
    match first {
        Some(e) => Some(e),
        None => second,
    }
}

/// The first failure in a list, from a position on.
pub open spec fn first_of(list: Seq<Option<SqlError>>, from: int) -> Option<ErrorView>
    decreases list.len() - from,
{
    if from < 0 || from >= list.len() {
        None
    } else {
        either(failure_view(list[from]), first_of(list, from + 1))
    }
}

fn first_failure_of(list: &Vec<Option<SqlError>>) -> (r: Option<SqlError>)
    ensures
        failure_view(r) == first_of(list@, 0),
{
    let mut i: usize = 0;
    while i < list.len()
        invariant
            i <= list.len(),
            first_of(list@, 0) == first_of(list@, i as int),
        decreases list.len() - i,
    {
        if list[i].is_some() {
            return copy_failure(&list[i]);
        }
        i = i + 1;
    }
    None
}

/// Whether an aggregate has a filter, orders its rows and keeps them all until the
/// end.
pub open spec fn collects_rows(kind: AggregateKind) -> bool {
    kind is StringAgg || kind is ArrayAgg || kind is XmlAgg || kind is JsonAgg
        || kind is JsonObjectAgg
}

fn collecting(kind: AggregateKind) -> (r: bool)
    ensures
        r == collects_rows(kind),
{
    match kind {
        AggregateKind::StringAgg => true,
        AggregateKind::ArrayAgg => true,
        AggregateKind::XmlAgg => true,
        AggregateKind::JsonAgg => true,
        AggregateKind::JsonObjectAgg => true,
        _ => false,
    }
}

/// What goes wrong with a row that an aggregate collects: with its filter, and,
/// where that accepts it, with its arguments, in the order in which the call has
/// them, and with what it is ordered by.
pub open spec fn collected_failure(kind: AggregateKind, row: AggregateRow, f: RowFailures) -> Option<
    ErrorView,
> {
    either(
        failure_view(f.filter),
        if !row.accepted {
            None
        } else {
            either(
                match kind {
                    AggregateKind::StringAgg => either(
                        failure_view(f.value),
                        failure_view(f.other),
                    ),
                    AggregateKind::JsonObjectAgg => either(
                        failure_view(f.other),
                        failure_view(f.value),
                    ),
                    _ => failure_view(f.value),
                },
                first_of(f.keys@, 0),
            )
        },
    )
}

fn collected_row_failure(kind: AggregateKind, row: &AggregateRow, f: &RowFailures) -> (r: Option<
    SqlError,
>)
    ensures
        failure_view(r) == collected_failure(kind, *row, *f),
{
    if f.filter.is_some() {
        return copy_failure(&f.filter);
    }
    if !row.accepted {
        return None;
    }
    match kind {
        AggregateKind::StringAgg => {
            if f.value.is_some() {
                return copy_failure(&f.value);
            }
            if f.other.is_some() {
                return copy_failure(&f.other);
            }
        },
        AggregateKind::JsonObjectAgg => {
            if f.other.is_some() {
                return copy_failure(&f.other);
            }
            if f.value.is_some() {
                return copy_failure(&f.value);
            }
        },
        _ => {
            if f.value.is_some() {
                return copy_failure(&f.value);
            }
        },
    }
    first_failure_of(&f.keys)
}

/// Whether one of the first `n` rows has a value.
pub open spec fn value_before(rows: Seq<AggregateRow>, n: int) -> bool {
    exists|k: int| 0 <= k < n && k < rows.len() && !(#[trigger] rows[k]).value.null
}

/// What goes wrong at a row of a group. The extreme value is compared with once
/// there is one, unless the row's own value is null.
pub open spec fn failure_at(kind: AggregateKind, g: RowGroup, i: int) -> Option<ErrorView> {
    let every = CHECKED_ROWS as int;
    let check = if i % every == 0 && i / every < g.checks@.len() {
        failure_view(g.checks@[i / every])
    } else {
        None
    };
    let row = if i < g.failures@.len() {
        let f = g.failures@[i];
        if collects_rows(kind) {
            collected_failure(kind, g.rows@[i], f)
        } else if kind is Min || kind is Max {
            either(
                failure_view(f.value),
                if !g.rows@[i].value.null && value_before(g.rows@, i) {
                    failure_view(f.comparison)
                } else {
                    None
                },
            )
        } else {
            failure_view(f.value)
        }
    } else {
        None
    };
    either(check, row)
}

/// What first goes wrong with the rows of a group from a position on.
pub open spec fn group_failure(kind: AggregateKind, g: RowGroup, from: int) -> Option<ErrorView>
    decreases g.rows@.len() - from,
{
    if from < 0 || from >= g.rows@.len() {
        None
    } else {
        either(failure_at(kind, g, from), group_failure(kind, g, from + 1))
    }
}

fn failure_of_row(kind: AggregateKind, g: &RowGroup, i: usize, compared: bool) -> (r: Option<SqlError>)
    requires
        i < g.rows@.len(),
        compared == value_before(g.rows@, i as int),
    ensures
        failure_view(r) == failure_at(kind, *g, i as int),
{
    if i % CHECKED_ROWS == 0 {
        let at = i / CHECKED_ROWS;
        if at < g.checks.len() && g.checks[at].is_some() {
            return copy_failure(&g.checks[at]);
        }
    }
    if i >= g.failures.len() {
        return None;
    }
    let f = &g.failures[i];
    if collecting(kind) {
        return collected_row_failure(kind, &g.rows[i], f);
    }
    if f.value.is_some() {
        return copy_failure(&f.value);
    }
    let extreme = match kind {
        AggregateKind::Min => true,
        AggregateKind::Max => true,
        _ => false,
    };
    if extreme && !g.rows[i].value.null && compared {
        return copy_failure(&f.comparison);
    }
    None
}

/// What first goes wrong with the rows of a group.
pub fn first_row_failure(kind: AggregateKind, g: &RowGroup) -> (r: Option<SqlError>)
    ensures
        failure_view(r) == group_failure(kind, *g, 0),
{
    let mut compared: bool = false;
    let mut i: usize = 0;
    while i < g.rows.len()
        invariant
            i <= g.rows.len(),
            compared == value_before(g.rows@, i as int),
            group_failure(kind, *g, 0) == group_failure(kind, *g, i as int),
        decreases g.rows.len() - i,
    {
        let failure = failure_of_row(kind, g, i, compared);
        if failure.is_some() {
            return failure;
        }
        let ghost before = compared;
        if !g.rows[i].value.null {
            compared = true;
            assert(!g.rows@[i as int].value.null);
        }
        assert(compared == value_before(g.rows@, i + 1)) by {
            if before {
                let k = choose|k: int|
                    0 <= k < i && k < g.rows@.len() && !(#[trigger] g.rows@[k]).value.null;
                assert(0 <= k < i + 1 && !g.rows@[k].value.null);
            }
        }
        i = i + 1;
    }
    None
}

/// Whether an aggregate is refused before a row is looked at.
pub open spec fn refused_by_type(a: AggregateView, input_type: Option<Seq<char>>) -> bool {
    match a.kind {
        AggregateKind::Sum => input_type == Some("oid"@),
        AggregateKind::Avg => input_type == Some("oid"@),
        AggregateKind::RangeAgg => input_type is None,
        _ => false,
    }
}

/// What an aggregate comes to over a group. The rows are only counted, not
/// evaluated, for `COUNT(*)`.
pub open spec fn group_outcome(
    a: AggregateView,
    g: RowGroup,
    input_type: Option<Seq<char>>,
) -> Result<AggregatedView, ErrorView> {
    let outcome = aggregates::aggregate_outcome(a, g.rows@, input_type);
    if a.kind is CountAll || refused_by_type(a, input_type) {
        outcome
    } else {
        match group_failure(a.kind, g, 0) {
            Some(e) => Err(e),
            None => outcome,
        }
    }
}

impl<'a> RowAggregate<'a> {
    /// What the aggregate comes to over a group whose rows may fail to evaluate, its
    /// expressions evaluated over the columns of the rows. `input_type` is the type
    /// of the aggregated expression, where it is known.
    pub fn evaluate<'b>(&self, g: &'b RowGroup, input_type: Option<&str>) -> (r: Result<
        Aggregated<'b>,
        SqlError,
    >)
        ensures
            aggregates::yields(r, group_outcome(self@, *g, text::view_str(input_type))),
    {
        let refused = match self.kind {
            AggregateKind::CountAll => true,
            AggregateKind::Sum => aggregates::reject_oid_numeric_aggregate(input_type, "sum").is_err(),
            AggregateKind::Avg => aggregates::reject_oid_numeric_aggregate(input_type, "avg").is_err(),
            AggregateKind::RangeAgg => input_type.is_none(),
            _ => false,
        };
        if !refused {
            match first_row_failure(self.kind, g) {
                Some(e) => {
                    return Err(e);
                },
                None => {},
            }
        }
        self.evaluate_rows(&g.rows, input_type)
    }

    /// The same over a group whose expressions were bound to their columns before.
    pub fn evaluate_bound<'b>(&self, g: &'b RowGroup, input_type: Option<&str>) -> (r: Result<
        Aggregated<'b>,
        SqlError,
    >)
        ensures
            aggregates::yields(r, group_outcome(self@, *g, text::view_str(input_type))),
    {
        self.evaluate(g, input_type)
    }
}

/// The same goes wrong with two rows.
pub open spec fn same_failures(a: RowFailures, b: RowFailures) -> bool {
    &&& failure_view(a.filter) == failure_view(b.filter)
    &&& failure_view(a.value) == failure_view(b.value)
    &&& failure_view(a.other) == failure_view(b.other)
    &&& a.keys@.map_values(|e: Option<SqlError>| failure_view(e)) == b.keys@.map_values(
        |e: Option<SqlError>| failure_view(e),
    )
    &&& failure_view(a.comparison) == failure_view(b.comparison)
}

/// Two evaluations of a group that give the same rows and fail alike, and during
/// which the statement is not cancelled.
pub open spec fn evaluated_alike(a: RowGroup, b: RowGroup) -> bool {
    &&& a.rows@ == b.rows@
    &&& a.failures@.len() == b.failures@.len()
    &&& forall|i: int|
        0 <= i < a.failures@.len() ==> same_failures(#[trigger] a.failures@[i], b.failures@[i])
    &&& forall|i: int| 0 <= i < a.checks@.len() ==> (#[trigger] a.checks@[i]) is None
    &&& forall|i: int| 0 <= i < b.checks@.len() ==> (#[trigger] b.checks@[i]) is None
}

proof fn lemma_first_of_alike(a: Seq<Option<SqlError>>, b: Seq<Option<SqlError>>, from: int)
    requires
        a.map_values(|e: Option<SqlError>| failure_view(e)) == b.map_values(
            |e: Option<SqlError>| failure_view(e),
        ),
    ensures
        first_of(a, from) == first_of(b, from),
    decreases a.len() - from,
{
    let x = a.map_values(|e: Option<SqlError>| failure_view(e));
    let y = b.map_values(|e: Option<SqlError>| failure_view(e));
    assert(x.len() == a.len() && y.len() == b.len());
    if 0 <= from < a.len() {
        assert(x[from] == failure_view(a[from]));
        assert(y[from] == failure_view(b[from]));
        lemma_first_of_alike(a, b, from + 1);
    }
}

proof fn lemma_alike(kind: AggregateKind, a: RowGroup, b: RowGroup, from: int)
    requires
        evaluated_alike(a, b),
        0 <= from,
    ensures
        group_failure(kind, a, from) == group_failure(kind, b, from),
    decreases a.rows@.len() - from,
{
    if from < a.rows@.len() {
        lemma_alike(kind, a, b, from + 1);
        assert(failure_at(kind, a, from) == failure_at(kind, b, from)) by {
            let at = from / CHECKED_ROWS as int;
            assert(at >= 0) by (nonlinear_arith)
                requires
                    at == from / CHECKED_ROWS as int,
                    from >= 0,
                    CHECKED_ROWS == 1024,
            ;
            if at < a.checks@.len() {
                assert(a.checks@[at] is None);
            }
            if at < b.checks@.len() {
                assert(b.checks@[at] is None);
            }
            if from < a.failures@.len() {
                assert(same_failures(a.failures@[from], b.failures@[from]));
                lemma_first_of_alike(a.failures@[from].keys@, b.failures@[from].keys@, 0);
            }
        }
    }
}

/// Binding the expressions before changes nothing: where the bound ones give the same
/// values and fail alike, and nothing is cancelled, an aggregate comes to the same, on
/// rows that fail too. The count of all rows is their number, whatever they hold.
pub proof fn law_bound_as_unbound(
    a: AggregateView,
    unbound: RowGroup,
    bound: RowGroup,
    input_type: Option<Seq<char>>,
)
    requires
        evaluated_alike(unbound, bound),
    ensures
        group_outcome(a, bound, input_type) == group_outcome(a, unbound, input_type),
        a.kind is CountAll ==> group_outcome(a, bound, input_type) == Ok::<
            AggregatedView,
            ErrorView,
        >(AggregatedView::Count(bound.rows@.len())),
{
    lemma_alike(a.kind, unbound, bound, 0);
}

/// Where nothing goes wrong, an aggregate comes to what it does over the rows
/// alone.
pub proof fn law_sound_rows(a: AggregateView, g: RowGroup, input_type: Option<Seq<char>>)
    requires
        forall|i: int| 0 <= i < g.rows@.len() ==> #[trigger] failure_at(a.kind, g, i) is None,
    ensures
        group_outcome(a, g, input_type) == aggregates::aggregate_outcome(a, g.rows@, input_type),
{
    lemma_no_failure(a.kind, g, 0);
}

proof fn lemma_no_failure(kind: AggregateKind, g: RowGroup, from: int)
    requires
        forall|i: int| 0 <= i < g.rows@.len() ==> #[trigger] failure_at(kind, g, i) is None,
    ensures
        group_failure(kind, g, from) is None,
    decreases g.rows@.len() - from,
{
    if 0 <= from < g.rows@.len() {
        assert(failure_at(kind, g, from) is None);
        lemma_no_failure(kind, g, from + 1);
    }
}

/// The first row with which something goes wrong decides, whatever comes after it:
/// its failure is what every aggregate comes to that evaluates its rows and is not
/// refused for its type.
pub proof fn law_first_failure(
    a: AggregateView,
    g: RowGroup,
    input_type: Option<Seq<char>>,
    at: int,
)
    requires
        0 <= at < g.rows@.len(),
        failure_at(a.kind, g, at) is Some,
        forall|i: int| 0 <= i < at ==> #[trigger] failure_at(a.kind, g, i) is None,
        !(a.kind is CountAll),
        !refused_by_type(a, input_type),
    ensures
        group_outcome(a, g, input_type) == Err::<AggregatedView, ErrorView>(
            failure_at(a.kind, g, at)->0,
        ),
{
    lemma_failure_found(a.kind, g, 0, at);
}

proof fn lemma_failure_found(kind: AggregateKind, g: RowGroup, from: int, at: int)
    requires
        0 <= from <= at < g.rows@.len(),
        failure_at(kind, g, at) is Some,
        forall|i: int| 0 <= i < at ==> #[trigger] failure_at(kind, g, i) is None,
    ensures
        group_failure(kind, g, from) == failure_at(kind, g, at),
    decreases at - from,
{
    if from < at {
        assert(failure_at(kind, g, from) is None);
        lemma_failure_found(kind, g, from + 1, at);
    }
}

/// A row that the filter turns away is not evaluated any further: of what goes
/// wrong with it only the filter counts.
pub proof fn law_turned_away(kind: AggregateKind, row: AggregateRow, f: RowFailures, other: RowFailures)
    requires
        !row.accepted,
        failure_view(f.filter) == failure_view(other.filter),
    ensures
        collected_failure(kind, row, f) == collected_failure(kind, row, other),
{
}

} // verus!
