//! What aggregates come to, told from the rows of the group.
use vstd::prelude::*;
use crate::aggregates;
use crate::aggregates::{
    AggregateKind, AggregateParts, AggregateRow, AggregateView, AggregatedView, Datum, JsonRules,
    KeyOrder, ObjectRefusal,
};
use crate::ast::{Function, OrderByOptions};
use crate::error;
use crate::error::{ErrorView, SqlError};
use crate::picks;
use crate::text;

verus! {

/// A value counts: it is not null, or nulls are not left out.
pub open spec fn counts(row: AggregateRow, skip_null: bool) -> bool {
    skip_null ==> !row.value.null
}

/// The row at a place goes into an aggregate of values: its value counts, and under
/// DISTINCT it is the first of its class that does.
pub open spec fn goes_in(
    rows: Seq<AggregateRow>,
    distinct: bool,
    skip_null: bool,
    i: int,
) -> bool {
    &&& counts(rows[i], skip_null)
    &&& distinct ==> forall|j: int|
        0 <= j < i && counts(#[trigger] rows[j], skip_null) ==> rows[j].value.class
            != rows[i].value.class
}

/// The row at a place goes into an aggregate of pairs: its value counts, and under
/// DISTINCT it is the first with its two arguments that does.
pub open spec fn pair_goes_in(
    rows: Seq<AggregateRow>,
    distinct: bool,
    skip_null: bool,
    i: int,
) -> bool {
    &&& counts(rows[i], skip_null)
    &&& distinct ==> forall|j: int|
        0 <= j < i && counts(#[trigger] rows[j], skip_null) ==> !(rows[j].value.class
            == rows[i].value.class && rows[j].other.class == rows[i].other.class)
}

/// The rows are those that go into an aggregate of values, in their order.
pub open spec fn values_picked(
    kept: Seq<AggregateRow>,
    rows: Seq<AggregateRow>,
    distinct: bool,
    skip_null: bool,
) -> bool {
    picks::picked(kept, rows, |i: int| goes_in(rows, distinct, skip_null, i))
}

/// The rows are those that go into an aggregate of pairs, in their order.
pub open spec fn pairs_picked(
    kept: Seq<AggregateRow>,
    rows: Seq<AggregateRow>,
    distinct: bool,
    skip_null: bool,
) -> bool {
    picks::picked(kept, rows, |i: int| pair_goes_in(rows, distinct, skip_null, i))
}

/// The rows are those that the filter of a call accepts, in their order.
pub open spec fn accepted_picked(kept: Seq<AggregateRow>, rows: Seq<AggregateRow>) -> bool {
    picks::picked(kept, rows, |i: int| rows[i].accepted)
}

proof fn lemma_class_listed(rows: Seq<AggregateRow>, distinct: bool, skip_null: bool, class: u64)
    ensures
        aggregates::has_class(aggregates::counted_rows(rows, distinct, skip_null), class)
            <==> exists|j: int|
            0 <= j < rows.len() && counts(#[trigger] rows[j], skip_null) && rows[j].value.class
                == class,
    decreases rows.len(),
{
    if rows.len() > 0 {
        let rest = rows.drop_last();
        let kept = aggregates::counted_rows(rest, distinct, skip_null);
        let all = aggregates::counted_rows(rows, distinct, skip_null);
        let row = rows.last();
        lemma_class_listed(rest, distinct, skip_null, class);
        lemma_class_listed(rest, distinct, skip_null, row.value.class);
        assert(rows[rows.len() - 1] == row);
        assert forall|j: int| 0 <= j < rest.len() implies #[trigger] rest[j] == rows[j] by {}
        if aggregates::has_class(kept, class) {
            let i = choose|i: int| 0 <= i < kept.len() && (#[trigger] kept[i]).value.class == class;
            assert(all[i] == kept[i]);
            let j = choose|j: int|
                0 <= j < rest.len() && counts(#[trigger] rest[j], skip_null) && rest[j].value.class
                    == class;
            assert(rows[j] == rest[j]);
        }
        if aggregates::has_class(all, class) {
            let i = choose|i: int| 0 <= i < all.len() && (#[trigger] all[i]).value.class == class;
            if i < kept.len() {
                assert(kept[i] == all[i]);
            }
        }
        if exists|j: int|
            0 <= j < rows.len() && counts(#[trigger] rows[j], skip_null) && rows[j].value.class
                == class {
            let j = choose|j: int|
                0 <= j < rows.len() && counts(#[trigger] rows[j], skip_null) && rows[j].value.class
                    == class;
            if j < rest.len() {
                assert(rest[j] == rows[j]);
            } else if all.len() > kept.len() {
                assert(all[kept.len() as int] == row);
            }
        }
    }
}

proof fn lemma_counted_rows(rows: Seq<AggregateRow>, distinct: bool, skip_null: bool)
    ensures
        picks::picked(
            aggregates::counted_rows(rows, distinct, skip_null),
            rows,
            |i: int| goes_in(rows, distinct, skip_null, i),
        ),
    decreases rows.len(),
{
    let wanted = |i: int| goes_in(rows, distinct, skip_null, i);
    if rows.len() == 0 {
        picks::lemma_picked_none(
            aggregates::counted_rows(rows, distinct, skip_null),
            rows,
            wanted,
        );
    } else {
        let rest = rows.drop_last();
        let kept = aggregates::counted_rows(rest, distinct, skip_null);
        let before = |i: int| goes_in(rest, distinct, skip_null, i);
        lemma_counted_rows(rest, distinct, skip_null);
        assert forall|i: int| 0 <= i < rest.len() implies (#[trigger] before(i) <==> wanted(i)) by {
            assert(rest[i] == rows[i]);
            assert forall|j: int| 0 <= j < i implies #[trigger] rest[j] == rows[j] by {}
            if goes_in(rest, distinct, skip_null, i) && distinct {
                assert forall|j: int| 0 <= j < i && counts(#[trigger] rows[j], skip_null) implies
                    rows[j].value.class != rows[i].value.class by {
                    assert(rest[j] == rows[j]);
                }
            }
        }
        picks::lemma_picked_alike(kept, rest, before, wanted);
        lemma_class_listed(rest, distinct, skip_null, rows.last().value.class);
        let last = rows.len() - 1;
        assert(wanted(last) <==> !((skip_null && rows.last().value.null) || (distinct
            && aggregates::has_class(kept, rows.last().value.class)))) by {
            if distinct && aggregates::has_class(kept, rows.last().value.class) {
                let j = choose|j: int|
                    0 <= j < rest.len() && counts(#[trigger] rest[j], skip_null)
                        && rest[j].value.class == rows.last().value.class;
                assert(rows[j] == rest[j]);
            }
            if distinct && !aggregates::has_class(kept, rows.last().value.class) {
                assert forall|j: int|
                    0 <= j < last && counts(#[trigger] rows[j], skip_null) implies
                    rows[j].value.class != rows[last].value.class by {
                    assert(rest[j] == rows[j]);
                }
            }
        }
        picks::lemma_picked_next(kept, rows, wanted);
    }
}

proof fn lemma_pair_listed(
    rows: Seq<AggregateRow>,
    distinct: bool,
    skip_null: bool,
    class: u64,
    other: u64,
)
    ensures
        aggregates::has_pair(aggregates::counted_pairs(rows, distinct, skip_null), class, other)
            <==> exists|j: int|
            0 <= j < rows.len() && counts(#[trigger] rows[j], skip_null) && rows[j].value.class
                == class && rows[j].other.class == other,
    decreases rows.len(),
{
    if rows.len() > 0 {
        let rest = rows.drop_last();
        let kept = aggregates::counted_pairs(rest, distinct, skip_null);
        let all = aggregates::counted_pairs(rows, distinct, skip_null);
        let row = rows.last();
        lemma_pair_listed(rest, distinct, skip_null, class, other);
        lemma_pair_listed(rest, distinct, skip_null, row.value.class, row.other.class);
        assert(rows[rows.len() - 1] == row);
        if aggregates::has_pair(kept, class, other) {
            let i = choose|i: int|
                0 <= i < kept.len() && (#[trigger] kept[i]).value.class == class
                    && kept[i].other.class == other;
            assert(all[i] == kept[i]);
            let j = choose|j: int|
                0 <= j < rest.len() && counts(#[trigger] rest[j], skip_null) && rest[j].value.class
                    == class && rest[j].other.class == other;
            assert(rows[j] == rest[j]);
        }
        if aggregates::has_pair(all, class, other) {
            let i = choose|i: int|
                0 <= i < all.len() && (#[trigger] all[i]).value.class == class
                    && all[i].other.class == other;
            if i < kept.len() {
                assert(kept[i] == all[i]);
            }
        }
        if exists|j: int|
            0 <= j < rows.len() && counts(#[trigger] rows[j], skip_null) && rows[j].value.class
                == class && rows[j].other.class == other {
            let j = choose|j: int|
                0 <= j < rows.len() && counts(#[trigger] rows[j], skip_null) && rows[j].value.class
                    == class && rows[j].other.class == other;
            if j < rest.len() {
                assert(rest[j] == rows[j]);
            } else if all.len() > kept.len() {
                assert(all[kept.len() as int] == row);
            }
        }
    }
}

proof fn lemma_counted_pairs(rows: Seq<AggregateRow>, distinct: bool, skip_null: bool)
    ensures
        picks::picked(
            aggregates::counted_pairs(rows, distinct, skip_null),
            rows,
            |i: int| pair_goes_in(rows, distinct, skip_null, i),
        ),
    decreases rows.len(),
{
    let wanted = |i: int| pair_goes_in(rows, distinct, skip_null, i);
    if rows.len() == 0 {
        picks::lemma_picked_none(
            aggregates::counted_pairs(rows, distinct, skip_null),
            rows,
            wanted,
        );
    } else {
        let rest = rows.drop_last();
        let kept = aggregates::counted_pairs(rest, distinct, skip_null);
        let before = |i: int| pair_goes_in(rest, distinct, skip_null, i);
        let row = rows.last();
        lemma_counted_pairs(rest, distinct, skip_null);
        assert forall|i: int| 0 <= i < rest.len() implies (#[trigger] before(i) <==> wanted(i)) by {
            assert(rest[i] == rows[i]);
            assert forall|j: int| 0 <= j < i implies #[trigger] rest[j] == rows[j] by {}
            if pair_goes_in(rest, distinct, skip_null, i) && distinct {
                assert forall|j: int| 0 <= j < i && counts(#[trigger] rows[j], skip_null) implies !(
                rows[j].value.class == rows[i].value.class && rows[j].other.class
                    == rows[i].other.class) by {
                    assert(rest[j] == rows[j]);
                }
            }
        }
        picks::lemma_picked_alike(kept, rest, before, wanted);
        lemma_pair_listed(rest, distinct, skip_null, row.value.class, row.other.class);
        let last = rows.len() - 1;
        let listed = aggregates::has_pair(kept, row.value.class, row.other.class);
        assert(wanted(last) <==> !((skip_null && row.value.null) || (distinct && listed))) by {
            if distinct && listed {
                let j = choose|j: int|
                    0 <= j < rest.len() && counts(#[trigger] rest[j], skip_null)
                        && rest[j].value.class == row.value.class && rest[j].other.class
                        == row.other.class;
                assert(rows[j] == rest[j]);
            }
            if distinct && !listed {
                assert forall|j: int|
                    0 <= j < last && counts(#[trigger] rows[j], skip_null) implies !(
                rows[j].value.class == rows[last].value.class && rows[j].other.class
                    == rows[last].other.class) by {
                    assert(rest[j] == rows[j]);
                }
            }
        }
        picks::lemma_picked_next(kept, rows, wanted);
    }
}

proof fn lemma_accepted_rows(rows: Seq<AggregateRow>)
    ensures
        accepted_picked(aggregates::accepted_rows(rows), rows),
    decreases rows.len(),
{
    let wanted = |i: int| rows[i].accepted;
    if rows.len() == 0 {
        picks::lemma_picked_none(aggregates::accepted_rows(rows), rows, wanted);
    } else {
        let rest = rows.drop_last();
        let before = |i: int| rest[i].accepted;
        lemma_accepted_rows(rest);
        assert forall|i: int| 0 <= i < rest.len() implies (#[trigger] before(i) <==> wanted(i)) by {
            assert(rest[i] == rows[i]);
        }
        picks::lemma_picked_alike(aggregates::accepted_rows(rest), rest, before, wanted);
        picks::lemma_picked_next(aggregates::accepted_rows(rest), rows, wanted);
    }
}

/// Which kind of aggregate yields which kind of result: a sum comes of SUM alone, an
/// average of AVG alone, and so on; object identifiers have neither. A count of rows
/// counts all of them.
pub proof fn law_result_of_each_kind(
    a: AggregateView,
    rows: Seq<AggregateRow>,
    input_type: Option<Seq<char>>,
)
    ensures
        ({
            let r = aggregates::aggregate_outcome(a, rows, input_type);
            let oid = input_type == Some("oid"@);
            &&& (r matches Ok(AggregatedView::SumOf(_))) <==> a.kind == AggregateKind::Sum && !oid
            &&& (r matches Ok(AggregatedView::AverageOf(_))) <==> a.kind == AggregateKind::Avg
                && !oid
            &&& (r matches Ok(AggregatedView::Count(_))) <==> (a.kind == AggregateKind::CountAll
                || a.kind == AggregateKind::CountExpr)
            &&& a.kind == AggregateKind::CountAll ==> r == Ok::<AggregatedView, ErrorView>(
                AggregatedView::Count(rows.len()),
            )
            &&& (r matches Ok(AggregatedView::AllOf(_))) <==> a.kind == AggregateKind::BoolAnd
            &&& (r matches Ok(AggregatedView::AnyOf(_))) <==> a.kind == AggregateKind::BoolOr
            &&& (r matches Ok(AggregatedView::RangeOf(_, _, _))) <==> a.kind
                == AggregateKind::RangeAgg && input_type is Some
            &&& (r matches Ok(AggregatedView::XmlOf(_))) <==> a.kind == AggregateKind::XmlAgg
            &&& (r matches Ok(AggregatedView::Value(_))) ==> a.kind == AggregateKind::Min || a.kind
                == AggregateKind::Max
            &&& (r matches Ok(AggregatedView::Text(_))) ==> a.kind == AggregateKind::StringAgg
            &&& (r matches Ok(AggregatedView::ArrayOf(_))) || (r matches Ok(
                AggregatedView::NestedArrays(_, _),
            )) ==> a.kind == AggregateKind::ArrayAgg
            &&& (r matches Ok(AggregatedView::JsonArrayOf(_))) ==> a.kind == AggregateKind::JsonAgg
                && a.binary
            &&& (r matches Ok(AggregatedView::JsonObjectOf(_))) ==> a.kind
                == AggregateKind::JsonObjectAgg && a.binary
            &&& (r matches Ok(AggregatedView::JsonText(_))) ==> (a.kind == AggregateKind::JsonAgg
                || a.kind == AggregateKind::JsonObjectAgg) && !a.binary
            &&& (r matches Ok(AggregatedView::BadKey(_))) ==> a.kind
                == AggregateKind::JsonObjectAgg
            &&& r is Err ==> ((a.kind == AggregateKind::Sum || a.kind == AggregateKind::Avg) && oid)
                || (a.kind == AggregateKind::RangeAgg && input_type is None) || a.kind
                == AggregateKind::ArrayAgg || a.kind == AggregateKind::JsonObjectAgg
            &&& (a.kind == AggregateKind::Sum && oid) ==> (r matches Err(e) && e.kind
                == error::SqlErrorKind::UndefinedFunction)
            &&& (a.kind == AggregateKind::Avg && oid) ==> (r matches Err(e) && e.kind
                == error::SqlErrorKind::UndefinedFunction)
        }),
{
}

/// The rows that a result is to be computed from.
pub open spec fn rows_of(v: AggregatedView) -> Option<Seq<AggregateRow>> {
    match v {
        AggregatedView::SumOf(rows) => Some(rows),
        AggregatedView::AverageOf(rows) => Some(rows),
        AggregatedView::AllOf(rows) => Some(rows),
        AggregatedView::AnyOf(rows) => Some(rows),
        AggregatedView::RangeOf(rows, _, _) => Some(rows),
        _ => None,
    }
}

/// The result is how many rows go into an aggregate of values.
pub open spec fn counts_values(v: AggregatedView, rows: Seq<AggregateRow>, distinct: bool) -> bool {
    exists|kept: Seq<AggregateRow>| #[trigger]
        values_picked(kept, rows, distinct, true) && v
            == AggregatedView::Count(kept.len())
}

/// A sum, an average, a conjunction, a disjunction and a range are those of the rows
/// whose value is not null, each value once under DISTINCT, in the order of the group;
/// and a count of values counts just those.
pub proof fn law_values_that_go_in(
    a: AggregateView,
    rows: Seq<AggregateRow>,
    input_type: Option<Seq<char>>,
)
    ensures
        match aggregates::aggregate_outcome(a, rows, input_type) {
            Ok(v) => {
                &&& rows_of(v) matches Some(kept) ==> values_picked(kept, rows, a.distinct, true)
                &&& a.kind == AggregateKind::CountExpr ==> counts_values(v, rows, a.distinct)
                &&& v matches AggregatedView::RangeOf(_, t, intersect) ==> input_type == Some(t)
                    && intersect == a.intersect
            },
            Err(_) => true,
        },
{
    lemma_counted_rows(rows, a.distinct, true);
    let kept = aggregates::counted_rows(rows, a.distinct, true);
    assert(values_picked(kept, rows, a.distinct, true));
}

/// The sum of what the rows are worth.
pub open spec fn worth(rows: Seq<AggregateRow>, value: spec_fn(AggregateRow) -> int) -> int
    decreases rows.len(),
{
    if rows.len() == 0 {
        0
    } else {
        worth(rows.drop_last(), value) + value(rows.last())
    }
}

/// What a numeric result is worth, as a numerator and a denominator.
pub open spec fn amount(v: AggregatedView, value: spec_fn(AggregateRow) -> int) -> Option<(int, int)> {
    match v {
        AggregatedView::Count(n) => Some((n as int, 1)),
        AggregatedView::SumOf(rows) => Some((worth(rows, value), 1)),
        AggregatedView::AverageOf(rows) => Some((worth(rows, value), rows.len() as int)),
        _ => None,
    }
}

/// AVG(x) times COUNT(x) is SUM(x), whatever the values are worth, with and without
/// DISTINCT.
pub proof fn law_average_times_count(
    sum: AggregateView,
    average: AggregateView,
    count: AggregateView,
    rows: Seq<AggregateRow>,
    input_type: Option<Seq<char>>,
    value: spec_fn(AggregateRow) -> int,
)
    requires
        sum.kind == AggregateKind::Sum,
        average.kind == AggregateKind::Avg,
        count.kind == AggregateKind::CountExpr,
        sum.distinct == average.distinct,
        sum.distinct == count.distinct,
        input_type != Some("oid"@),
    ensures
        match (
            aggregates::aggregate_outcome(sum, rows, input_type),
            aggregates::aggregate_outcome(average, rows, input_type),
            aggregates::aggregate_outcome(count, rows, input_type),
        ) {
            (Ok(s), Ok(a), Ok(c)) => match (amount(s, value), amount(a, value), amount(c, value)) {
                (Some((s, one)), Some((a, n)), Some((c, unit))) => one == 1 && unit == 1 && n == c
                    && a * c == s * n,
                _ => false,
            },
            _ => false,
        },
{
}

/// A conjunction and a disjunction of a group are of the same values.
pub proof fn law_all_and_any(
    all: AggregateView,
    any: AggregateView,
    rows: Seq<AggregateRow>,
    input_type: Option<Seq<char>>,
)
    requires
        all.kind == AggregateKind::BoolAnd,
        any.kind == AggregateKind::BoolOr,
        all.distinct == any.distinct,
    ensures
        match (
            aggregates::aggregate_outcome(all, rows, input_type),
            aggregates::aggregate_outcome(any, rows, input_type),
        ) {
            (Ok(AggregatedView::AllOf(a)), Ok(AggregatedView::AnyOf(b))) => a == b,
            _ => false,
        },
{
}

/// MIN and MAX are null exactly where every value is, and otherwise a value of the
/// group that is not null. Where the values compare, by their ranks, no value is below
/// the least and none above the greatest.
pub proof fn law_least_and_greatest(
    a: AggregateView,
    rows: Seq<AggregateRow>,
    input_type: Option<Seq<char>>,
)
    requires
        a.kind == AggregateKind::Min || a.kind == AggregateKind::Max,
    ensures
        match aggregates::aggregate_outcome(a, rows, input_type) {
            Ok(AggregatedView::Null) => forall|i: int|
                0 <= i < rows.len() ==> (#[trigger] rows[i]).value.null,
            Ok(AggregatedView::Value(best)) => {
                &&& !best.value.null
                &&& rows.contains(best)
                &&& aggregates::compared_by_rank(rows, a.kind == AggregateKind::Max)
                    ==> forall|i: int|
                    0 <= i < rows.len() && !(#[trigger] rows[i]).value.null ==> if a.kind
                        == AggregateKind::Max {
                        rows[i].value.rank <= best.value.rank
                    } else {
                        rows[i].value.rank >= best.value.rank
                    }
            },
            _ => false,
        },
{
    let greatest = a.kind == AggregateKind::Max;
    let n = rows.len() as int;
    aggregates::law_extreme_row(rows, n, greatest);
    if aggregates::compared_by_rank(rows, greatest) {
        aggregates::law_nothing_beyond_the_extreme(rows, n, greatest);
    }
    if let Some(best) = aggregates::extreme_row(rows, n, greatest) {
        let i = choose|i: int| 0 <= i < n && #[trigger] rows[i] == best;
        assert(rows[i] == best);
    }
}

/// One row more changes the least and the greatest value only where its value is not
/// null and goes beyond: a null, an equal value and one that does not compare leave it.
pub proof fn law_next_extreme(
    a: AggregateView,
    rows: Seq<AggregateRow>,
    row: AggregateRow,
    input_type: Option<Seq<char>>,
)
    requires
        a.kind == AggregateKind::Min || a.kind == AggregateKind::Max,
    ensures
        ({
            let before = aggregates::aggregate_outcome(a, rows, input_type);
            let after = aggregates::aggregate_outcome(a, rows.push(row), input_type);
            if row.value.null {
                after == before
            } else if before == Ok::<AggregatedView, ErrorView>(AggregatedView::Null) {
                after == Ok::<AggregatedView, ErrorView>(AggregatedView::Value(row))
            } else if (a.kind == AggregateKind::Max && row.against_extreme == Some(
                KeyOrder::Greater,
            )) || (a.kind == AggregateKind::Min && row.against_extreme == Some(KeyOrder::Less)) {
                after == Ok::<AggregatedView, ErrorView>(AggregatedView::Value(row))
            } else {
                after == before
            }
        }),
{
    let greatest = a.kind == AggregateKind::Max;
    let more = rows.push(row);
    lemma_extreme_of_first(more, rows, rows.len() as int, greatest);
    assert(more[rows.len() as int] == row);
}

proof fn lemma_extreme_of_first(
    more: Seq<AggregateRow>,
    rows: Seq<AggregateRow>,
    n: int,
    greatest: bool,
)
    requires
        0 <= n <= rows.len() <= more.len(),
        forall|i: int| 0 <= i < n ==> #[trigger] more[i] == rows[i],
    ensures
        aggregates::extreme_row(more, n, greatest) == aggregates::extreme_row(rows, n, greatest),
    decreases n,
{
    if n > 0 {
        lemma_extreme_of_first(more, rows, n - 1, greatest);
        assert(more[n - 1] == rows[n - 1]);
    }
}

/// How two values are ordered: the other way round where they change places, and the
/// other way round again, for values that are not null, where the direction does. Nulls
/// come last going up and first going down, unless the options say where.
pub proof fn law_order_of_values(a: Datum, b: Datum, options: OrderByOptions)
    ensures
        ({
            let o = aggregates::datum_order(a, b, options);
            let back = aggregates::datum_order(b, a, options);
            let down = options.asc == Some(false);
            &&& (o == KeyOrder::Less <==> back == KeyOrder::Greater)
            &&& (o == KeyOrder::Equal <==> back == KeyOrder::Equal)
            &&& !a.null && !b.null ==> {
                &&& (o == KeyOrder::Equal <==> a.rank == b.rank)
                &&& !down ==> (o == KeyOrder::Less <==> a.rank < b.rank)
                &&& down ==> (o == KeyOrder::Less <==> a.rank > b.rank)
            }
            &&& a.null && b.null ==> o == KeyOrder::Equal
            &&& a.null && !b.null ==> o != KeyOrder::Equal && (o == KeyOrder::Less <==> (
            options.nulls_first == Some(true) || (options.nulls_first is None && down)))
        }),
{
}

/// The order of two lists of values is that of the first pair that is ordered; where
/// none is, the lists are equal.
pub proof fn law_order_of_lists(
    a: Seq<Datum>,
    b: Seq<Datum>,
    options: Seq<OrderByOptions>,
    at: int,
)
    requires
        a.len() == options.len(),
        b.len() == options.len(),
        0 <= at <= options.len(),
        forall|k: int|
            0 <= k < at ==> aggregates::datum_order(#[trigger] a[k], b[k], options[k])
                == KeyOrder::Equal,
    ensures
        at == options.len() ==> aggregates::keys_order(a, b, options, 0) == KeyOrder::Equal,
        at < options.len() && aggregates::datum_order(a[at], b[at], options[at]) != KeyOrder::Equal
            ==> aggregates::keys_order(a, b, options, 0) == aggregates::datum_order(
            a[at],
            b[at],
            options[at],
        ),
{
    lemma_order_from(a, b, options, at, at);
}

proof fn lemma_order_from(
    a: Seq<Datum>,
    b: Seq<Datum>,
    options: Seq<OrderByOptions>,
    at: int,
    from: int,
)
    requires
        a.len() == options.len(),
        b.len() == options.len(),
        0 <= from <= at <= options.len(),
        forall|k: int|
            0 <= k < at ==> aggregates::datum_order(#[trigger] a[k], b[k], options[k])
                == KeyOrder::Equal,
    ensures
        aggregates::keys_order(a, b, options, 0) == aggregates::keys_order(a, b, options, from),
    decreases from,
{
    if from > 0 {
        lemma_order_from(a, b, options, at, from - 1);
        assert(aggregates::datum_order(a[from - 1], b[from - 1], options[from - 1])
            == KeyOrder::Equal);
    }
}

/// The rows that an ordered aggregate reads: those that its filter accepts, each as often
/// as it comes, and none before one that is less.
pub open spec fn reads_in_order(
    sorted: Seq<AggregateRow>,
    rows: Seq<AggregateRow>,
    options: Seq<OrderByOptions>,
) -> bool {
    exists|accepted: Seq<AggregateRow>| #[trigger]
        accepted_picked(accepted, rows) && sorted.to_multiset()
            == accepted.to_multiset() && (aggregates::keyed_by(rows, options)
            ==> aggregates::in_order(sorted, options)) && (options.len() == 0 ==> sorted
            == accepted)
}

proof fn lemma_unordered(rows: Seq<AggregateRow>, options: Seq<OrderByOptions>)
    requires
        options.len() == 0,
    ensures
        aggregates::sorted_rows(rows, options) == rows,
    decreases rows.len(),
{
    if rows.len() > 0 {
        lemma_unordered(rows.drop_last(), options);
        let sorted = rows.drop_last();
        if sorted.len() > 0 {
            assert(aggregates::keys_order(rows.last().keys@, sorted.last().keys@, options, 0)
                == KeyOrder::Equal);
        }
        assert(sorted.push(rows.last()) =~= rows);
    }
}

proof fn lemma_inserted_multiset(
    sorted: Seq<AggregateRow>,
    row: AggregateRow,
    options: Seq<OrderByOptions>,
)
    ensures
        aggregates::inserted(sorted, row, options).to_multiset() == sorted.to_multiset().insert(
            row,
        ),
    decreases sorted.len(),
{
    broadcast use vstd::seq_lib::group_to_multiset_ensures;

    if !(sorted.len() == 0 || aggregates::row_order(row, sorted.last(), options)
        != KeyOrder::Less) {
        let rest = sorted.drop_last();
        lemma_inserted_multiset(rest, row, options);
        assert(sorted =~= rest.push(sorted.last()));
        assert(rest.to_multiset().insert(row).insert(sorted.last()) =~= rest.to_multiset().insert(
            sorted.last(),
        ).insert(row));
    }
}

proof fn lemma_sorted_multiset(rows: Seq<AggregateRow>, options: Seq<OrderByOptions>)
    ensures
        aggregates::sorted_rows(rows, options).to_multiset() == rows.to_multiset(),
    decreases rows.len(),
{
    broadcast use vstd::seq_lib::group_to_multiset_ensures;

    if rows.len() == 0 {
        assert(rows =~= Seq::<AggregateRow>::empty());
    } else {
        let rest = rows.drop_last();
        lemma_sorted_multiset(rest, options);
        lemma_inserted_multiset(aggregates::sorted_rows(rest, options), rows.last(), options);
        assert(rows =~= rest.push(rows.last()));
    }
}

proof fn lemma_reads_in_order(a: AggregateView, rows: Seq<AggregateRow>)
    ensures
        reads_in_order(
            aggregates::ordered_rows(rows, a.order_by),
            rows,
            aggregates::options_of(a.order_by),
        ),
{
    let options = aggregates::options_of(a.order_by);
    let accepted = aggregates::accepted_rows(rows);
    lemma_accepted_rows(rows);
    lemma_sorted_multiset(accepted, options);
    picks::lemma_picked_items(accepted, rows, |i: int| rows[i].accepted);
    if aggregates::keyed_by(rows, options) {
        assert(aggregates::keyed_by(accepted, options)) by {
            assert forall|k: int| 0 <= k < accepted.len() implies (#[trigger] accepted[k]).keys@.len()
                == options.len() by {
                let i = choose|i: int|
                    0 <= i < rows.len() && rows[i].accepted && #[trigger] rows[i] == accepted[k];
                assert(rows[i].keys@.len() == options.len());
            }
        }
        aggregates::law_sorted_rows(accepted, options);
    }
    if options.len() == 0 {
        lemma_unordered(accepted, options);
    }
    assert(accepted_picked(accepted, rows));
}

/// The text between a value and the one before it.
pub open spec fn delimiter(row: AggregateRow) -> Seq<char> {
    if row.other.null || row.other_text is None {
        Seq::empty()
    } else {
        row.other_text->0@
    }
}

/// `string_agg` is null where no accepted value is not null. Otherwise it is the
/// concatenation of the values that are not null, each pair of arguments once under
/// DISTINCT, in the order of the call.
pub proof fn law_string_aggregate(
    a: AggregateView,
    rows: Seq<AggregateRow>,
    input_type: Option<Seq<char>>,
)
    requires
        a.kind == AggregateKind::StringAgg,
    ensures
        exists|sorted: Seq<AggregateRow>, kept: Seq<AggregateRow>| #[trigger]
            reads_in_order(sorted, rows, aggregates::options_of(a.order_by)) && #[trigger]
            pairs_picked(kept, sorted, a.distinct, true)
                && aggregates::aggregate_outcome(a, rows, input_type) == Ok::<
                AggregatedView,
                ErrorView,
            >(
                if kept.len() == 0 {
                    AggregatedView::Null
                } else {
                    AggregatedView::Text(aggregates::concatenation(kept))
                },
            ),
{
    let sorted = aggregates::ordered_rows(rows, a.order_by);
    let kept = aggregates::counted_pairs(sorted, a.distinct, true);
    lemma_reads_in_order(a, rows);
    lemma_counted_pairs(sorted, a.distinct, true);
    assert(reads_in_order(sorted, rows, aggregates::options_of(a.order_by)));
    assert(pairs_picked(kept, sorted, a.distinct, true));
}

/// A concatenation of one value is the value, and one of more is made of the
/// concatenations of its parts, with the delimiter of the first value of the second part
/// between them.
pub proof fn law_concatenation(rows: Seq<AggregateRow>, at: int)
    requires
        0 < at < rows.len(),
    ensures
        aggregates::concatenation(seq![rows[0]]) == rows[0].value_text@,
        aggregates::concatenation(rows) == aggregates::concatenation(rows.take(at)) + delimiter(
            rows[at],
        ) + aggregates::concatenation(rows.skip(at)),
    decreases rows.len() - at,
{
    let head = rows.take(at);
    let tail = rows.skip(at);
    if at == rows.len() - 1 {
        assert(rows.drop_last() =~= head);
        assert(tail =~= seq![rows.last()]);
    } else {
        let rest = rows.drop_last();
        law_concatenation(rest, at);
        assert(rest.take(at) =~= head);
        assert(rest.skip(at) =~= tail.drop_last());
        assert(tail.last() == rows.last());
        assert(aggregates::concatenation(rows) =~= aggregates::concatenation(head) + delimiter(
            rows[at],
        ) + (aggregates::concatenation(tail.drop_last()) + aggregates::delimiter_text(rows.last())
            + rows.last().value_text@));
    }
}

/// `json_agg` and `jsonb_agg` are null where no row is accepted, and otherwise an array of
/// the accepted values, each once under DISTINCT and without nulls where they are left
/// out, in the order of the call: of the values themselves for `jsonb_agg`, and as a text
/// in brackets for `json_agg`.
pub proof fn law_json_array(
    a: AggregateView,
    rows: Seq<AggregateRow>,
    input_type: Option<Seq<char>>,
)
    requires
        a.kind == AggregateKind::JsonAgg,
    ensures
        exists|sorted: Seq<AggregateRow>, kept: Seq<AggregateRow>| #[trigger]
            reads_in_order(sorted, rows, aggregates::options_of(a.order_by)) && #[trigger]
            values_picked(kept, sorted, a.distinct, a.strict)
                && aggregates::aggregate_outcome(a, rows, input_type) == Ok::<
                AggregatedView,
                ErrorView,
            >(
                if sorted.len() == 0 {
                    AggregatedView::Null
                } else if a.binary {
                    AggregatedView::JsonArrayOf(kept)
                } else {
                    AggregatedView::JsonText(
                        seq!['['] + text::joined(
                            kept.map_values(|r: AggregateRow| r.value_json@),
                            seq![',', ' '],
                        ) + seq![']'],
                    )
                },
            ),
{
    let sorted = aggregates::ordered_rows(rows, a.order_by);
    let kept = aggregates::counted_rows(sorted, a.distinct, a.strict);
    lemma_reads_in_order(a, rows);
    lemma_counted_rows(sorted, a.distinct, a.strict);
    reveal_strlit("[");
    reveal_strlit("]");
    reveal_strlit(", ");
    assert("["@ =~= seq!['[']);
    assert("]"@ =~= seq![']']);
    assert(", "@ =~= seq![',', ' ']);
    assert(reads_in_order(sorted, rows, aggregates::options_of(a.order_by)));
    assert(values_picked(kept, sorted, a.distinct, a.strict));
    assert(aggregates::json_texts(kept) =~= kept.map_values(|r: AggregateRow| r.value_json@));
}

/// The rows and entries of an object agree: each entry is a row under its key, in the
/// order of the rows, without null values where they are left out.
pub open spec fn makes_entries(
    entries: Seq<(Seq<char>, AggregateRow)>,
    rows: Seq<AggregateRow>,
    strict: bool,
) -> bool {
    picks::picked(
        entries,
        rows.map_values(|r: AggregateRow| (r.other_text->0@, r)),
        |i: int| !(strict && rows[i].value.null),
    )
}

/// What the first rows make up: an object where each has a key and, where keys have to be
/// unique, no two have the same; else the refusal of the first row without a key or with
/// a key that came before.
pub proof fn law_object_entries(
    rows: Seq<AggregateRow>,
    n: int,
    strict: bool,
    unique: bool,
)
    requires
        0 <= n <= rows.len(),
    ensures
        match aggregates::object_entries(rows, n, strict, unique) {
            Ok(entries) => {
                &&& forall|i: int| 0 <= i < n ==> (#[trigger] rows[i]).other_text is Some
                &&& unique ==> forall|i: int, j: int|
                    0 <= i < j < n ==> (#[trigger] rows[i]).other_text->0@ != (
                    #[trigger] rows[j]).other_text->0@
                &&& makes_entries(entries, rows.take(n), strict)
            },
            Err(ObjectRefusal::BadKey(row)) => row.other_text is None && rows.take(n).contains(row),
            Err(ObjectRefusal::DuplicateKey(key)) => unique && exists|i: int, j: int|
                0 <= i < j < n && (#[trigger] rows[i]).other_text is Some && (
                #[trigger] rows[j]).other_text is Some && rows[i].other_text->0@ == key
                    && rows[j].other_text->0@ == key,
        },
    decreases n,
{
    let keyed = |r: AggregateRow| (r.other_text->0@, r);
    if n == 0 {
        picks::lemma_picked_none(
            Seq::<(Seq<char>, AggregateRow)>::empty(),
            rows.take(0).map_values(keyed),
            |i: int| !(strict && rows.take(0)[i].value.null),
        );
    } else {
        law_object_entries(rows, n - 1, strict, unique);
        let row = rows[n - 1];
        let now = rows.take(n);
        let then = rows.take(n - 1);
        assert(now.drop_last() =~= then);
        assert(now.last() == row);
        match aggregates::object_entries(rows, n - 1, strict, unique) {
            Ok(found) => {
                let list = now.map_values(keyed);
                let wanted = |i: int| !(strict && now[i].value.null);
                let before = |i: int| !(strict && then[i].value.null);
                assert(list.drop_last() =~= then.map_values(keyed));
                assert forall|i: int| 0 <= i < list.len() - 1 implies (#[trigger] before(i)
                    <==> wanted(i)) by {
                    assert(now[i] == then[i]);
                }
                picks::lemma_picked_alike(found, list.drop_last(), before, wanted);
                picks::lemma_picked_next(found, list, wanted);
                assert(list.last() == keyed(row));
                assert(now[n - 1] == row);
                if row.other_text is Some && unique && aggregates::has_key_text(
                    then,
                    row.other_text->0@,
                ) {
                    let i = choose|i: int|
                        0 <= i < then.len() && error::view_option((#[trigger] then[i]).other_text)
                            == Some(row.other_text->0@);
                    assert(then[i] == rows[i]);
                }
                if row.other_text is Some && unique && !aggregates::has_key_text(
                    then,
                    row.other_text->0@,
                ) {
                    assert forall|i: int, j: int| 0 <= i < j < n implies (
                    #[trigger] rows[i]).other_text->0@ != (#[trigger] rows[j]).other_text->0@ by {
                        if j == n - 1 {
                            assert(then[i] == rows[i]);
                            assert(error::view_option(then[i].other_text) != Some(
                                row.other_text->0@,
                            ));
                        }
                    }
                }
            },
            Err(ObjectRefusal::BadKey(bad)) => {
                let k = choose|k: int| 0 <= k < then.len() && then[k] == bad;
                assert(now[k] == bad);
            },
            Err(ObjectRefusal::DuplicateKey(_)) => {},
        }
    }
}

/// An object aggregate is null where no row is accepted. Otherwise its object is made of
/// the accepted rows, each pair of arguments once under DISTINCT, in the order of the
/// call; and it is refused where a row has no key, or where keys have to be unique and a
/// key comes twice.
pub proof fn law_json_object(
    a: AggregateView,
    rows: Seq<AggregateRow>,
    input_type: Option<Seq<char>>,
)
    requires
        a.kind == AggregateKind::JsonObjectAgg,
    ensures
        exists|sorted: Seq<AggregateRow>, kept: Seq<AggregateRow>| #[trigger]
            reads_in_order(sorted, rows, aggregates::options_of(a.order_by)) && #[trigger]
            pairs_picked(kept, sorted, a.distinct, false)
                && object_of(
                aggregates::aggregate_outcome(a, rows, input_type),
                sorted,
                kept,
                a.binary,
                a.strict,
                a.unique,
            ),
{
    let sorted = aggregates::ordered_rows(rows, a.order_by);
    let kept = aggregates::counted_pairs(sorted, a.distinct, false);
    lemma_reads_in_order(a, rows);
    lemma_counted_pairs(sorted, a.distinct, false);
    law_object_entries(kept, kept.len() as int, a.strict, a.unique);
    assert(kept.take(kept.len() as int) =~= kept);
    assert(reads_in_order(sorted, rows, aggregates::options_of(a.order_by)));
    assert(pairs_picked(kept, sorted, a.distinct, false));
    let r = aggregates::aggregate_outcome(a, rows, input_type);
    if sorted.len() > 0 && !a.binary {
        if let Ok(entries) = aggregates::object_entries(
            kept,
            kept.len() as int,
            a.strict,
            a.unique,
        ) {
            assert(makes_entries(entries, kept, a.strict));
            reveal_strlit("{ ");
            reveal_strlit(" }");
            assert("{ "@ =~= seq!['{', ' ']);
            assert(" }"@ =~= seq![' ', '}']);
        }
    }
}

/// The outcome is the object of those rows, or its refusal.
pub open spec fn object_of(
    r: Result<AggregatedView, ErrorView>,
    sorted: Seq<AggregateRow>,
    kept: Seq<AggregateRow>,
    binary: bool,
    strict: bool,
    unique: bool,
) -> bool {
    let keyless = exists|k: int| 0 <= k < kept.len() && (#[trigger] kept[k]).other_text is None;
    match r {
        Ok(AggregatedView::Null) => sorted.len() == 0,
        Ok(AggregatedView::JsonObjectOf(entries)) => binary && sorted.len() > 0 && !keyless
            && makes_entries(entries, kept, strict),
        Ok(AggregatedView::JsonText(t)) => !binary && sorted.len() > 0 && !keyless && exists|
            entries: Seq<(Seq<char>, AggregateRow)>,
        | #[trigger]
            makes_entries(entries, kept, strict) && t == seq!['{', ' '] + text::joined(
                aggregates::entry_texts(entries),
                ", "@,
            ) + seq![' ', '}'],
        Ok(AggregatedView::BadKey(row)) => row.other_text is None && kept.contains(row),
        Err(e) => unique && e.code == "22030"@,
        _ => false,
    }
}

proof fn lemma_first_value(rows: Seq<AggregateRow>, from: int)
    requires
        0 <= from <= rows.len(),
    ensures
        match aggregates::first_value(rows, from) {
            Some(row) => exists|i: int|
                from <= i < rows.len() && #[trigger] rows[i] == row && !row.value.null && forall|
                    j: int,
                |
                    from <= j < i ==> (#[trigger] rows[j]).value.null,
            None => forall|j: int| from <= j < rows.len() ==> (#[trigger] rows[j]).value.null,
        },
    decreases rows.len() - from,
{
    if from < rows.len() {
        if rows[from].value.null {
            lemma_first_value(rows, from + 1);
        } else {
            assert(rows[from] == rows[from]);
        }
    }
}

/// An array that may be one of others: it is not empty.
pub open spec fn is_full_array(row: AggregateRow) -> bool {
    !row.value.null && row.value_shape is Some && row.value_shape->0.dimensions@.len() > 0
}

proof fn lemma_accumulation(rows: Seq<AggregateRow>, from: int)
    requires
        0 <= from <= rows.len(),
        forall|i: int| 0 <= i < from ==> is_full_array(#[trigger] rows[i]),
    ensures
        aggregates::accumulation_error(rows, from) is None <==> forall|i: int|
            from <= i < rows.len() ==> is_full_array(#[trigger] rows[i])
                && aggregates::same_shape(rows[0].value_shape->0, rows[i].value_shape->0),
    decreases rows.len() - from,
{
    if from < rows.len() && is_full_array(rows[from]) {
        lemma_accumulation(rows, from + 1);
    }
}

/// `array_agg` is null where no row is accepted. Where the first value that is not null
/// is no array, it is the array of the accepted values, nulls among them, each once under
/// DISTINCT, in the order of the call. Where it is one, it is an array of one more
/// dimension, which begins at one, exactly where all of them are arrays of the same shape
/// that are not empty.
pub proof fn law_array_aggregate(
    a: AggregateView,
    rows: Seq<AggregateRow>,
    input_type: Option<Seq<char>>,
)
    requires
        a.kind == AggregateKind::ArrayAgg,
    ensures
        exists|sorted: Seq<AggregateRow>, kept: Seq<AggregateRow>| #[trigger]
            reads_in_order(sorted, rows, aggregates::options_of(a.order_by)) && #[trigger]
            values_picked(kept, sorted, a.distinct, false)
                && array_of(aggregates::aggregate_outcome(a, rows, input_type), sorted, kept),
{
    let sorted = aggregates::ordered_rows(rows, a.order_by);
    let kept = aggregates::counted_rows(sorted, a.distinct, false);
    lemma_reads_in_order(a, rows);
    lemma_counted_rows(sorted, a.distinct, false);
    assert(reads_in_order(sorted, rows, aggregates::options_of(a.order_by)));
    assert(values_picked(kept, sorted, a.distinct, false));
    lemma_first_value(kept, 0);
    lemma_accumulation(kept, 0);
    if sorted.len() > 0 {
        match aggregates::first_value(kept, 0) {
            Some(row) => {
                let i = choose|i: int|
                    0 <= i < kept.len() && #[trigger] kept[i] == row && !row.value.null && forall|
                        j: int,
                    |
                        0 <= j < i ==> (#[trigger] kept[j]).value.null;
                assert(first_at(kept, i));
                assert forall|k: int| #[trigger] first_at(kept, k) implies k == i by {
                    if k < i {
                        assert(kept[k].value.null);
                    } else if i < k {
                        assert(kept[i].value.null);
                    }
                }
            },
            None => {
                assert forall|k: int| !(#[trigger] first_at(kept, k)) by {}
            },
        }
        let whole = forall|i: int|
            0 <= i < kept.len() ==> is_full_array(#[trigger] kept[i]) && aggregates::same_shape(
                kept[0].value_shape->0,
                kept[i].value_shape->0,
            );
        let r = aggregates::aggregate_outcome(a, rows, input_type);
        match r {
            Ok(AggregatedView::NestedArrays(list, bounds)) => {
                assert(whole);
                assert(bounds.skip(1) =~= kept[0].value_shape->0.bounds@);
            },
            Err(e) => {
                assert(!whole);
            },
            _ => {},
        }
        assert(array_of(r, sorted, kept));
    }
}

/// The first value that is not null stands there.
pub open spec fn first_at(kept: Seq<AggregateRow>, i: int) -> bool {
    0 <= i < kept.len() && !kept[i].value.null && forall|j: int|
        0 <= j < i ==> (#[trigger] kept[j]).value.null
}

/// The outcome is the array of those rows, or its refusal.
pub open spec fn array_of(
    r: Result<AggregatedView, ErrorView>,
    sorted: Seq<AggregateRow>,
    kept: Seq<AggregateRow>,
) -> bool {
    let nested = exists|i: int| #[trigger] first_at(kept, i) && kept[i].value_shape is Some;
    let alike = forall|i: int|
        0 <= i < kept.len() ==> is_full_array(#[trigger] kept[i])
            && kept[i].value_shape->0.dimensions@ == kept[0].value_shape->0.dimensions@
            && kept[i].value_shape->0.bounds@ == kept[0].value_shape->0.bounds@;
    match r {
        Ok(AggregatedView::Null) => sorted.len() == 0,
        Ok(AggregatedView::ArrayOf(list)) => sorted.len() > 0 && list == kept && !nested,
        Ok(AggregatedView::NestedArrays(list, bounds)) => sorted.len() > 0 && list == kept && nested
            && alike && bounds.len() == kept[0].value_shape->0.bounds@.len() + 1 && bounds[0] == 1
            && bounds.skip(1) == kept[0].value_shape->0.bounds@,
        Err(e) => sorted.len() > 0 && nested && !alike,
        _ => false,
    }
}

proof fn lemma_aggregate_names()
    ensures
        "count"@.len() == 5 && "count"@[0] == 'c',
        "sum"@.len() == 3 && "sum"@[0] == 's',
        "avg"@.len() == 3 && "avg"@[0] == 'a',
        "min"@.len() == 3 && "min"@[0] == 'm' && "min"@[1] == 'i',
        "max"@.len() == 3 && "max"@[0] == 'm' && "max"@[1] == 'a',
        "array_agg"@.len() == 9 && "array_agg"@[0] == 'a',
        "xmlagg"@.len() == 6,
        "bool_or"@.len() == 7,
        "bool_and"@.len() == 8,
        "every"@.len() == 5 && "every"@[0] == 'e',
        "string_agg"@.len() == 10,
        "range_agg"@.len() == 9 && "range_agg"@[0] == 'r',
        "range_intersect_agg"@.len() == 19,
        "pg_catalog."@.len() == 11 && "pg_catalog."@[0] == 'p',
        "_encoding_error"@.len() == 15 && "_encoding_error"@[14] == 'r',
        "range_intersect_agg"@[0] == 'r' && "range_intersect_agg"@[18] == 'g',
{
    reveal_strlit("pg_catalog.");
    reveal_strlit("_encoding_error");
    reveal_strlit("count");
    reveal_strlit("sum");
    reveal_strlit("avg");
    reveal_strlit("min");
    reveal_strlit("max");
    reveal_strlit("array_agg");
    reveal_strlit("xmlagg");
    reveal_strlit("bool_or");
    reveal_strlit("bool_and");
    reveal_strlit("every");
    reveal_strlit("string_agg");
    reveal_strlit("range_agg");
    reveal_strlit("range_intersect_agg");
}

/// The aggregate that a call by its plain name denotes is of the kind of that name,
/// over the argument of the call and with its DISTINCT; the least and the greatest
/// value are the same with and without it. Its column goes by the name of the
/// function, `every` by that of `bool_and`.
pub proof fn law_called_aggregate(
    f: Function,
    rules: JsonRules,
    parts: Result<AggregateParts, SqlError>,
    argument: Seq<char>,
)
    requires
        rules.array_flags is None,
        rules.object_flags is None,
    ensures
        ({
            let n = text::lower(f.name@);
            match aggregates::denoted_aggregate(f, rules, parts) {
                Ok(a) => {
                    &&& n == "count"@ ==> (f.star ==> a.kind == AggregateKind::CountAll) && (!f.star
                        ==> a.kind == AggregateKind::CountExpr)
                    &&& n == "sum"@ ==> a.kind == AggregateKind::Sum
                    &&& n == "avg"@ ==> a.kind == AggregateKind::Avg
                    &&& n == "min"@ ==> a.kind == AggregateKind::Min
                    &&& n == "max"@ ==> a.kind == AggregateKind::Max
                    &&& n == "bool_or"@ ==> a.kind == AggregateKind::BoolOr
                    &&& n == "bool_and"@ || n == "every"@ ==> a.kind == AggregateKind::BoolAnd
                    &&& n == "string_agg"@ ==> a.kind == AggregateKind::StringAgg
                    &&& n == "array_agg"@ ==> a.kind == AggregateKind::ArrayAgg
                    &&& n == "xmlagg"@ ==> a.kind == AggregateKind::XmlAgg && !a.distinct
                    &&& n == "range_agg"@ ==> a.kind == AggregateKind::RangeAgg && !a.intersect
                    &&& n == "range_intersect_agg"@ ==> a.kind == AggregateKind::RangeAgg
                        && a.intersect
                    &&& n == "sum"@ || n == "avg"@ || n == "bool_or"@ || n == "bool_and"@ || n
                        == "range_agg"@ || (n == "count"@ && !f.star) ==> f.args@.len() == 1
                        && a.expr == Some(f.args@[0]) && a.distinct == f.distinct
                    &&& n == "min"@ || n == "max"@ ==> f.args@.len() == 1 && a.expr == Some(
                        f.args@[0],
                    ) && !a.distinct
                    &&& n == "string_agg"@ || n == "array_agg"@ || n == "xmlagg"@ ==> parts is Ok
                        && a.expr == Some(*parts->Ok_0.expr) && a.order_by
                        == parts->Ok_0.order_by@ && a.distinct == parts->Ok_0.distinct
                        && match f.filter {
                        Some(filter) => a.filter == Some(*filter),
                        None => a.filter is None,
                    }
                    &&& n == "sum"@ || n == "avg"@ || n == "min"@ || n == "max"@ || n == "bool_or"@
                        || n == "bool_and"@ || n == "string_agg"@ || n == "array_agg"@ || n
                        == "xmlagg"@ || n == "range_agg"@ || n == "range_intersect_agg"@
                        ==> aggregates::aggregate_column_name(a, argument) == n
                },
                Err(_) => n == "sum"@ || n == "avg"@ || n == "min"@ || n == "max"@ || n
                    == "bool_or"@ || n == "bool_and"@ || n == "every"@ || n == "range_agg"@ || n
                    == "range_intersect_agg"@ || (n == "count"@ && !f.star) ==> f.args@.len() != 1,
            }
        }),
        text::lower(f.name@) == "count"@ && f.star ==> aggregates::denoted_aggregate(
            f,
            rules,
            parts,
        ) is Ok,
{
    lemma_aggregate_names();
    let n = text::lower(f.name@);
    let suffix = "_encoding_error"@;
    let prefix = "pg_catalog."@;
    if n == "range_intersect_agg"@ {
        assert(!text::ends_with(n, suffix)) by {
            if text::ends_with(n, suffix) {
                assert(n.skip(n.len() - suffix.len())[14] == n[18]);
            }
        }
        assert(!text::starts_with(n, prefix)) by {
            if text::starts_with(n, prefix) {
                assert(n.take(11)[0] == n[0]);
            }
        }
    }
}

} // verus!
