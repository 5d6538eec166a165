//! Row aggregates: which aggregate a call denotes, and what it comes to over
//! the evaluated rows of a group.
//!
//! The engine evaluates expressions row by row; an aggregate reads of a value
//! whether it is null, the class of values it is not distinct from, its rank in
//! the order of values, and its texts.
use vstd::prelude::*;
use crate::ast::{Expr, ExprKind, Function, OrderByExpr, OrderByOptions};
use crate::catalog_columns;
use crate::error;
use crate::error::{ErrorView, SqlError};
use crate::json;
use crate::text;

verus! {

/// What the aggregates read of an evaluated value.
#[derive(Clone, Copy, Debug)]
pub struct Datum {
    pub null: bool,
    pub class: u64,
    pub rank: i64,
}

/// The dimensions and the lower bounds of an array value.
#[derive(Clone, Debug)]
pub struct ArrayShape {
    pub dimensions: Vec<u64>,
    pub bounds: Vec<i64>,
}

/// One row of a group as the engine evaluated it: whether the filter of the
/// call accepts it, the aggregated value with its text, its JSON text and its
/// shape where it is an array; the other argument of the call (the delimiter of
/// `string_agg`, the key of `json_object_agg`) with its text, which is `None`
/// where it cannot be a key; the values that the call orders by; and, for the least or
/// the greatest value, how the value compares with the one that was it before, where the
/// two compare.
#[derive(Debug)]
pub struct AggregateRow {
    pub accepted: bool,
    pub value: Datum,
    pub value_text: String,
    pub value_json: String,
    pub value_shape: Option<ArrayShape>,
    pub other: Datum,
    pub other_text: Option<String>,
    pub keys: Vec<Datum>,
    pub against_extreme: Option<KeyOrder>,
}

/// How two rows are ordered.
#[derive(Clone, Copy, Debug, PartialEq, Eq, Structural)]
pub enum KeyOrder {
    Less,
    Equal,
    Greater,
}

pub open spec fn is_ascending(options: OrderByOptions) -> bool {
    options.asc != Some(false)
}

/// Nulls come last in ascending order and first in descending order, unless the
/// options say otherwise.
pub open spec fn nulls_come_first(options: OrderByOptions) -> bool {
    match options.nulls_first {
        Some(first) => first,
        None => !is_ascending(options),
    }
}

pub open spec fn reversed(o: KeyOrder) -> KeyOrder {
    match o {
        KeyOrder::Less => KeyOrder::Greater,
        KeyOrder::Equal => KeyOrder::Equal,
        KeyOrder::Greater => KeyOrder::Less,
    }
}

/// The order of two values under the options of an ORDER BY item.
pub open spec fn datum_order(a: Datum, b: Datum, options: OrderByOptions) -> KeyOrder {
    if a.null && b.null {
        KeyOrder::Equal
    } else if a.null {
        if nulls_come_first(options) {
            KeyOrder::Less
        } else {
            KeyOrder::Greater
        }
    } else if b.null {
        if nulls_come_first(options) {
            KeyOrder::Greater
        } else {
            KeyOrder::Less
        }
    } else {
        let natural = if a.rank < b.rank {
            KeyOrder::Less
        } else if a.rank > b.rank {
            KeyOrder::Greater
        } else {
            KeyOrder::Equal
        };
        if is_ascending(options) {
            natural
        } else {
            reversed(natural)
        }
    }
}

/// The order of two lists of values: that of the first pair that is ordered.
pub open spec fn keys_order(
    a: Seq<Datum>,
    b: Seq<Datum>,
    options: Seq<OrderByOptions>,
    from: int,
) -> KeyOrder
    decreases options.len() - from,
{
    if from < 0 || from >= a.len() || from >= b.len() || from >= options.len() {
        KeyOrder::Equal
    } else {
        let o = datum_order(a[from], b[from], options[from]);
        if o != KeyOrder::Equal {
            o
        } else {
            keys_order(a, b, options, from + 1)
        }
    }
}

pub open spec fn row_order(
    a: AggregateRow,
    b: AggregateRow,
    options: Seq<OrderByOptions>,
) -> KeyOrder {
    keys_order(a.keys@, b.keys@, options, 0)
}

pub open spec fn options_of(order_by: Seq<OrderByExpr>) -> Seq<OrderByOptions> {
    order_by.map_values(|o: OrderByExpr| o.options)
}

/// The order of two values under the options of an ORDER BY item.
pub fn order_value_ordering(a: Datum, b: Datum, options: OrderByOptions) -> (r: KeyOrder)
    ensures
        r == datum_order(a, b, options),
{
    let ascending: bool = match options.asc {
        Some(asc) => asc,
        None => true,
    };
    let nulls_first: bool = match options.nulls_first {
        Some(first) => first,
        None => !ascending,
    };
    if a.null && b.null {
        KeyOrder::Equal
    } else if a.null {
        if nulls_first {
            KeyOrder::Less
        } else {
            KeyOrder::Greater
        }
    } else if b.null {
        if nulls_first {
            KeyOrder::Greater
        } else {
            KeyOrder::Less
        }
    } else if a.rank == b.rank {
        KeyOrder::Equal
    } else if (a.rank < b.rank) == ascending {
        KeyOrder::Less
    } else {
        KeyOrder::Greater
    }
}

/// The order of two rows by the values that a call orders by.
pub fn aggregate_key_ordering(a: &Vec<Datum>, b: &Vec<Datum>, order_by: &Vec<OrderByExpr>) -> (r:
    KeyOrder)
    ensures
        r == keys_order(a@, b@, options_of(order_by@), 0),
{
    let ghost options = options_of(order_by@);
    let mut i: usize = 0;
    while i < a.len() && i < b.len() && i < order_by.len()
        invariant
            options == options_of(order_by@),
            i <= a.len(),
            i <= b.len(),
            i <= order_by.len(),
            keys_order(a@, b@, options, 0) == keys_order(a@, b@, options, i as int),
        decreases order_by.len() - i,
    {
        let o = order_value_ordering(a[i], b[i], order_by[i].options);
        if o != KeyOrder::Equal {
            return o;
        }
        i = i + 1;
    }
    KeyOrder::Equal
}

/// Rows in order with one more row put in, behind those it is not less than.
pub open spec fn inserted(
    sorted: Seq<AggregateRow>,
    row: AggregateRow,
    options: Seq<OrderByOptions>,
) -> Seq<AggregateRow>
    decreases sorted.len(),
{
    if sorted.len() == 0 || row_order(row, sorted.last(), options) != KeyOrder::Less {
        sorted.push(row)
    } else {
        inserted(sorted.drop_last(), row, options).push(sorted.last())
    }
}

/// The rows in the order of their keys; rows that are not ordered stay in the
/// order they came in.
pub open spec fn sorted_rows(
    rows: Seq<AggregateRow>,
    options: Seq<OrderByOptions>,
) -> Seq<AggregateRow>
    decreases rows.len(),
{
    if rows.len() == 0 {
        Seq::empty()
    } else {
        inserted(sorted_rows(rows.drop_last(), options), rows.last(), options)
    }
}

/// The rows that borrowed rows are.
pub open spec fn derefs(v: Seq<&AggregateRow>) -> Seq<AggregateRow> {
    v.map_values(|r: &AggregateRow| *r)
}

proof fn lemma_inserted_from(
    sorted: Seq<AggregateRow>,
    row: AggregateRow,
    options: Seq<OrderByOptions>,
    at: int,
)
    requires
        0 <= at <= sorted.len(),
        at == 0 || row_order(row, sorted[at - 1], options) != KeyOrder::Less,
        forall|k: int|
            at <= k < sorted.len() ==> row_order(row, #[trigger] sorted[k], options)
                == KeyOrder::Less,
    ensures
        inserted(sorted, row, options) == sorted.insert(at, row),
    decreases sorted.len(),
{
    if at == sorted.len() {
        assert(sorted.insert(at, row) =~= sorted.push(row));
        if sorted.len() > 0 {
            assert(sorted.last() == sorted[at - 1]);
        }
    } else {
        let rest = sorted.drop_last();
        assert(sorted.last() == sorted[sorted.len() - 1]);
        assert forall|k: int| at <= k < rest.len() implies row_order(
            row,
            #[trigger] rest[k],
            options,
        ) == KeyOrder::Less by {
            assert(rest[k] == sorted[k]);
        }
        lemma_inserted_from(rest, row, options, at);
        assert(rest.insert(at, row).push(sorted.last()) =~= sorted.insert(at, row));
    }
}

/// The rows in the order of their keys.
fn sort_rows<'a>(rows: Vec<&'a AggregateRow>, order_by: &Vec<OrderByExpr>) -> (r: Vec<
    &'a AggregateRow,
>)
    ensures
        derefs(r@) == sorted_rows(derefs(rows@), options_of(order_by@)),
{
    let ghost all = derefs(rows@);
    let ghost options = options_of(order_by@);
    let mut out: Vec<&'a AggregateRow> = Vec::new();
    let mut i: usize = 0;
    assert(all.take(0) =~= Seq::<AggregateRow>::empty());
    assert(derefs(out@) =~= sorted_rows(all.take(0), options));
    while i < rows.len()
        invariant
            i <= rows.len(),
            all == derefs(rows@),
            options == options_of(order_by@),
            derefs(out@) == sorted_rows(all.take(i as int), options),
        decreases rows.len() - i,
    {
        let row = rows[i];
        let ghost sorted = derefs(out@);
        let mut at: usize = out.len();
        while at > 0 && aggregate_key_ordering(&row.keys, &out[at - 1].keys, order_by)
            == KeyOrder::Less
            invariant
                at <= out.len(),
                sorted == derefs(out@),
                options == options_of(order_by@),
                forall|k: int|
                    at <= k < sorted.len() ==> row_order(*row, #[trigger] sorted[k], options)
                        == KeyOrder::Less,
            decreases at,
        {
            assert(sorted[at - 1] == *out@[at - 1]);
            at = at - 1;
        }
        proof {
            if at > 0 {
                assert(sorted[at - 1] == *out@[at - 1]);
            }
            lemma_inserted_from(sorted, *row, options, at as int);
            assert(all.take(i as int + 1).drop_last() =~= all.take(i as int));
            assert(all.take(i as int + 1).last() == *row);
        }
        out.insert(at, row);
        assert(derefs(out@) =~= sorted.insert(at as int, *row));
        i = i + 1;
    }
    assert(all.take(all.len() as int) =~= all);
    out
}

proof fn lemma_datum_order(a: Datum, b: Datum, c: Datum, options: OrderByOptions)
    requires
        datum_order(a, b, options) != KeyOrder::Greater,
        datum_order(b, c, options) != KeyOrder::Greater,
    ensures
        datum_order(a, c, options) != KeyOrder::Greater,
        datum_order(a, c, options) == KeyOrder::Equal ==> datum_order(a, b, options)
            == KeyOrder::Equal && datum_order(b, c, options) == KeyOrder::Equal,
        datum_order(a, b, options) == KeyOrder::Equal && datum_order(b, c, options)
            == KeyOrder::Equal ==> datum_order(a, c, options) == KeyOrder::Equal,
{
}

proof fn lemma_keys_order(
    a: Seq<Datum>,
    b: Seq<Datum>,
    c: Seq<Datum>,
    options: Seq<OrderByOptions>,
    from: int,
)
    requires
        0 <= from,
        a.len() == options.len(),
        b.len() == options.len(),
        c.len() == options.len(),
        keys_order(a, b, options, from) != KeyOrder::Greater,
        keys_order(b, c, options, from) != KeyOrder::Greater,
    ensures
        keys_order(a, c, options, from) != KeyOrder::Greater,
    decreases options.len() - from,
{
    if from < options.len() {
        lemma_datum_order(a[from], b[from], c[from], options[from]);
        if datum_order(a[from], c[from], options[from]) == KeyOrder::Equal {
            lemma_keys_order(a, b, c, options, from + 1);
        }
    }
}

proof fn lemma_keys_order_reversed(
    a: Seq<Datum>,
    b: Seq<Datum>,
    options: Seq<OrderByOptions>,
    from: int,
)
    ensures
        keys_order(a, b, options, from) == reversed(keys_order(b, a, options, from)),
    decreases options.len() - from,
{
    if !(from < 0 || from >= a.len() || from >= b.len() || from >= options.len()) {
        lemma_keys_order_reversed(a, b, options, from + 1);
    }
}

/// Each row has one value for each item that it is ordered by.
pub open spec fn keyed_by(rows: Seq<AggregateRow>, options: Seq<OrderByOptions>) -> bool {
    forall|i: int| 0 <= i < rows.len() ==> (#[trigger] rows[i]).keys@.len() == options.len()
}

/// No row is greater than a later one.
pub open spec fn in_order(rows: Seq<AggregateRow>, options: Seq<OrderByOptions>) -> bool {
    forall|i: int, j: int|
        0 <= i < j < rows.len() ==> row_order(#[trigger] rows[i], #[trigger] rows[j], options)
            != KeyOrder::Greater
}

proof fn lemma_inserted_in_order(
    sorted: Seq<AggregateRow>,
    row: AggregateRow,
    options: Seq<OrderByOptions>,
)
    requires
        in_order(sorted, options),
        keyed_by(sorted, options),
        row.keys@.len() == options.len(),
    ensures
        in_order(inserted(sorted, row, options), options),
        keyed_by(inserted(sorted, row, options), options),
        inserted(sorted, row, options).to_multiset() == sorted.to_multiset().insert(row),
        forall|i: int|
            0 <= i < inserted(sorted, row, options).len() ==> #[trigger] inserted(
                sorted,
                row,
                options,
            )[i] == row || exists|j: int|
                0 <= j < sorted.len() && inserted(sorted, row, options)[i] == #[trigger] sorted[j],
    decreases sorted.len(),
{
    broadcast use vstd::seq_lib::group_to_multiset_ensures;

    let result = inserted(sorted, row, options);
    if sorted.len() == 0 || row_order(row, sorted.last(), options) != KeyOrder::Less {
        assert(result == sorted.push(row));
        assert forall|i: int| 0 <= i < result.len() implies #[trigger] result[i] == row
            || exists|j: int| 0 <= j < sorted.len() && result[i] == #[trigger] sorted[j] by {
            if i < sorted.len() {
                assert(result[i] == sorted[i]);
            }
        }
        assert forall|i: int, j: int| 0 <= i < j < result.len() implies row_order(
            #[trigger] result[i],
            #[trigger] result[j],
            options,
        ) != KeyOrder::Greater by {
            if j < sorted.len() {
                assert(result[i] == sorted[i] && result[j] == sorted[j]);
            } else {
                assert(result[i] == sorted[i] && result[j] == row);
                lemma_keys_order_reversed(row.keys@, sorted.last().keys@, options, 0);
                if i < sorted.len() - 1 {
                    assert(sorted.last() == sorted[sorted.len() - 1]);
                    lemma_keys_order(
                        sorted[i].keys@,
                        sorted.last().keys@,
                        row.keys@,
                        options,
                        0,
                    );
                }
            }
        }
    } else {
        let rest = sorted.drop_last();
        assert forall|i: int, j: int| 0 <= i < j < rest.len() implies row_order(
            #[trigger] rest[i],
            #[trigger] rest[j],
            options,
        ) != KeyOrder::Greater by {
            assert(rest[i] == sorted[i] && rest[j] == sorted[j]);
        }
        lemma_inserted_in_order(rest, row, options);
        let inner = inserted(rest, row, options);
        assert(result == inner.push(sorted.last()));
        assert(sorted =~= rest.push(sorted.last()));
        assert(result.to_multiset() =~= sorted.to_multiset().insert(row));
        assert forall|i: int| 0 <= i < result.len() implies #[trigger] result[i] == row
            || exists|j: int| 0 <= j < sorted.len() && result[i] == #[trigger] sorted[j] by {
            if i < inner.len() {
                assert(result[i] == inner[i]);
                if inner[i] != row {
                    let j = choose|j: int| 0 <= j < rest.len() && inner[i] == #[trigger] rest[j];
                    assert(sorted[j] == rest[j]);
                }
            } else {
                assert(result[i] == sorted[sorted.len() - 1]);
            }
        }
        assert forall|i: int, j: int| 0 <= i < j < result.len() implies row_order(
            #[trigger] result[i],
            #[trigger] result[j],
            options,
        ) != KeyOrder::Greater by {
            if j < inner.len() {
                assert(result[i] == inner[i] && result[j] == inner[j]);
            } else {
                assert(result[i] == inner[i] && result[j] == sorted.last());
                if inner[i] != row {
                    let k = choose|k: int| 0 <= k < rest.len() && inner[i] == #[trigger] rest[k];
                    assert(sorted[k] == rest[k]);
                    assert(sorted.last() == sorted[sorted.len() - 1]);
                }
            }
        }
    }
}

/// Sorting keeps the rows and puts no row before one that is less.
pub proof fn law_sorted_rows(rows: Seq<AggregateRow>, options: Seq<OrderByOptions>)
    requires
        keyed_by(rows, options),
    ensures
        in_order(sorted_rows(rows, options), options),
        keyed_by(sorted_rows(rows, options), options),
        sorted_rows(rows, options).to_multiset() == rows.to_multiset(),
    decreases rows.len(),
{
    broadcast use vstd::seq_lib::group_to_multiset_ensures;

    if rows.len() == 0 {
        assert(rows =~= Seq::<AggregateRow>::empty());
    } else {
        let rest = rows.drop_last();
        assert forall|i: int| 0 <= i < rest.len() implies (#[trigger] rest[i]).keys@.len()
            == options.len() by {
            assert(rest[i] == rows[i]);
        }
        law_sorted_rows(rest, options);
        lemma_inserted_in_order(sorted_rows(rest, options), rows.last(), options);
        assert(rows =~= rest.push(rows.last()));
    }
}

/// The rows that the filter of a call accepts, in the order of the call.
pub open spec fn accepted_rows(rows: Seq<AggregateRow>) -> Seq<AggregateRow>
    decreases rows.len(),
{
    if rows.len() == 0 {
        Seq::empty()
    } else {
        let kept = accepted_rows(rows.drop_last());
        if rows.last().accepted {
            kept.push(rows.last())
        } else {
            kept
        }
    }
}

pub open spec fn ordered_rows(
    rows: Seq<AggregateRow>,
    order_by: Seq<OrderByExpr>,
) -> Seq<AggregateRow> {
    sorted_rows(accepted_rows(rows), options_of(order_by))
}

fn borrow_accepted<'a>(rows: &'a Vec<AggregateRow>) -> (r: Vec<&'a AggregateRow>)
    ensures
        derefs(r@) == accepted_rows(rows@),
{
    let mut out: Vec<&'a AggregateRow> = Vec::new();
    let mut i: usize = 0;
    assert(rows@.take(0) =~= Seq::<AggregateRow>::empty());
    assert(derefs(out@) =~= accepted_rows(rows@.take(0)));
    while i < rows.len()
        invariant
            i <= rows.len(),
            derefs(out@) == accepted_rows(rows@.take(i as int)),
        decreases rows.len() - i,
    {
        let ghost prior = out@;
        assert(rows@.take(i as int + 1).drop_last() =~= rows@.take(i as int));
        assert(rows@.take(i as int + 1).last() == rows@[i as int]);
        if rows[i].accepted {
            out.push(&rows[i]);
            assert(derefs(out@) =~= derefs(prior).push(rows@[i as int]));
        }
        i = i + 1;
    }
    assert(rows@.take(rows@.len() as int) =~= rows@);
    out
}

fn ordered_accepted<'a>(rows: &'a Vec<AggregateRow>, order_by: &Vec<OrderByExpr>) -> (r: Vec<
    &'a AggregateRow,
>)
    ensures
        derefs(r@) == ordered_rows(rows@, order_by@),
{
    sort_rows(borrow_accepted(rows), order_by)
}

/// Some row has a value of that class.
pub open spec fn has_class(rows: Seq<AggregateRow>, class: u64) -> bool {
    exists|i: int| 0 <= i < rows.len() && (#[trigger] rows[i]).value.class == class
}

/// The rows whose values go into an aggregate: without the nulls where they are
/// left out, and without those whose value an earlier row has where only
/// distinct values count.
pub open spec fn counted_rows(
    rows: Seq<AggregateRow>,
    distinct: bool,
    skip_null: bool,
) -> Seq<AggregateRow>
    decreases rows.len(),
{
    if rows.len() == 0 {
        Seq::empty()
    } else {
        let kept = counted_rows(rows.drop_last(), distinct, skip_null);
        let row = rows.last();
        if (skip_null && row.value.null) || (distinct && has_class(kept, row.value.class)) {
            kept
        } else {
            kept.push(row)
        }
    }
}

fn class_listed(rows: &Vec<&AggregateRow>, class: u64) -> (r: bool)
    ensures
        r == has_class(derefs(rows@), class),
{
    let mut i: usize = 0;
    while i < rows.len()
        invariant
            i <= rows.len(),
            forall|k: int| 0 <= k < i ==> (#[trigger] derefs(rows@)[k]).value.class != class,
        decreases rows.len() - i,
    {
        assert(derefs(rows@)[i as int] == *rows@[i as int]);
        if rows[i].value.class == class {
            return true;
        }
        i = i + 1;
    }
    false
}

/// Appends a row to the rows that go into an aggregate, unless it is left out.
fn push_aggregate_value<'a>(
    out: &mut Vec<&'a AggregateRow>,
    row: &'a AggregateRow,
    distinct: bool,
    skip_null: bool,
)
    ensures
        derefs(final(out)@) == if (skip_null && row.value.null) || (distinct && has_class(
            derefs(old(out)@),
            row.value.class,
        )) {
            derefs(old(out)@)
        } else {
            derefs(old(out)@).push(*row)
        },
{
    if skip_null && row.value.null {
        return ;
    }
    if distinct && class_listed(out, row.value.class) {
        return ;
    }
    let ghost prior = out@;
    out.push(row);
    assert(derefs(out@) =~= derefs(prior).push(*row));
}

fn count_rows<'a>(rows: &Vec<&'a AggregateRow>, distinct: bool, skip_null: bool) -> (r: Vec<
    &'a AggregateRow,
>)
    ensures
        derefs(r@) == counted_rows(derefs(rows@), distinct, skip_null),
{
    let ghost all = derefs(rows@);
    let mut out: Vec<&'a AggregateRow> = Vec::new();
    let mut i: usize = 0;
    assert(all.take(0) =~= Seq::<AggregateRow>::empty());
    assert(derefs(out@) =~= counted_rows(all.take(0), distinct, skip_null));
    while i < rows.len()
        invariant
            i <= rows.len(),
            all == derefs(rows@),
            derefs(out@) == counted_rows(all.take(i as int), distinct, skip_null),
        decreases rows.len() - i,
    {
        assert(all.take(i as int + 1).drop_last() =~= all.take(i as int));
        assert(all.take(i as int + 1).last() == *rows@[i as int]);
        push_aggregate_value(&mut out, rows[i], distinct, skip_null);
        i = i + 1;
    }
    assert(all.take(all.len() as int) =~= all);
    out
}

fn borrow_all<'a>(rows: &'a Vec<AggregateRow>) -> (r: Vec<&'a AggregateRow>)
    ensures
        derefs(r@) == rows@,
{
    let mut out: Vec<&'a AggregateRow> = Vec::new();
    let mut i: usize = 0;
    while i < rows.len()
        invariant
            i <= rows.len(),
            derefs(out@) == rows@.take(i as int),
        decreases rows.len() - i,
    {
        let ghost prior = out@;
        out.push(&rows[i]);
        assert(derefs(out@) =~= derefs(prior).push(rows@[i as int]));
        assert(rows@.take(i as int + 1) =~= rows@.take(i as int).push(rows@[i as int]));
        i = i + 1;
    }
    assert(rows@.take(rows@.len() as int) =~= rows@);
    out
}

/// The value of the row is beyond the extreme one before it.
pub open spec fn goes_beyond(row: AggregateRow, greatest: bool) -> bool {
    row.against_extreme == Some(
        if greatest {
            KeyOrder::Greater
        } else {
            KeyOrder::Less
        },
    )
}

/// The row with the extreme value among the first `n`: the first one, until a later one
/// goes beyond it. Nulls do not count, and a value that does not compare with the
/// extreme one leaves it.
pub open spec fn extreme_row(rows: Seq<AggregateRow>, n: int, greatest: bool) -> Option<
    AggregateRow,
>
    decreases n,
{
    if n <= 0 || n > rows.len() {
        None
    } else {
        let best = extreme_row(rows, n - 1, greatest);
        let row = rows[n - 1];
        if row.value.null {
            best
        } else {
            match best {
                None => Some(row),
                Some(b) => if goes_beyond(row, greatest) {
                    Some(row)
                } else {
                    Some(b)
                },
            }
        }
    }
}

/// The row with the least or the greatest value.
pub fn row_extreme_value<'a>(rows: &'a Vec<AggregateRow>, greatest: bool) -> (r: Option<
    &'a AggregateRow,
>)
    ensures
        match r {
            Some(row) => extreme_row(rows@, rows@.len() as int, greatest) == Some(*row),
            None => extreme_row(rows@, rows@.len() as int, greatest) is None,
        },
{
    let mut best: Option<&'a AggregateRow> = None;
    let mut i: usize = 0;
    while i < rows.len()
        invariant
            i <= rows.len(),
            match best {
                Some(row) => extreme_row(rows@, i as int, greatest) == Some(*row),
                None => extreme_row(rows@, i as int, greatest) is None,
            },
        decreases rows.len() - i,
    {
        let row = &rows[i];
        if !row.value.null {
            match best {
                None => {
                    best = Some(row);
                },
                Some(_) => {
                    let beyond: bool = match row.against_extreme {
                        Some(KeyOrder::Greater) => greatest,
                        Some(KeyOrder::Less) => !greatest,
                        _ => false,
                    };
                    if beyond {
                        best = Some(row);
                    }
                },
            }
        }
        i = i + 1;
    }
    best
}

/// The rank of a value tells how it compares with the extreme one before it.
pub open spec fn compared_by_rank(rows: Seq<AggregateRow>, greatest: bool) -> bool {
    forall|i: int|
        0 <= i < rows.len() && !(#[trigger] rows[i]).value.null && extreme_row(rows, i, greatest)
            is Some ==> {
            let best = extreme_row(rows, i, greatest)->0;
            rows[i].against_extreme == Some(
                if rows[i].value.rank < best.value.rank {
                    KeyOrder::Less
                } else if rows[i].value.rank > best.value.rank {
                    KeyOrder::Greater
                } else {
                    KeyOrder::Equal
                },
            )
        }
}

/// The extreme row is one of the rows, and there is one exactly when some value is not
/// null.
pub proof fn law_extreme_row(rows: Seq<AggregateRow>, n: int, greatest: bool)
    requires
        0 <= n <= rows.len(),
    ensures
        match extreme_row(rows, n, greatest) {
            Some(best) => !best.value.null && exists|i: int|
                0 <= i < n && #[trigger] rows[i] == best,
            None => forall|i: int| 0 <= i < n ==> (#[trigger] rows[i]).value.null,
        },
    decreases n,
{
    if n > 0 {
        law_extreme_row(rows, n - 1, greatest);
        assert(rows[n - 1] == rows[n - 1]);
        if let Some(best) = extreme_row(rows, n - 1, greatest) {
            let i = choose|i: int| 0 <= i < n - 1 && #[trigger] rows[i] == best;
            assert(rows[i] == best);
        }
    }
}

/// Where all values compare, by their ranks, no row has a value beyond the extreme one.
pub proof fn law_nothing_beyond_the_extreme(rows: Seq<AggregateRow>, n: int, greatest: bool)
    requires
        0 <= n <= rows.len(),
        compared_by_rank(rows, greatest),
    ensures
        forall|i: int|
            0 <= i < n && !(#[trigger] rows[i]).value.null ==> (extreme_row(rows, n, greatest)
                matches Some(best) && if greatest {
                rows[i].value.rank <= best.value.rank
            } else {
                rows[i].value.rank >= best.value.rank
            }),
    decreases n,
{
    if n > 0 {
        law_nothing_beyond_the_extreme(rows, n - 1, greatest);
        assert(rows[n - 1] == rows[n - 1]);
    }
}

/// The aggregates that a call can denote.
#[derive(Clone, Copy, Debug, PartialEq, Eq, Structural)]
pub enum AggregateKind {
    CountAll,
    CountExpr,
    Sum,
    Avg,
    Min,
    Max,
    BoolAnd,
    BoolOr,
    StringAgg,
    ArrayAgg,
    RangeAgg,
    XmlAgg,
    JsonAgg,
    JsonObjectAgg,
}

/// An aggregate with its argument expressions and its options.
#[derive(Debug)]
pub struct RowAggregate<'a> {
    pub kind: AggregateKind,
    pub expr: Option<&'a Expr>,
    pub other: Option<&'a Expr>,
    pub distinct: bool,
    pub intersect: bool,
    pub order_by: Option<&'a Vec<OrderByExpr>>,
    pub filter: Option<&'a Expr>,
    pub binary: bool,
    pub strict: bool,
    pub unique: bool,
    pub standard: bool,
    pub returning: Option<String>,
}

#[verifier::ext_equal]
pub struct AggregateView {
    pub kind: AggregateKind,
    pub expr: Option<Expr>,
    pub other: Option<Expr>,
    pub distinct: bool,
    pub intersect: bool,
    pub order_by: Seq<OrderByExpr>,
    pub filter: Option<Expr>,
    pub binary: bool,
    pub strict: bool,
    pub unique: bool,
    pub standard: bool,
    pub returning: Option<Seq<char>>,
}

pub open spec fn deref_expr(e: Option<&Expr>) -> Option<Expr> {
    match e {
        Some(e) => Some(*e),
        None => None,
    }
}

impl<'a> View for RowAggregate<'a> {
    type V = AggregateView;

    open spec fn view(&self) -> AggregateView {
        AggregateView {
            kind: self.kind,
            expr: deref_expr(self.expr),
            other: deref_expr(self.other),
            distinct: self.distinct,
            intersect: self.intersect,
            order_by: match self.order_by {
                Some(o) => o@,
                None => Seq::empty(),
            },
            filter: deref_expr(self.filter),
            binary: self.binary,
            strict: self.strict,
            unique: self.unique,
            standard: self.standard,
            returning: error::view_option(self.returning),
        }
    }
}

/// What the JSON functions say of a call: the flags of an array aggregate
/// (binary, strict) or of an object aggregate (binary, strict, unique keys) of
/// that name; the strictness and the returned type that the options of the call
/// give, or the error in them; and the error with which the call is answered
/// where its name asks for an output encoding.
#[derive(Debug)]
pub struct JsonRules {
    pub array_flags: Option<(bool, bool)>,
    pub object_flags: Option<(bool, bool, bool)>,
    pub options: Result<(bool, Option<String>), SqlError>,
    pub encoding_error: SqlError,
}

/// The arguments of an aggregate call that takes an ordering: its expression,
/// its second argument where it has one, and whether only distinct values
/// count.
#[derive(Debug)]
pub struct AggregateParts<'a> {
    pub expr: &'a Expr,
    pub other: Option<&'a Expr>,
    pub distinct: bool,
    pub order_by: &'a Vec<OrderByExpr>,
}

/// An aggregate with an argument and no options.
pub open spec fn simple_aggregate(kind: AggregateKind, expr: Option<Expr>) -> AggregateView {
    AggregateView {
        kind,
        expr,
        other: None,
        distinct: false,
        intersect: false,
        order_by: Seq::empty(),
        filter: None,
        binary: false,
        strict: false,
        unique: false,
        standard: false,
        returning: None,
    }
}

/// An aggregate of the call's ordered arguments, with the call's filter.
pub open spec fn ordered_aggregate(
    kind: AggregateKind,
    parts: AggregateParts,
    filter: Option<Box<Expr>>,
) -> AggregateView {
    AggregateView {
        other: deref_expr(parts.other),
        distinct: parts.distinct,
        order_by: parts.order_by@,
        filter: match filter {
            Some(f) => Some(*f),
            None => None,
        },
        ..simple_aggregate(kind, Some(*parts.expr))
    }
}

/// The argument of a call that takes exactly one.
pub open spec fn single_argument(f: Function) -> Result<Expr, ErrorView> {
    if f.args@.len() == 1 {
        Ok(f.args@[0])
    } else {
        Err(error::unsupported_error(f.name@ + " expects exactly one field argument"@))
    }
}

pub open spec fn with_argument(
    f: Function,
    kind: AggregateKind,
    distinct: bool,
    intersect: bool,
) -> Result<AggregateView, ErrorView> {
    match single_argument(f) {
        Ok(e) => Ok(
            AggregateView { distinct, intersect, ..simple_aggregate(kind, Some(e)) },
        ),
        Err(v) => Err(v),
    }
}

/// The JSON aggregate that a call denotes.
pub open spec fn json_aggregate(
    f: Function,
    kind: AggregateKind,
    binary: bool,
    unique: bool,
    standard: bool,
    rules: JsonRules,
    parts: Result<AggregateParts, SqlError>,
) -> Result<AggregateView, ErrorView> {
    match (rules.options, parts) {
        (Err(e), _) => Err(e@),
        (_, Err(e)) => Err(e@),
        (Ok((strict, returning)), Ok(p)) => Ok(
            AggregateView {
                binary,
                strict,
                unique,
                standard,
                returning: error::view_option(returning),
                ..ordered_aggregate(kind, p, f.filter)
            },
        ),
    }
}

/// The aggregate that a call denotes.
pub open spec fn denoted_aggregate(
    f: Function,
    rules: JsonRules,
    parts: Result<AggregateParts, SqlError>,
) -> Result<AggregateView, ErrorView> {
    let name = text::lower(f.name@);
    let plain = catalog_columns::without_catalog(name);
    if text::ends_with(name, "_encoding_error"@) {
        Err(rules.encoding_error@)
    } else if name == "count"@ {
        if f.star {
            Ok(simple_aggregate(AggregateKind::CountAll, None))
        } else {
            with_argument(f, AggregateKind::CountExpr, f.distinct, false)
        }
    } else if rules.array_flags is Some {
        json_aggregate(
            f,
            AggregateKind::JsonAgg,
            (rules.array_flags->0).0,
            false,
            plain == "json_arrayagg"@,
            rules,
            parts,
        )
    } else if rules.object_flags is Some {
        json_aggregate(
            f,
            AggregateKind::JsonObjectAgg,
            (rules.object_flags->0).0,
            (rules.object_flags->0).2,
            plain == "json_objectagg"@ || plain == "json_objectagg_unique"@,
            rules,
            parts,
        )
    } else if plain == "xmlagg"@ {
        match parts {
            Err(e) => Err(e@),
            Ok(p) => if p.distinct {
                Err(
                    error::undefined_function_error(
                        "could not identify an equality operator for type xml"@,
                    ),
                )
            } else {
                Ok(ordered_aggregate(AggregateKind::XmlAgg, p, f.filter))
            },
        }
    } else if plain == "bool_or"@ {
        with_argument(f, AggregateKind::BoolOr, f.distinct, false)
    } else if plain == "bool_and"@ || plain == "every"@ {
        with_argument(f, AggregateKind::BoolAnd, f.distinct, false)
    } else if plain == "string_agg"@ {
        match parts {
            Err(e) => Err(e@),
            Ok(p) => Ok(ordered_aggregate(AggregateKind::StringAgg, p, f.filter)),
        }
    } else if plain == "range_agg"@ {
        with_argument(f, AggregateKind::RangeAgg, f.distinct, false)
    } else if plain == "range_intersect_agg"@ {
        with_argument(f, AggregateKind::RangeAgg, f.distinct, true)
    } else if name == "array_agg"@ {
        match parts {
            Err(e) => Err(e@),
            Ok(p) => Ok(ordered_aggregate(AggregateKind::ArrayAgg, p, f.filter)),
        }
    } else if name == "sum"@ {
        with_argument(f, AggregateKind::Sum, f.distinct, false)
    } else if name == "avg"@ {
        with_argument(f, AggregateKind::Avg, f.distinct, false)
    } else if name == "min"@ {
        with_argument(f, AggregateKind::Min, false, false)
    } else if name == "max"@ {
        with_argument(f, AggregateKind::Max, false, false)
    } else {
        Err(error::unsupported_error("aggregate "@ + name + " is not supported"@))
    }
}

fn simple<'a>(kind: AggregateKind, expr: Option<&'a Expr>) -> (r: RowAggregate<'a>)
    ensures
        r@ == simple_aggregate(kind, deref_expr(expr)),
{
    let r = RowAggregate {
        kind,
        expr,
        other: None,
        distinct: false,
        intersect: false,
        order_by: None,
        filter: None,
        binary: false,
        strict: false,
        unique: false,
        standard: false,
        returning: None,
    };
    assert(r@ =~= simple_aggregate(kind, deref_expr(expr)));
    r
}

fn ordered<'a>(
    kind: AggregateKind,
    parts: AggregateParts<'a>,
    filter: &'a Option<Box<Expr>>,
) -> (r: RowAggregate<'a>)
    ensures
        r@ == ordered_aggregate(kind, parts, *filter),
{
    let mut r = simple(kind, Some(parts.expr));
    r.other = parts.other;
    r.distinct = parts.distinct;
    r.order_by = Some(parts.order_by);
    r.filter = match filter {
        Some(f) => Some(&**f),
        None => None,
    };
    assert(r@ =~= ordered_aggregate(kind, parts, *filter));
    r
}

/// The argument of a call that takes exactly one.
pub fn single_function_expr(function: &Function) -> (r: Result<&Expr, SqlError>)
    ensures
        match (r, single_argument(*function)) {
            (Ok(e), Ok(v)) => *e == v,
            (Err(e), Err(v)) => e@ == v,
            _ => false,
        },
{
    if function.args.len() == 1 {
        Ok(&function.args[0])
    } else {
        Err(
            SqlError::unsupported(
                text::concat(function.name.as_str(), " expects exactly one field argument"),
            ),
        )
    }
}

fn of_argument<'a>(
    function: &'a Function,
    kind: AggregateKind,
    distinct: bool,
    intersect: bool,
) -> (r: Result<RowAggregate<'a>, SqlError>)
    ensures
        aggregate_result(r) == with_argument(*function, kind, distinct, intersect),
{
    match single_function_expr(function) {
        Ok(e) => {
            let mut r = simple(kind, Some(e));
            r.distinct = distinct;
            r.intersect = intersect;
            assert(r@ =~= (AggregateView {
                distinct,
                intersect,
                ..simple_aggregate(kind, Some(*e))
            }));
            Ok(r)
        },
        Err(e) => Err(e),
    }
}

pub open spec fn aggregate_result(r: Result<RowAggregate, SqlError>) -> Result<
    AggregateView,
    ErrorView,
> {
    match r {
        Ok(a) => Ok(a@),
        Err(e) => Err(e@),
    }
}

fn of_parts<'a>(
    function: &'a Function,
    kind: AggregateKind,
    parts: Result<AggregateParts<'a>, SqlError>,
) -> (r: Result<RowAggregate<'a>, SqlError>)
    ensures
        aggregate_result(r) == (match parts {
            Err(e) => Err(e@),
            Ok(p) => Ok(ordered_aggregate(kind, p, function.filter)),
        }),
{
    match parts {
        Ok(p) => Ok(ordered(kind, p, &function.filter)),
        Err(e) => Err(e),
    }
}

fn of_json<'a>(
    function: &'a Function,
    kind: AggregateKind,
    binary: bool,
    unique: bool,
    standard: bool,
    rules: JsonRules,
    parts: Result<AggregateParts<'a>, SqlError>,
) -> (r: Result<RowAggregate<'a>, SqlError>)
    ensures
        aggregate_result(r) == json_aggregate(
            *function,
            kind,
            binary,
            unique,
            standard,
            rules,
            parts,
        ),
{
    match rules.options {
        Err(e) => Err(e),
        Ok((strict, returning)) => match parts {
            Err(e) => Err(e),
            Ok(p) => {
                let mut r = ordered(kind, p, &function.filter);
                r.binary = binary;
                r.strict = strict;
                r.unique = unique;
                r.standard = standard;
                r.returning = returning;
                assert(r@ =~= (AggregateView {
                    binary,
                    strict,
                    unique,
                    standard,
                    returning: error::view_option(returning),
                    ..ordered_aggregate(kind, p, function.filter)
                }));
                Ok(r)
            },
        },
    }
}

impl<'a> RowAggregate<'a> {
    /// The aggregate that a call denotes. `rules` is what the JSON functions
    /// say of the call, `parts` its arguments where it takes an ordering.
    pub fn from_function(
        function: &'a Function,
        rules: JsonRules,
        parts: Result<AggregateParts<'a>, SqlError>,
    ) -> (r: Result<RowAggregate<'a>, SqlError>)
        ensures
            aggregate_result(r) == denoted_aggregate(*function, rules, parts),
    {
        let name = text::to_lower(function.name.as_str());
        let stripped = text::without_prefix(name.as_str(), "pg_catalog.");
        let plain: &str = match &stripped {
            Some(rest) => rest.as_str(),
            None => name.as_str(),
        };
        if text::has_suffix(name.as_str(), "_encoding_error") {
            return Err(rules.encoding_error);
        }
        if text::text_eq(name.as_str(), "count") {
            return if function.star {
                Ok(simple(AggregateKind::CountAll, None))
            } else {
                of_argument(function, AggregateKind::CountExpr, function.distinct, false)
            };
        }
        match rules.array_flags {
            Some(flags) => {
                let standard = text::text_eq(plain, "json_arrayagg");
                return of_json(
                    function,
                    AggregateKind::JsonAgg,
                    flags.0,
                    false,
                    standard,
                    rules,
                    parts,
                );
            },
            None => {},
        }
        match rules.object_flags {
            Some(flags) => {
                let standard = text::text_eq(plain, "json_objectagg") || text::text_eq(
                    plain,
                    "json_objectagg_unique",
                );
                return of_json(
                    function,
                    AggregateKind::JsonObjectAgg,
                    flags.0,
                    flags.2,
                    standard,
                    rules,
                    parts,
                );
            },
            None => {},
        }
        if text::text_eq(plain, "xmlagg") {
            return match parts {
                Err(e) => Err(e),
                Ok(p) => {
                    if p.distinct {
                        Err(
                            SqlError::undefined_function(
                                "could not identify an equality operator for type xml".to_owned(),
                            ),
                        )
                    } else {
                        Ok(ordered(AggregateKind::XmlAgg, p, &function.filter))
                    }
                },
            };
        }
        if text::text_eq(plain, "bool_or") {
            of_argument(function, AggregateKind::BoolOr, function.distinct, false)
        } else if text::text_eq(plain, "bool_and") || text::text_eq(plain, "every") {
            of_argument(function, AggregateKind::BoolAnd, function.distinct, false)
        } else if text::text_eq(plain, "string_agg") {
            of_parts(function, AggregateKind::StringAgg, parts)
        } else if text::text_eq(plain, "range_agg") {
            of_argument(function, AggregateKind::RangeAgg, function.distinct, false)
        } else if text::text_eq(plain, "range_intersect_agg") {
            of_argument(function, AggregateKind::RangeAgg, function.distinct, true)
        } else if text::text_eq(name.as_str(), "array_agg") {
            of_parts(function, AggregateKind::ArrayAgg, parts)
        } else if text::text_eq(name.as_str(), "sum") {
            of_argument(function, AggregateKind::Sum, function.distinct, false)
        } else if text::text_eq(name.as_str(), "avg") {
            of_argument(function, AggregateKind::Avg, function.distinct, false)
        } else if text::text_eq(name.as_str(), "min") {
            of_argument(function, AggregateKind::Min, false, false)
        } else if text::text_eq(name.as_str(), "max") {
            of_argument(function, AggregateKind::Max, false, false)
        } else {
            Err(
                SqlError::unsupported(
                    text::concat3("aggregate ", name.as_str(), " is not supported"),
                ),
            )
        }
    }
}

/// The name of the column that an aggregate yields. `argument` is the column
/// name of the counted expression.
pub open spec fn aggregate_column_name(a: AggregateView, argument: Seq<char>) -> Seq<char> {
    match a.kind {
        AggregateKind::CountAll => "COUNT(*)"@,
        AggregateKind::CountExpr => if a.distinct {
            "COUNT(DISTINCT "@ + argument + ")"@
        } else {
            "COUNT("@ + argument + ")"@
        },
        AggregateKind::Sum => "sum"@,
        AggregateKind::Avg => "avg"@,
        AggregateKind::Min => "min"@,
        AggregateKind::Max => "max"@,
        AggregateKind::BoolAnd => "bool_and"@,
        AggregateKind::BoolOr => "bool_or"@,
        AggregateKind::StringAgg => "string_agg"@,
        AggregateKind::ArrayAgg => "array_agg"@,
        AggregateKind::RangeAgg => if a.intersect {
            "range_intersect_agg"@
        } else {
            "range_agg"@
        },
        AggregateKind::XmlAgg => "xmlagg"@,
        AggregateKind::JsonAgg => if a.standard {
            "json_arrayagg"@
        } else {
            (if a.binary {
                "jsonb_agg"@
            } else {
                "json_agg"@
            }) + (if a.strict {
                "_strict"@
            } else {
                ""@
            })
        },
        AggregateKind::JsonObjectAgg => if a.standard {
            "json_objectagg"@
        } else {
            (if a.binary {
                "jsonb_object_agg"@
            } else {
                "json_object_agg"@
            }) + (if a.unique && a.strict {
                "_unique_strict"@
            } else if a.unique {
                "_unique"@
            } else if a.strict {
                "_strict"@
            } else {
                ""@
            })
        },
    }
}

impl<'a> RowAggregate<'a> {
    /// The name of the column that the aggregate yields. `argument` is the
    /// column name of the counted expression.
    pub fn column_name(&self, argument: &str) -> (r: String)
        ensures
            r@ == aggregate_column_name(self@, argument@),
    {
        match self.kind {
            AggregateKind::CountAll => "COUNT(*)".to_owned(),
            AggregateKind::CountExpr => if self.distinct {
                text::concat3("COUNT(DISTINCT ", argument, ")")
            } else {
                text::concat3("COUNT(", argument, ")")
            },
            AggregateKind::Sum => "sum".to_owned(),
            AggregateKind::Avg => "avg".to_owned(),
            AggregateKind::Min => "min".to_owned(),
            AggregateKind::Max => "max".to_owned(),
            AggregateKind::BoolAnd => "bool_and".to_owned(),
            AggregateKind::BoolOr => "bool_or".to_owned(),
            AggregateKind::StringAgg => "string_agg".to_owned(),
            AggregateKind::ArrayAgg => "array_agg".to_owned(),
            AggregateKind::RangeAgg => if self.intersect {
                "range_intersect_agg".to_owned()
            } else {
                "range_agg".to_owned()
            },
            AggregateKind::XmlAgg => "xmlagg".to_owned(),
            AggregateKind::JsonAgg => if self.standard {
                "json_arrayagg".to_owned()
            } else {
                text::concat(
                    if self.binary {
                        "jsonb_agg"
                    } else {
                        "json_agg"
                    },
                    if self.strict {
                        "_strict"
                    } else {
                        ""
                    },
                )
            },
            AggregateKind::JsonObjectAgg => if self.standard {
                "json_objectagg".to_owned()
            } else {
                text::concat(
                    if self.binary {
                        "jsonb_object_agg"
                    } else {
                        "json_object_agg"
                    },
                    if self.unique && self.strict {
                        "_unique_strict"
                    } else if self.unique {
                        "_unique"
                    } else if self.strict {
                        "_strict"
                    } else {
                        ""
                    },
                )
            },
        }
    }
}

/// What an aggregate comes to over the rows of a group. Where a value has to be
/// computed, the result says from which rows.
#[derive(Debug)]
pub enum Aggregated<'a> {
    Null,
    Count(u64),
    Value(&'a AggregateRow),
    SumOf(Vec<&'a AggregateRow>),
    AverageOf(Vec<&'a AggregateRow>),
    AllOf(Vec<&'a AggregateRow>),
    AnyOf(Vec<&'a AggregateRow>),
    Text(String),
    ArrayOf(Vec<&'a AggregateRow>),
    /// The arrays, and the lower bounds of the array that they make up.
    NestedArrays(Vec<&'a AggregateRow>, Vec<i64>),
    RangeOf(Vec<&'a AggregateRow>, String, bool),
    XmlOf(Vec<&'a AggregateRow>),
    JsonArrayOf(Vec<&'a AggregateRow>),
    JsonObjectOf(Vec<(String, &'a AggregateRow)>),
    JsonText(String),
    /// The key of that row cannot be the key of an object.
    BadKey(&'a AggregateRow),
}

#[verifier::ext_equal]
pub enum AggregatedView {
    Null,
    Count(nat),
    Value(AggregateRow),
    SumOf(Seq<AggregateRow>),
    AverageOf(Seq<AggregateRow>),
    AllOf(Seq<AggregateRow>),
    AnyOf(Seq<AggregateRow>),
    Text(Seq<char>),
    ArrayOf(Seq<AggregateRow>),
    NestedArrays(Seq<AggregateRow>, Seq<i64>),
    RangeOf(Seq<AggregateRow>, Seq<char>, bool),
    XmlOf(Seq<AggregateRow>),
    JsonArrayOf(Seq<AggregateRow>),
    JsonObjectOf(Seq<(Seq<char>, AggregateRow)>),
    JsonText(Seq<char>),
    BadKey(AggregateRow),
}

pub open spec fn entries_view(v: Seq<(String, &AggregateRow)>) -> Seq<(Seq<char>, AggregateRow)> {
    v.map_values(|p: (String, &AggregateRow)| (p.0@, *p.1))
}

impl<'a> View for Aggregated<'a> {
    type V = AggregatedView;

    open spec fn view(&self) -> AggregatedView {
        match *self {
            Aggregated::Null => AggregatedView::Null,
            Aggregated::Count(n) => AggregatedView::Count(n as nat),
            Aggregated::Value(row) => AggregatedView::Value(*row),
            Aggregated::SumOf(rows) => AggregatedView::SumOf(derefs(rows@)),
            Aggregated::AverageOf(rows) => AggregatedView::AverageOf(derefs(rows@)),
            Aggregated::AllOf(rows) => AggregatedView::AllOf(derefs(rows@)),
            Aggregated::AnyOf(rows) => AggregatedView::AnyOf(derefs(rows@)),
            Aggregated::Text(s) => AggregatedView::Text(s@),
            Aggregated::ArrayOf(rows) => AggregatedView::ArrayOf(derefs(rows@)),
            Aggregated::NestedArrays(rows, bounds) => AggregatedView::NestedArrays(
                derefs(rows@),
                bounds@,
            ),
            Aggregated::RangeOf(rows, t, intersect) => AggregatedView::RangeOf(
                derefs(rows@),
                t@,
                intersect,
            ),
            Aggregated::XmlOf(rows) => AggregatedView::XmlOf(derefs(rows@)),
            Aggregated::JsonArrayOf(rows) => AggregatedView::JsonArrayOf(derefs(rows@)),
            Aggregated::JsonObjectOf(entries) => AggregatedView::JsonObjectOf(
                entries_view(entries@),
            ),
            Aggregated::JsonText(s) => AggregatedView::JsonText(s@),
            Aggregated::BadKey(row) => AggregatedView::BadKey(*row),
        }
    }
}

/// A row with that value and that other argument is among the rows.
pub open spec fn has_pair(rows: Seq<AggregateRow>, value: u64, other: u64) -> bool {
    exists|i: int|
        0 <= i < rows.len() && (#[trigger] rows[i]).value.class == value && rows[i].other.class
            == other
}

/// The rows whose values go into an aggregate of two arguments: without the
/// nulls where they are left out, and without those whose arguments an earlier
/// row has where only distinct arguments count.
pub open spec fn counted_pairs(
    rows: Seq<AggregateRow>,
    distinct: bool,
    skip_null: bool,
) -> Seq<AggregateRow>
    decreases rows.len(),
{
    if rows.len() == 0 {
        Seq::empty()
    } else {
        let kept = counted_pairs(rows.drop_last(), distinct, skip_null);
        let row = rows.last();
        if (skip_null && row.value.null) || (distinct && has_pair(
            kept,
            row.value.class,
            row.other.class,
        )) {
            kept
        } else {
            kept.push(row)
        }
    }
}

fn pair_listed(rows: &Vec<&AggregateRow>, value: u64, other: u64) -> (r: bool)
    ensures
        r == has_pair(derefs(rows@), value, other),
{
    let mut i: usize = 0;
    while i < rows.len()
        invariant
            i <= rows.len(),
            forall|k: int|
                0 <= k < i ==> !((#[trigger] derefs(rows@)[k]).value.class == value && derefs(
                    rows@,
                )[k].other.class == other),
        decreases rows.len() - i,
    {
        assert(derefs(rows@)[i as int] == *rows@[i as int]);
        if rows[i].value.class == value && rows[i].other.class == other {
            return true;
        }
        i = i + 1;
    }
    false
}

fn count_pairs<'a>(rows: &Vec<&'a AggregateRow>, distinct: bool, skip_null: bool) -> (r: Vec<
    &'a AggregateRow,
>)
    ensures
        derefs(r@) == counted_pairs(derefs(rows@), distinct, skip_null),
{
    let ghost all = derefs(rows@);
    let mut out: Vec<&'a AggregateRow> = Vec::new();
    let mut i: usize = 0;
    assert(all.take(0) =~= Seq::<AggregateRow>::empty());
    assert(derefs(out@) =~= counted_pairs(all.take(0), distinct, skip_null));
    while i < rows.len()
        invariant
            i <= rows.len(),
            all == derefs(rows@),
            derefs(out@) == counted_pairs(all.take(i as int), distinct, skip_null),
        decreases rows.len() - i,
    {
        let row = rows[i];
        assert(all.take(i as int + 1).drop_last() =~= all.take(i as int));
        assert(all.take(i as int + 1).last() == *row);
        if !((skip_null && row.value.null) || (distinct && pair_listed(
            &out,
            row.value.class,
            row.other.class,
        ))) {
            let ghost prior = out@;
            out.push(row);
            assert(derefs(out@) =~= derefs(prior).push(*row));
        }
        i = i + 1;
    }
    assert(all.take(all.len() as int) =~= all);
    out
}

/// The text before a value in a concatenation: nothing before the first one or
/// where the delimiter is null.
pub open spec fn delimiter_text(row: AggregateRow) -> Seq<char> {
    match row.other_text {
        Some(t) => if row.other.null {
            Seq::empty()
        } else {
            t@
        },
        None => Seq::empty(),
    }
}

/// The texts of the values in a row, each behind its own delimiter but the
/// first.
pub open spec fn concatenation(rows: Seq<AggregateRow>) -> Seq<char>
    decreases rows.len(),
{
    if rows.len() == 0 {
        Seq::empty()
    } else if rows.len() == 1 {
        rows[0].value_text@
    } else {
        concatenation(rows.drop_last()) + delimiter_text(rows.last()) + rows.last().value_text@
    }
}

/// The concatenation that `string_agg` yields.
pub open spec fn string_aggregate(
    rows: Seq<AggregateRow>,
    order_by: Seq<OrderByExpr>,
    distinct: bool,
) -> AggregatedView {
    let kept = counted_pairs(ordered_rows(rows, order_by), distinct, true);
    if kept.len() == 0 {
        AggregatedView::Null
    } else {
        AggregatedView::Text(concatenation(kept))
    }
}

/// The concatenation that `string_agg` yields.
pub fn finish_string_agg<'a>(
    rows: &'a Vec<AggregateRow>,
    order_by: &Vec<OrderByExpr>,
    distinct: bool,
) -> (r: Aggregated<'a>)
    ensures
        r@ == string_aggregate(rows@, order_by@, distinct),
{
    let sorted = ordered_accepted(rows, order_by);
    let kept = count_pairs(&sorted, distinct, true);
    if kept.len() == 0 {
        return Aggregated::Null;
    }
    let ghost all = derefs(kept@);
    let mut out = String::new();
    let mut i: usize = 0;
    assert(all.take(0) =~= Seq::<AggregateRow>::empty());
    assert(out@ =~= concatenation(all.take(0)));
    while i < kept.len()
        invariant
            i <= kept.len(),
            all == derefs(kept@),
            out@ == concatenation(all.take(i as int)),
        decreases kept.len() - i,
    {
        let row = kept[i];
        assert(all.take(i as int + 1).drop_last() =~= all.take(i as int));
        assert(all.take(i as int + 1).last() == *row);
        let ghost before = out@;
        if i > 0 && !row.other.null {
            match &row.other_text {
                Some(t) => {
                    out.append(t.as_str());
                },
                None => {},
            }
        }
        proof {
            if i > 0 {
                assert(out@ =~= before + delimiter_text(*row));
            }
        }
        out.append(row.value_text.as_str());
        proof {
            if i == 0 {
                assert(all.take(1)[0] == *row);
                assert(out@ =~= row.value_text@);
            }
        }
        i = i + 1;
    }
    assert(all.take(all.len() as int) =~= all);
    Aggregated::Text(out)
}

pub open spec fn json_texts(rows: Seq<AggregateRow>) -> Seq<Seq<char>> {
    rows.map_values(|r: AggregateRow| r.value_json@)
}

/// The array that `json_agg` and `jsonb_agg` yield.
pub open spec fn json_array_aggregate(
    rows: Seq<AggregateRow>,
    order_by: Seq<OrderByExpr>,
    distinct: bool,
    binary: bool,
    strict: bool,
) -> AggregatedView {
    let sorted = ordered_rows(rows, order_by);
    let kept = counted_rows(sorted, distinct, strict);
    if sorted.len() == 0 {
        AggregatedView::Null
    } else if binary {
        AggregatedView::JsonArrayOf(kept)
    } else {
        AggregatedView::JsonText("["@ + text::joined(json_texts(kept), ", "@) + "]"@)
    }
}

fn collect_json_texts(rows: &Vec<&AggregateRow>) -> (r: Vec<String>)
    ensures
        text::views(r@) == json_texts(derefs(rows@)),
{
    let ghost all = json_texts(derefs(rows@));
    let mut out: Vec<String> = Vec::new();
    let mut i: usize = 0;
    while i < rows.len()
        invariant
            i <= rows.len(),
            all == json_texts(derefs(rows@)),
            text::views(out@) == all.take(i as int),
        decreases rows.len() - i,
    {
        let ghost prior = out@;
        out.push(rows[i].value_json.clone());
        assert(text::views(out@) =~= text::views(prior).push(rows@[i as int].value_json@));
        assert(all.take(i as int + 1) =~= all.take(i as int).push(rows@[i as int].value_json@));
        i = i + 1;
    }
    assert(all.take(all.len() as int) =~= all);
    out
}

/// The array that `json_agg` and `jsonb_agg` yield.
pub fn finish_json_agg<'a>(
    rows: &'a Vec<AggregateRow>,
    order_by: &Vec<OrderByExpr>,
    distinct: bool,
    binary: bool,
    strict: bool,
) -> (r: Aggregated<'a>)
    ensures
        r@ == json_array_aggregate(rows@, order_by@, distinct, binary, strict),
{
    let sorted = ordered_accepted(rows, order_by);
    if sorted.len() == 0 {
        return Aggregated::Null;
    }
    let kept = count_rows(&sorted, distinct, strict);
    if binary {
        Aggregated::JsonArrayOf(kept)
    } else {
        let texts = collect_json_texts(&kept);
        let inner = text::join(&texts, ", ");
        Aggregated::JsonText(text::concat3("[", inner.as_str(), "]"))
    }
}

/// Some row has that key.
pub open spec fn has_key_text(rows: Seq<AggregateRow>, key: Seq<char>) -> bool {
    exists|i: int|
        0 <= i < rows.len() && error::view_option((#[trigger] rows[i]).other_text) == Some(key)
}

/// Why an object aggregate fails: a row whose key cannot be one, or a key that
/// comes twice where keys have to be unique.
pub enum ObjectRefusal {
    BadKey(AggregateRow),
    DuplicateKey(Seq<char>),
}

/// The entries of the object that the first `n` rows make up.
pub open spec fn object_entries(
    rows: Seq<AggregateRow>,
    n: int,
    strict: bool,
    unique: bool,
) -> Result<Seq<(Seq<char>, AggregateRow)>, ObjectRefusal>
    decreases n,
{
    if n <= 0 || n > rows.len() {
        Ok(Seq::empty())
    } else {
        match object_entries(rows, n - 1, strict, unique) {
            Err(refusal) => Err(refusal),
            Ok(found) => {
                let row = rows[n - 1];
                match row.other_text {
                    None => Err(ObjectRefusal::BadKey(row)),
                    Some(key) => if unique && has_key_text(rows.take(n - 1), key@) {
                        Err(ObjectRefusal::DuplicateKey(key@))
                    } else if strict && row.value.null {
                        Ok(found)
                    } else {
                        Ok(found.push((key@, row)))
                    },
                }
            },
        }
    }
}

pub open spec fn entry_texts(entries: Seq<(Seq<char>, AggregateRow)>) -> Seq<Seq<char>> {
    entries.map_values(
        |p: (Seq<char>, AggregateRow)| json::serde_json_string(p.0) + " : "@ + p.1.value_json@,
    )
}

/// What an object aggregate comes to, where its keys are in order.
pub open spec fn json_object_aggregate(
    rows: Seq<AggregateRow>,
    order_by: Seq<OrderByExpr>,
    distinct: bool,
    binary: bool,
    strict: bool,
    unique: bool,
) -> Result<AggregatedView, ObjectRefusal> {
    let sorted = ordered_rows(rows, order_by);
    let kept = counted_pairs(sorted, distinct, false);
    if sorted.len() == 0 {
        Ok(AggregatedView::Null)
    } else {
        match object_entries(kept, kept.len() as int, strict, unique) {
            Err(refusal) => Err(refusal),
            Ok(entries) => if binary {
                Ok(AggregatedView::JsonObjectOf(entries))
            } else {
                Ok(
                    AggregatedView::JsonText(
                        "{ "@ + text::joined(entry_texts(entries), ", "@) + " }"@,
                    ),
                )
            },
        }
    }
}

/// How an object aggregate ends.
#[derive(Debug)]
pub enum ObjectOutcome<'a> {
    Done(Aggregated<'a>),
    /// The key of that row cannot be the key of an object.
    BadKey(&'a AggregateRow),
    Refused(SqlError),
}

pub open spec fn object_outcome(
    r: ObjectOutcome,
    v: Result<AggregatedView, ObjectRefusal>,
) -> bool {
    match (r, v) {
        (ObjectOutcome::Done(a), Ok(view)) => a@ == view,
        (ObjectOutcome::BadKey(row), Err(ObjectRefusal::BadKey(bad))) => *row == bad,
        (ObjectOutcome::Refused(e), Err(ObjectRefusal::DuplicateKey(key))) => e@
            == error::constraint_violation_error(
            "22030"@,
            "duplicate JSON object key value: \""@ + key + "\""@,
        ),
        _ => false,
    }
}

fn key_listed(rows: &Vec<&AggregateRow>, n: usize, key: &str) -> (r: bool)
    requires
        n <= rows@.len(),
    ensures
        r == has_key_text(derefs(rows@).take(n as int), key@),
{
    let ghost head = derefs(rows@).take(n as int);
    let mut i: usize = 0;
    while i < n
        invariant
            i <= n <= rows@.len(),
            head == derefs(rows@).take(n as int),
            forall|k: int|
                0 <= k < i ==> error::view_option((#[trigger] head[k]).other_text) != Some(key@),
        decreases n - i,
    {
        assert(head[i as int] == *rows@[i as int]);
        match &rows[i].other_text {
            Some(t) => {
                if text::text_eq(t.as_str(), key) {
                    return true;
                }
            },
            None => {},
        }
        i = i + 1;
    }
    false
}

proof fn lemma_object_refusal_kept(
    rows: Seq<AggregateRow>,
    i: int,
    n: int,
    strict: bool,
    unique: bool,
)
    requires
        0 <= i <= n <= rows.len(),
        object_entries(rows, i, strict, unique) is Err,
    ensures
        object_entries(rows, n, strict, unique) == object_entries(rows, i, strict, unique),
    decreases n - i,
{
    if i < n {
        lemma_object_refusal_kept(rows, i, n - 1, strict, unique);
    }
}

fn collect_entry_texts(entries: &Vec<(String, &AggregateRow)>) -> (r: Vec<String>)
    ensures
        text::views(r@) == entry_texts(entries_view(entries@)),
{
    let ghost all = entry_texts(entries_view(entries@));
    let mut out: Vec<String> = Vec::new();
    let mut i: usize = 0;
    while i < entries.len()
        invariant
            i <= entries.len(),
            all == entry_texts(entries_view(entries@)),
            text::views(out@) == all.take(i as int),
        decreases entries.len() - i,
    {
        let entry = &entries[i];
        let quoted = json::json_string(entry.0.as_str());
        let piece = text::concat3(quoted.as_str(), " : ", entry.1.value_json.as_str());
        let ghost prior = out@;
        let ghost shown = piece@;
        out.push(piece);
        proof {
            assert(entries_view(entries@)[i as int] == (entry.0@, *entry.1));
            assert(shown == all[i as int]);
            assert(text::views(out@) =~= text::views(prior).push(shown));
            assert(all.take(i as int + 1) =~= all.take(i as int).push(all[i as int]));
        }
        i = i + 1;
    }
    assert(all.take(all.len() as int) =~= all);
    out
}

/// The object that `json_object_agg` and `jsonb_object_agg` yield.
pub fn finish_json_object_agg<'a>(
    rows: &'a Vec<AggregateRow>,
    order_by: &Vec<OrderByExpr>,
    distinct: bool,
    binary: bool,
    strict: bool,
    unique: bool,
) -> (r: ObjectOutcome<'a>)
    ensures
        object_outcome(
            r,
            json_object_aggregate(rows@, order_by@, distinct, binary, strict, unique),
        ),
{
    let sorted = ordered_accepted(rows, order_by);
    if sorted.len() == 0 {
        return ObjectOutcome::Done(Aggregated::Null);
    }
    let kept = count_pairs(&sorted, distinct, false);
    let ghost all = derefs(kept@);
    let mut entries: Vec<(String, &'a AggregateRow)> = Vec::new();
    let mut i: usize = 0;
    assert(entries_view(entries@) =~= Seq::<(Seq<char>, AggregateRow)>::empty());
    while i < kept.len()
        invariant
            i <= kept.len(),
            all == derefs(kept@),
            all == counted_pairs(ordered_rows(rows@, order_by@), distinct, false),
            ordered_rows(rows@, order_by@).len() > 0,
            object_entries(all, i as int, strict, unique) == Ok::<
                Seq<(Seq<char>, AggregateRow)>,
                ObjectRefusal,
            >(entries_view(entries@)),
        decreases kept.len() - i,
    {
        let row = kept[i];
        assert(all[i as int] == *row);
        match &row.other_text {
            None => {
                proof {
                    lemma_object_refusal_kept(
                        all,
                        i as int + 1,
                        all.len() as int,
                        strict,
                        unique,
                    );
                }
                return ObjectOutcome::BadKey(row);
            },
            Some(key) => {
                if unique && key_listed(&kept, i, key.as_str()) {
                    proof {
                        lemma_object_refusal_kept(
                            all,
                            i as int + 1,
                            all.len() as int,
                            strict,
                            unique,
                        );
                    }
                    let message = text::concat3(
                        "duplicate JSON object key value: \"",
                        key.as_str(),
                        "\"",
                    );
                    return ObjectOutcome::Refused(
                        SqlError::constraint_violation("22030", message),
                    );
                }
                if !(strict && row.value.null) {
                    let ghost prior = entries@;
                    entries.push((key.clone(), row));
                    assert(entries_view(entries@) =~= entries_view(prior).push((key@, *row)));
                }
            },
        }
        i = i + 1;
    }
    if binary {
        ObjectOutcome::Done(Aggregated::JsonObjectOf(entries))
    } else {
        let texts = collect_entry_texts(&entries);
        let inner = text::join(&texts, ", ");
        ObjectOutcome::Done(
            Aggregated::JsonText(text::concat3("{ ", inner.as_str(), " }")),
        )
    }
}

/// The first row whose value is not null.
pub open spec fn first_value(rows: Seq<AggregateRow>, from: int) -> Option<AggregateRow>
    decreases rows.len() - from,
{
    if from < 0 || from >= rows.len() {
        None
    } else if !rows[from].value.null {
        Some(rows[from])
    } else {
        first_value(rows, from + 1)
    }
}

/// Arrays are accumulated into an array of one more dimension.
pub open spec fn accumulates_arrays(rows: Seq<AggregateRow>) -> bool {
    match first_value(rows, 0) {
        Some(row) => row.value_shape is Some,
        None => false,
    }
}

pub open spec fn same_shape(a: ArrayShape, b: ArrayShape) -> bool {
    a.dimensions@ == b.dimensions@ && a.bounds@ == b.bounds@
}

/// Why the arrays from there on cannot be accumulated: each has to be an array
/// that is not empty and has the shape of the first one.
pub open spec fn accumulation_error(rows: Seq<AggregateRow>, from: int) -> Option<ErrorView>
    decreases rows.len() - from,
{
    if from < 0 || from >= rows.len() {
        None
    } else if rows[from].value.null {
        Some(error::data_exception_error("22004"@, "cannot accumulate null arrays"@, None))
    } else {
        match rows[from].value_shape {
            None => Some(
                error::data_exception_error("2202E"@, "cannot accumulate non-array values"@, None),
            ),
            Some(shape) => if shape.dimensions@.len() == 0 {
                Some(error::data_exception_error("2202E"@, "cannot accumulate empty arrays"@, None))
            } else if from > 0 && !same_shape(rows[0].value_shape->0, shape) {
                Some(
                    error::data_exception_error(
                        "2202E"@,
                        "cannot accumulate arrays of different dimensionality"@, None
                    ),
                )
            } else {
                accumulation_error(rows, from + 1)
            },
        }
    }
}

/// What `array_agg` comes to.
pub open spec fn array_aggregate(
    rows: Seq<AggregateRow>,
    order_by: Seq<OrderByExpr>,
    distinct: bool,
) -> Result<AggregatedView, ErrorView> {
    let sorted = ordered_rows(rows, order_by);
    let kept = counted_rows(sorted, distinct, false);
    if sorted.len() == 0 {
        Ok(AggregatedView::Null)
    } else if !accumulates_arrays(kept) {
        Ok(AggregatedView::ArrayOf(kept))
    } else {
        match accumulation_error(kept, 0) {
            Some(e) => Err(e),
            None => Ok(
                AggregatedView::NestedArrays(
                    kept,
                    seq![1i64] + kept[0].value_shape->0.bounds@,
                ),
            ),
        }
    }
}

/// A result and the outcome that it has to be.
pub open spec fn yields(
    r: Result<Aggregated, SqlError>,
    v: Result<AggregatedView, ErrorView>,
) -> bool {
    match (r, v) {
        (Ok(a), Ok(view)) => a@ == view,
        (Err(e), Err(view)) => e@ == view,
        _ => false,
    }
}

fn arrays_accumulated(rows: &Vec<&AggregateRow>) -> (r: bool)
    ensures
        r == accumulates_arrays(derefs(rows@)),
{
    let mut i: usize = 0;
    while i < rows.len()
        invariant
            i <= rows.len(),
            first_value(derefs(rows@), 0) == first_value(derefs(rows@), i as int),
        decreases rows.len() - i,
    {
        assert(derefs(rows@)[i as int] == *rows@[i as int]);
        if !rows[i].value.null {
            return rows[i].value_shape.is_some();
        }
        i = i + 1;
    }
    false
}

fn dimensions_eq(a: &Vec<u64>, b: &Vec<u64>) -> (r: bool)
    ensures
        r == (a@ == b@),
{
    if a.len() != b.len() {
        return false;
    }
    let mut i: usize = 0;
    while i < a.len()
        invariant
            i <= a.len(),
            a.len() == b.len(),
            forall|k: int| 0 <= k < i ==> a@[k] == b@[k],
        decreases a.len() - i,
    {
        if a[i] != b[i] {
            return false;
        }
        i = i + 1;
    }
    assert(a@ =~= b@);
    true
}

fn bounds_eq(a: &Vec<i64>, b: &Vec<i64>) -> (r: bool)
    ensures
        r == (a@ == b@),
{
    if a.len() != b.len() {
        return false;
    }
    let mut i: usize = 0;
    while i < a.len()
        invariant
            i <= a.len(),
            a.len() == b.len(),
            forall|k: int| 0 <= k < i ==> a@[k] == b@[k],
        decreases a.len() - i,
    {
        if a[i] != b[i] {
            return false;
        }
        i = i + 1;
    }
    assert(a@ =~= b@);
    true
}

fn check_accumulated(rows: &Vec<&AggregateRow>) -> (r: Option<SqlError>)
    ensures
        match (r, accumulation_error(derefs(rows@), 0)) {
            (Some(e), Some(view)) => e@ == view,
            (None, None) => true,
            _ => false,
        },
{
    let ghost all = derefs(rows@);
    let mut i: usize = 0;
    while i < rows.len()
        invariant
            i <= rows.len(),
            all == derefs(rows@),
            accumulation_error(all, 0) == accumulation_error(all, i as int),
            i > 0 ==> all[0].value_shape is Some,
        decreases rows.len() - i,
    {
        let row = rows[i];
        assert(all[i as int] == *row);
        assert(all[0] == *rows@[0]);
        if row.value.null {
            return Some(SqlError::data_exception("22004", "cannot accumulate null arrays".to_owned(), None));
        }
        match &row.value_shape {
            None => {
                return Some(
                    SqlError::data_exception(
                        "2202E",
                        "cannot accumulate non-array values".to_owned(), None
                    ),
                );
            },
            Some(shape) => {
                if shape.dimensions.len() == 0 {
                    return Some(
                        SqlError::data_exception(
                            "2202E",
                            "cannot accumulate empty arrays".to_owned(), None
                        ),
                    );
                }
                if i > 0 {
                    match &rows[0].value_shape {
                        Some(first) => {
                            if !(dimensions_eq(&first.dimensions, &shape.dimensions) && bounds_eq(
                                &first.bounds,
                                &shape.bounds,
                            )) {
                                return Some(
                                    SqlError::data_exception(
                                        "2202E",
                                        "cannot accumulate arrays of different dimensionality".to_owned(), None
                                    ),
                                );
                            }
                        },
                        None => {},
                    }
                }
            },
        }
        i = i + 1;
    }
    None
}

fn nested_bounds(inner: &Vec<i64>) -> (r: Vec<i64>)
    ensures
        r@ == seq![1i64] + inner@,
{
    let mut out: Vec<i64> = Vec::new();
    out.push(1);
    let mut i: usize = 0;
    assert(out@ =~= seq![1i64] + inner@.take(0));
    while i < inner.len()
        invariant
            i <= inner.len(),
            out@ == seq![1i64] + inner@.take(i as int),
        decreases inner.len() - i,
    {
        out.push(inner[i]);
        i = i + 1;
        assert(inner@.take(i as int) =~= inner@.take(i - 1).push(inner@[i - 1]));
        assert(out@ =~= seq![1i64] + inner@.take(i as int));
    }
    assert(inner@.take(inner@.len() as int) =~= inner@);
    out
}

/// What `array_agg` comes to.
pub fn finish_array_agg<'a>(
    rows: &'a Vec<AggregateRow>,
    order_by: &Vec<OrderByExpr>,
    distinct: bool,
) -> (r: Result<Aggregated<'a>, SqlError>)
    ensures
        yields(r, array_aggregate(rows@, order_by@, distinct)),
{
    let sorted = ordered_accepted(rows, order_by);
    if sorted.len() == 0 {
        return Ok(Aggregated::Null);
    }
    let kept = count_rows(&sorted, distinct, false);
    if !arrays_accumulated(&kept) {
        return Ok(Aggregated::ArrayOf(kept));
    }
    match check_accumulated(&kept) {
        Some(e) => Err(e),
        None => {
            assert(kept@.len() > 0);
            assert(derefs(kept@)[0] == *kept@[0]);
            let bounds = match &kept[0].value_shape {
                Some(shape) => nested_bounds(&shape.bounds),
                None => Vec::new(),
            };
            Ok(Aggregated::NestedArrays(kept, bounds))
        },
    }
}

/// Sums and averages of object identifiers do not exist.
pub fn reject_oid_numeric_aggregate(input_type: Option<&str>, name: &str) -> (r: Result<
    (),
    SqlError,
>)
    ensures
        match r {
            Ok(()) => text::view_str(input_type) != Some("oid"@),
            Err(e) => text::view_str(input_type) == Some("oid"@) && e@
                == error::undefined_function_error("function "@ + name@ + "(oid) does not exist"@),
        },
{
    match input_type {
        Some(t) => {
            if text::text_eq(t, "oid") {
                return Err(
                    SqlError::undefined_function(
                        text::concat3("function ", name, "(oid) does not exist"),
                    ),
                );
            }
        },
        None => {},
    }
    Ok(())
}

/// What an aggregate comes to over the rows of a group, where no key of an
/// object is in the way. `input_type` is the type of the aggregated expression,
/// where it is known.
pub open spec fn aggregate_outcome(
    a: AggregateView,
    rows: Seq<AggregateRow>,
    input_type: Option<Seq<char>>,
) -> Result<AggregatedView, ErrorView> {
    let counted = counted_rows(rows, a.distinct, true);
    match a.kind {
        AggregateKind::CountAll => Ok(AggregatedView::Count(rows.len())),
        AggregateKind::CountExpr => Ok(AggregatedView::Count(counted.len())),
        AggregateKind::Sum => if input_type == Some("oid"@) {
            Err(
                error::undefined_function_error(
                    "function "@ + "sum"@ + "(oid) does not exist"@,
                ),
            )
        } else {
            Ok(AggregatedView::SumOf(counted))
        },
        AggregateKind::Avg => if input_type == Some("oid"@) {
            Err(
                error::undefined_function_error(
                    "function "@ + "avg"@ + "(oid) does not exist"@,
                ),
            )
        } else {
            Ok(AggregatedView::AverageOf(counted))
        },
        AggregateKind::Min => Ok(
            match extreme_row(rows, rows.len() as int, false) {
                Some(row) => AggregatedView::Value(row),
                None => AggregatedView::Null,
            },
        ),
        AggregateKind::Max => Ok(
            match extreme_row(rows, rows.len() as int, true) {
                Some(row) => AggregatedView::Value(row),
                None => AggregatedView::Null,
            },
        ),
        AggregateKind::BoolAnd => Ok(AggregatedView::AllOf(counted)),
        AggregateKind::BoolOr => Ok(AggregatedView::AnyOf(counted)),
        AggregateKind::StringAgg => Ok(string_aggregate(rows, a.order_by, a.distinct)),
        AggregateKind::ArrayAgg => array_aggregate(rows, a.order_by, a.distinct),
        AggregateKind::RangeAgg => match input_type {
            Some(t) => Ok(AggregatedView::RangeOf(counted, t, a.intersect)),
            None => Err(
                error::undefined_function_error(
                    "range aggregate requires a range or multirange argument"@,
                ),
            ),
        },
        AggregateKind::XmlAgg => Ok(AggregatedView::XmlOf(ordered_rows(rows, a.order_by))),
        AggregateKind::JsonAgg => Ok(
            json_array_aggregate(rows, a.order_by, a.distinct, a.binary, a.strict),
        ),
        AggregateKind::JsonObjectAgg => match json_object_aggregate(
            rows,
            a.order_by,
            a.distinct,
            a.binary,
            a.strict,
            a.unique,
        ) {
            Ok(view) => Ok(view),
            Err(ObjectRefusal::DuplicateKey(key)) => Err(
                error::constraint_violation_error(
                    "22030"@,
                    "duplicate JSON object key value: \""@ + key + "\""@,
                ),
            ),
            Err(ObjectRefusal::BadKey(row)) => Ok(AggregatedView::BadKey(row)),
        },
    }
}

impl<'a> RowAggregate<'a> {
    /// What the aggregate comes to over the rows of a group, all of which have been
    /// evaluated. `input_type` is the type of the aggregated expression, where it is
    /// known.
    pub fn evaluate_rows<'b>(&self, rows: &'b Vec<AggregateRow>, input_type: Option<&str>) -> (r: Result<
        Aggregated<'b>,
        SqlError,
    >)
        ensures
            yields(r, aggregate_outcome(self@, rows@, text::view_str(input_type))),
    {
        let unordered: Vec<OrderByExpr> = Vec::new();
        let order_by = match self.order_by {
            Some(list) => list,
            None => &unordered,
        };
        assert(order_by@ =~= self@.order_by);
        match self.kind {
            AggregateKind::CountAll => Ok(Aggregated::Count(rows.len() as u64)),
            AggregateKind::CountExpr => {
                let all = borrow_all(rows);
                let counted = count_rows(&all, self.distinct, true);
                assert(derefs(counted@).len() == counted@.len());
                Ok(Aggregated::Count(counted.len() as u64))
            },
            AggregateKind::Sum => match reject_oid_numeric_aggregate(input_type, "sum") {
                Err(e) => Err(e),
                Ok(_) => {
                    let all = borrow_all(rows);
                    Ok(Aggregated::SumOf(count_rows(&all, self.distinct, true)))
                },
            },
            AggregateKind::Avg => match reject_oid_numeric_aggregate(input_type, "avg") {
                Err(e) => Err(e),
                Ok(_) => {
                    let all = borrow_all(rows);
                    Ok(Aggregated::AverageOf(count_rows(&all, self.distinct, true)))
                },
            },
            AggregateKind::Min => match row_extreme_value(rows, false) {
                Some(row) => Ok(Aggregated::Value(row)),
                None => Ok(Aggregated::Null),
            },
            AggregateKind::Max => match row_extreme_value(rows, true) {
                Some(row) => Ok(Aggregated::Value(row)),
                None => Ok(Aggregated::Null),
            },
            AggregateKind::BoolAnd => {
                let all = borrow_all(rows);
                Ok(Aggregated::AllOf(count_rows(&all, self.distinct, true)))
            },
            AggregateKind::BoolOr => {
                let all = borrow_all(rows);
                Ok(Aggregated::AnyOf(count_rows(&all, self.distinct, true)))
            },
            AggregateKind::StringAgg => Ok(finish_string_agg(rows, order_by, self.distinct)),
            AggregateKind::ArrayAgg => finish_array_agg(rows, order_by, self.distinct),
            AggregateKind::RangeAgg => match input_type {
                Some(t) => {
                    let all = borrow_all(rows);
                    Ok(
                        Aggregated::RangeOf(
                            count_rows(&all, self.distinct, true),
                            t.to_owned(),
                            self.intersect,
                        ),
                    )
                },
                None => Err(
                    SqlError::undefined_function(
                        "range aggregate requires a range or multirange argument".to_owned(),
                    ),
                ),
            },
            AggregateKind::XmlAgg => Ok(Aggregated::XmlOf(ordered_accepted(rows, order_by))),
            AggregateKind::JsonAgg => Ok(
                finish_json_agg(rows, order_by, self.distinct, self.binary, self.strict),
            ),
            AggregateKind::JsonObjectAgg => match finish_json_object_agg(
                rows,
                order_by,
                self.distinct,
                self.binary,
                self.strict,
                self.unique,
            ) {
                ObjectOutcome::Done(a) => Ok(a),
                ObjectOutcome::BadKey(row) => Ok(Aggregated::BadKey(row)),
                ObjectOutcome::Refused(e) => Err(e),
            },
        }
    }
}

/// The call that an expression of an aggregate query makes, and the type that
/// the outermost cast round it names.
pub open spec fn aggregate_call(e: Expr) -> Option<(Function, Option<Seq<char>>)>
    decreases e,
{
    match e.kind {
        ExprKind::Function => match e.call {
            Some(call) => Some((*call, None)),
            None => None,
        },
        ExprKind::Cast => if e.operands@.len() == 0 {
            None
        } else {
            match aggregate_call(e.operands@[0].expr) {
                Some((call, _)) => Some((call, error::view_option(e.data_type))),
                None => None,
            }
        },
        ExprKind::Nested => if e.operands@.len() == 0 {
            None
        } else {
            aggregate_call(e.operands@[0].expr)
        },
        _ => None,
    }
}

/// The call that an expression of an aggregate query makes, and the type that
/// the outermost cast round it names.
pub fn row_aggregate_from_expr(expr: &Expr) -> (r: Result<(&Function, Option<&String>), SqlError>)
    ensures
        match (r, aggregate_call(*expr)) {
            (Ok((call, data_type)), Some((function, cast))) => *call == function && (match data_type {
                Some(t) => Some(t@),
                None => None,
            }) == cast,
            (Err(e), None) => e@ == error::unsupported_error(
                "aggregate SELECT cannot mix raw fields and aggregates without GROUP BY"@,
            ),
            _ => false,
        },
    decreases expr,
{
    match expr.kind {
        ExprKind::Function => {
            match &expr.call {
                Some(call) => {
                    return Ok((&**call, None));
                },
                None => {},
            }
        },
        ExprKind::Cast => {
            if expr.operands.len() > 0 {
                return match row_aggregate_from_expr(&expr.operands[0].expr) {
                    Ok((call, _)) => Ok((call, expr.data_type.as_ref())),
                    Err(e) => Err(e),
                };
            }
        },
        ExprKind::Nested => {
            if expr.operands.len() > 0 {
                return row_aggregate_from_expr(&expr.operands[0].expr);
            }
        },
        _ => {},
    }
    Err(
        SqlError::unsupported(
            "aggregate SELECT cannot mix raw fields and aggregates without GROUP BY".to_owned(),
        ),
    )
}

} // verus!
