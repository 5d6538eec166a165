//! Operations on result rows: windows over sorted partitions, row limits and
//! set operations.
use vstd::prelude::*;
use vstd::arithmetic::div_mod;
use crate::error;
use crate::error::{ErrorView, SqlError};
use crate::text;

verus! {

/// The position at which bucket `b`, counted from one, starts where `rows` rows
/// are dealt to `buckets` buckets as evenly as possible, the larger ones first.
pub open spec fn bucket_start(b: int, rows: int, buckets: int) -> int {
    (b - 1) * (rows / buckets) + if b - 1 < rows % buckets {
        b - 1
    } else {
        rows % buckets
    }
}

/// The bucket, counted from one, that the row at a position falls into.
pub fn window_ntile(position: usize, row_count: usize, buckets: usize) -> (r: usize)
    requires
        0 < buckets,
        position < row_count,
    ensures
        1 <= r <= buckets,
        bucket_start(r as int, row_count as int, buckets as int) <= position < bucket_start(
            r + 1,
            row_count as int,
            buckets as int,
        ),
{
    let small: usize = row_count / buckets;
    let large_count: usize = row_count % buckets;
    proof {
        div_mod::lemma_fundamental_div_mod(row_count as int, buckets as int);
        assert(buckets * small + large_count == row_count);
        assert(large_count < buckets);
        assert(large_count * (small + 1) <= row_count) by (nonlinear_arith)
            requires
                buckets * small + large_count == row_count,
                0 <= large_count < buckets,
                0 <= small,
        ;
        assert(small + 1 <= row_count + 1);
        assert(small <= row_count) by (nonlinear_arith)
            requires
                buckets * small + large_count == row_count,
                0 < buckets,
                0 <= large_count,
                0 <= small,
        ;
        if small == row_count {
            assert(large_count == 0) by (nonlinear_arith)
                requires
                    buckets * small + large_count == row_count,
                    0 < buckets,
                    0 <= large_count,
                    small == row_count,
                    0 <= small,
            ;
        }
    }
    if large_count == 0 {
        // Every bucket has the same size, and there is at least one row.
        proof {
            assert(small > 0) by (nonlinear_arith)
                requires
                    buckets * small + large_count == row_count,
                    large_count == 0,
                    row_count > 0,
                    small >= 0,
            ;
            div_mod::lemma_fundamental_div_mod(position as int, small as int);
            let q = position as int / small as int;
            assert(q < buckets) by (nonlinear_arith)
                requires
                    small * q + (position as int % small as int) == position,
                    0 <= position as int % small as int,
                    position < row_count,
                    buckets * small == row_count,
                    small > 0,
            ;
            assert(0 <= position as int % small as int) by {
                div_mod::lemma_mod_bound(position as int, small as int);
            }
            div_mod::lemma_mod_bound(position as int, small as int);
            assert(q * small == small * q) by (nonlinear_arith);
            assert((q + 1) * small == small * q + small) by (nonlinear_arith);
        }
        position / small + 1
    } else {
        let large: usize = small + 1;
        let in_large: usize = large_count * large;
        if position < in_large {
            proof {
                div_mod::lemma_fundamental_div_mod(position as int, large as int);
                div_mod::lemma_mod_bound(position as int, large as int);
                let q = position as int / large as int;
                assert(q < large_count) by (nonlinear_arith)
                    requires
                        large * q + (position as int % large as int) == position,
                        0 <= position as int % large as int,
                        position < in_large,
                        in_large == large_count * large,
                        large > 0,
                ;
                assert(q * small + q == large * q) by (nonlinear_arith)
                    requires
                        large == small + 1,
                ;
                assert((q + 1) * small + (q + 1) == large * q + large) by (nonlinear_arith)
                    requires
                        large == small + 1,
                ;
            }
            position / large + 1
        } else if small == 0 {
            proof {
                assert(in_large == row_count) by (nonlinear_arith)
                    requires
                        buckets * small + large_count == row_count,
                        small == 0,
                        large == small + 1,
                        in_large == large_count * large,
                ;
            }
            position + 1
        } else {
            let rest: usize = position - in_large;
            proof {
                div_mod::lemma_fundamental_div_mod(rest as int, small as int);
                div_mod::lemma_mod_bound(rest as int, small as int);
                let q = rest as int / small as int;
                assert(large_count + q < buckets) by (nonlinear_arith)
                    requires
                        small * q + (rest as int % small as int) == rest,
                        0 <= rest as int % small as int,
                        rest + in_large == position,
                        position < row_count,
                        buckets * small + large_count == row_count,
                        in_large == large_count * large,
                        large == small + 1,
                        small > 0,
                ;
                assert((large_count + q) * small + large_count == in_large + small * q)
                    by (nonlinear_arith)
                    requires
                        in_large == large_count * large,
                        large == small + 1,
                ;
                assert((large_count + q + 1) * small + large_count == in_large + small * q + small)
                    by (nonlinear_arith)
                    requires
                        in_large == large_count * large,
                        large == small + 1,
                ;
            }
            large_count + rest / small + 1
        }
    }
}

/// The position lies in the frame from `start` to `end`.
pub open spec fn in_frame(p: int, start: int, end: int) -> bool {
    start <= p <= end
}

/// The rows of a frame that lie within the partition, as the first and the last
/// of them; nothing where there are none.
pub fn window_clamped_frame(start: i64, end: i64, row_count: usize) -> (r: Option<(usize, usize)>)
    requires
        row_count <= i64::MAX,
    ensures
        match r {
            Some((first, last)) => {
                &&& first <= last < row_count
                &&& forall|p: int|
                    0 <= p < row_count ==> (first <= p <= last <==> #[trigger] in_frame(
                        p,
                        start as int,
                        end as int,
                    ))
            },
            None => forall|p: int|
                0 <= p < row_count ==> !#[trigger] in_frame(p, start as int, end as int),
        },
{
    let rows: i64 = row_count as i64;
    let first: i64 = if start < 0 {
        0
    } else if start > rows {
        rows
    } else {
        start
    };
    let last: i64 = if end < -1 {
        -1
    } else if end > rows - 1 {
        rows - 1
    } else {
        end
    };
    if first <= last {
        Some((first as usize, last as usize))
    } else {
        None
    }
}

/// Whether two rows have the same ordering keys. A key is the class of values
/// that are not distinct from one another.
pub fn window_keys_are_peers(left: &[u64], right: &[u64]) -> (r: bool)
    ensures
        r == (left@ == right@),
{
    if left.len() != right.len() {
        return false;
    }
    let mut i: usize = 0;
    while i < left.len()
        invariant
            i <= left.len(),
            left.len() == right.len(),
            forall|k: int| 0 <= k < i ==> left@[k] == right@[k],
        decreases left.len() - i,
    {
        if left[i] != right[i] {
            return false;
        }
        i = i + 1;
    }
    assert(left@ =~= right@);
    true
}

/// The positions of a partition are rows that have ordering keys.
pub open spec fn keys_exist(partition: Seq<usize>, order_keys: Seq<Vec<u64>>) -> bool {
    forall|i: int| 0 <= i < partition.len() ==> #[trigger] partition[i] < order_keys.len()
}

/// The rows at two positions of a partition are peers.
pub open spec fn peers(
    partition: Seq<usize>,
    order_keys: Seq<Vec<u64>>,
    i: int,
    j: int,
) -> bool {
    order_keys[partition[i] as int]@ == order_keys[partition[j] as int]@
}

/// The first position of the run of peers that a position stands in.
pub fn window_peer_start(partition: &[usize], order_keys: &[Vec<u64>], position: usize) -> (r: usize)
    requires
        position < partition@.len(),
        keys_exist(partition@, order_keys@),
    ensures
        r <= position,
        forall|k: int|
            r <= k <= position ==> #[trigger] peers(
                partition@,
                order_keys@,
                position as int,
                k,
            ),
        r > 0 ==> !peers(partition@, order_keys@, position as int, r - 1),
{
    let mut start: usize = position;
    while start > 0 && window_keys_are_peers(
        order_keys[partition[position]].as_slice(),
        order_keys[partition[start - 1]].as_slice(),
    )
        invariant
            start <= position < partition@.len(),
            keys_exist(partition@, order_keys@),
            forall|k: int|
                start <= k <= position ==> #[trigger] peers(
                    partition@,
                    order_keys@,
                    position as int,
                    k,
                ),
        decreases start,
    {
        start = start - 1;
    }
    start
}

/// The last position of the run of peers that a position stands in.
pub fn window_peer_end(partition: &[usize], order_keys: &[Vec<u64>], position: usize) -> (r: usize)
    requires
        position < partition@.len(),
        keys_exist(partition@, order_keys@),
    ensures
        position <= r < partition@.len(),
        forall|k: int|
            position <= k <= r ==> #[trigger] peers(partition@, order_keys@, position as int, k),
        r + 1 < partition@.len() ==> !peers(partition@, order_keys@, position as int, r + 1),
{
    let mut end: usize = position;
    while end < partition.len() - 1 && window_keys_are_peers(
        order_keys[partition[position]].as_slice(),
        order_keys[partition[end + 1]].as_slice(),
    )
        invariant
            position <= end < partition@.len(),
            keys_exist(partition@, order_keys@),
            forall|k: int|
                position <= k <= end ==> #[trigger] peers(
                    partition@,
                    order_keys@,
                    position as int,
                    k,
                ),
        decreases partition@.len() - end,
    {
        end = end + 1;
    }
    end
}

/// A run from `first` to `last` of peers that cannot be extended to the right.
pub open spec fn is_peer_run(
    partition: Seq<usize>,
    order_keys: Seq<Vec<u64>>,
    first: int,
    last: int,
) -> bool {
    &&& 0 <= first <= last < partition.len()
    &&& forall|k: int| first <= k <= last ==> #[trigger] peers(partition, order_keys, first, k)
    &&& last + 1 < partition.len() ==> !peers(partition, order_keys, first, last + 1)
}

/// The runs tile the positions `0..end`: the first starts at zero, each of the
/// others where the one before it ends.
pub open spec fn tiles(runs: Seq<(usize, usize)>, end: int) -> bool {
    &&& runs.len() == 0 ==> end == 0
    &&& runs.len() > 0 ==> runs[0].0 == 0 && runs.last().1 + 1 == end
    &&& forall|i: int|
        0 < i < runs.len() ==> (#[trigger] runs[i]).0 == runs[i - 1].1 + 1
}

/// The runs of peers that a partition consists of.
pub fn window_peer_groups(partition: &[usize], order_keys: &[Vec<u64>]) -> (r: Vec<(usize, usize)>)
    requires
        keys_exist(partition@, order_keys@),
    ensures
        tiles(r@, partition@.len() as int),
        forall|i: int|
            0 <= i < r@.len() ==> is_peer_run(
                partition@,
                order_keys@,
                (#[trigger] r@[i]).0 as int,
                r@[i].1 as int,
            ),
{
    let mut groups: Vec<(usize, usize)> = Vec::new();
    let mut start: usize = 0;
    while start < partition.len()
        invariant
            start <= partition@.len(),
            keys_exist(partition@, order_keys@),
            tiles(groups@, start as int),
            forall|i: int|
                0 <= i < groups@.len() ==> is_peer_run(
                    partition@,
                    order_keys@,
                    (#[trigger] groups@[i]).0 as int,
                    groups@[i].1 as int,
                ),
        decreases partition@.len() - start,
    {
        let end = window_peer_end(partition, order_keys, start);
        groups.push((start, end));
        start = end + 1;
    }
    groups
}

/// The rows that a LIMIT and an OFFSET leave.
pub open spec fn limited<T>(rows: Seq<T>, offset: nat, limit: Option<nat>) -> Seq<T> {
    let tail = rows.skip(if offset < rows.len() {
        offset as int
    } else {
        rows.len() as int
    });
    match limit {
        Some(n) => if n < tail.len() {
            tail.take(n as int)
        } else {
            tail
        },
        None => tail,
    }
}

pub open spec fn opt_nat(n: Option<usize>) -> Option<nat> {
    match n {
        Some(n) => Some(n as nat),
        None => None,
    }
}

/// Drops the rows before the offset, and those behind the limit.
pub fn apply_row_limit<T>(rows: &mut Vec<T>, offset: Option<usize>, limit: Option<usize>)
    ensures
        final(rows)@ == limited(
            old(rows)@,
            match offset {
                Some(n) => n as nat,
                None => 0,
            },
            opt_nat(limit),
        ),
{
    let skip: usize = match offset {
        Some(n) => n,
        None => 0,
    };
    let ghost all = rows@;
    if skip > 0 {
        let at: usize = if skip < rows.len() {
            skip
        } else {
            rows.len()
        };
        let tail = rows.split_off(at);
        *rows = tail;
        assert(rows@ =~= all.skip(at as int));
    } else {
        assert(rows@ =~= all.skip(0));
    }
    match limit {
        Some(n) => {
            let ghost tail = rows@;
            rows.truncate(n);
            assert(rows@ =~= if n < tail.len() {
                tail.take(n as int)
            } else {
                tail
            });
        },
        None => {},
    }
}

/// How many rows an ORDER BY has to rank before the limit and the offset cut
/// the rest: their sum, where there is a limit.
pub fn order_by_keep_bound(offset: Option<usize>, limit: Option<usize>) -> (r: Option<usize>)
    ensures
        match limit {
            None => r is None,
            Some(n) => r matches Some(bound) && bound == ({
                let sum = n + match offset {
                    Some(m) => m as int,
                    None => 0,
                };
                if sum <= usize::MAX {
                    sum
                } else {
                    usize::MAX as int
                }
            }),
        },
{
    match limit {
        None => None,
        Some(n) => {
            let skip: usize = match offset {
                Some(m) => m,
                None => 0,
            };
            Some(n.saturating_add(skip))
        },
    }
}

/// Keeping no more rows than the bound loses none that the limit and the offset
/// leave.
pub proof fn law_keep_bound_suffices<T>(rows: Seq<T>, offset: nat, limit: nat, bound: nat)
    requires
        bound >= offset + limit || bound >= rows.len(),
    ensures
        limited(
            if bound < rows.len() {
                rows.take(bound as int)
            } else {
                rows
            },
            offset,
            Some(limit),
        ) == limited(rows, offset, Some(limit)),
{
    if bound < rows.len() {
        assert(limited(rows.take(bound as int), offset, Some(limit)) =~= limited(
            rows,
            offset,
            Some(limit),
        ));
    }
}

/// A row with the class of rows that it is not distinct from.
#[derive(Debug)]
pub struct KeyedRow<T> {
    pub key: u64,
    pub row: T,
}

#[derive(Clone, Copy, Debug, PartialEq, Eq, Structural)]
pub enum SetOperator {
    Union,
    Intersect,
    Except,
    Minus,
}

#[derive(Clone, Copy, Debug, PartialEq, Eq, Structural)]
pub enum SetQuantifier {
    All,
    Distinct,
    ByName,
    AllByName,
    DistinctByName,
    Unquantified,
}

/// The rows of a query with the names and the types of its columns.
#[derive(Debug)]
pub struct ResultRows<T> {
    pub columns: Vec<String>,
    pub column_types: Vec<Option<String>>,
    pub rows: Vec<KeyedRow<T>>,
}

pub open spec fn has_key<T>(rows: Seq<KeyedRow<T>>, key: u64) -> bool {
    exists|i: int| 0 <= i < rows.len() && (#[trigger] rows[i]).key == key
}

/// The rows without those that are not distinct from an earlier one.
pub open spec fn distinct_rows<T>(rows: Seq<KeyedRow<T>>) -> Seq<KeyedRow<T>>
    decreases rows.len(),
{
    if rows.len() == 0 {
        Seq::empty()
    } else {
        let kept = distinct_rows(rows.drop_last());
        if has_key(kept, rows.last().key) {
            kept
        } else {
            kept.push(rows.last())
        }
    }
}

/// The rows that occur (or do not occur) among others.
pub open spec fn matching_rows<T>(
    rows: Seq<KeyedRow<T>>,
    others: Seq<KeyedRow<T>>,
    occurs: bool,
) -> Seq<KeyedRow<T>>
    decreases rows.len(),
{
    if rows.len() == 0 {
        Seq::empty()
    } else {
        let kept = matching_rows(rows.drop_last(), others, occurs);
        if has_key(others, rows.last().key) == occurs {
            kept.push(rows.last())
        } else {
            kept
        }
    }
}

pub open spec fn operator_text(op: SetOperator) -> Seq<char> {
    match op {
        SetOperator::Union => "UNION"@,
        SetOperator::Intersect => "INTERSECT"@,
        SetOperator::Except => "EXCEPT"@,
        SetOperator::Minus => "MINUS"@,
    }
}

pub open spec fn quantifier_text(q: SetQuantifier) -> Seq<char> {
    match q {
        SetQuantifier::All => "ALL"@,
        SetQuantifier::Distinct => "DISTINCT"@,
        SetQuantifier::ByName => "BY NAME"@,
        SetQuantifier::AllByName => "ALL BY NAME"@,
        SetQuantifier::DistinctByName => "DISTINCT BY NAME"@,
        SetQuantifier::Unquantified => ""@,
    }
}

pub open spec fn plain_quantifier(q: SetQuantifier) -> bool {
    q == SetQuantifier::Unquantified || q == SetQuantifier::Distinct || q == SetQuantifier::All
}

/// Why a set operation is refused.
pub open spec fn set_refusal(
    left_columns: nat,
    op: SetOperator,
    quantifier: SetQuantifier,
    right_columns: nat,
) -> Option<ErrorView> {
    if left_columns != right_columns {
        Some(
            error::invalid_sql_error(
                operator_text(op) + " query column count mismatch: left has "@ + text::decimal(
                    left_columns,
                ) + ", right has "@ + text::decimal(right_columns),
            ),
        )
    } else if !plain_quantifier(quantifier) {
        Some(
            error::unsupported_error(
                operator_text(op) + " "@ + quantifier_text(quantifier) + " is not supported"@,
            ),
        )
    } else if quantifier == SetQuantifier::All && op != SetOperator::Union {
        Some(error::unsupported_error(operator_text(op) + " ALL is not supported"@))
    } else {
        None
    }
}

/// The rows that a set operation yields.
pub open spec fn combined_rows<T>(
    left: Seq<KeyedRow<T>>,
    op: SetOperator,
    quantifier: SetQuantifier,
    right: Seq<KeyedRow<T>>,
) -> Seq<KeyedRow<T>> {
    match op {
        SetOperator::Union => if quantifier == SetQuantifier::All {
            left + right
        } else {
            distinct_rows(left + right)
        },
        SetOperator::Intersect => distinct_rows(matching_rows(left, right, true)),
        _ => distinct_rows(matching_rows(left, right, false)),
    }
}

fn text_of_operator(op: SetOperator) -> (r: &'static str)
    ensures
        r@ == operator_text(op),
{
    match op {
        SetOperator::Union => "UNION",
        SetOperator::Intersect => "INTERSECT",
        SetOperator::Except => "EXCEPT",
        SetOperator::Minus => "MINUS",
    }
}

fn text_of_quantifier(q: SetQuantifier) -> (r: &'static str)
    ensures
        r@ == quantifier_text(q),
{
    match q {
        SetQuantifier::All => "ALL",
        SetQuantifier::Distinct => "DISTINCT",
        SetQuantifier::ByName => "BY NAME",
        SetQuantifier::AllByName => "ALL BY NAME",
        SetQuantifier::DistinctByName => "DISTINCT BY NAME",
        SetQuantifier::Unquantified => "",
    }
}

fn contains_key<T>(rows: &Vec<KeyedRow<T>>, key: u64) -> (r: bool)
    ensures
        r == has_key(rows@, key),
{
    let mut i: usize = 0;
    while i < rows.len()
        invariant
            i <= rows.len(),
            forall|k: int| 0 <= k < i ==> (#[trigger] rows@[k]).key != key,
        decreases rows.len() - i,
    {
        if rows[i].key == key {
            assert(rows@[i as int].key == key);
            return true;
        }
        i = i + 1;
    }
    false
}

/// Reverses the rows of a list by moving them.
fn reversed_rows<T>(rows: Vec<KeyedRow<T>>) -> (r: Vec<KeyedRow<T>>)
    ensures
        r@ == rows@.reverse(),
{
    let ghost all = rows@;
    let mut rest = rows;
    let mut out: Vec<KeyedRow<T>> = Vec::new();
    while rest.len() > 0
        invariant
            rest@.len() + out@.len() == all.len(),
            rest@ == all.take(rest@.len() as int),
            forall|k: int| 0 <= k < out@.len() ==> out@[k] == all[all.len() - 1 - k],
        decreases rest@.len(),
    {
        let row = rest.pop().unwrap();
        assert(rest@ =~= all.take(rest@.len() as int));
        out.push(row);
    }
    assert(out@ =~= all.reverse());
    out
}

/// The rows without those that are not distinct from an earlier one.
pub fn deduplicate_sql_rows_typed<T>(rows: Vec<KeyedRow<T>>) -> (r: Vec<KeyedRow<T>>)
    ensures
        r@ == distinct_rows(rows@),
{
    let ghost all = rows@;
    let mut rest = reversed_rows(rows);
    let mut out: Vec<KeyedRow<T>> = Vec::new();
    assert(all.take(0) =~= Seq::<KeyedRow<T>>::empty());
    assert(all.skip(0).reverse() =~= rest@);
    assert(out@ =~= distinct_rows(all.take(0)));
    while rest.len() > 0
        invariant
            rest@.len() <= all.len(),
            rest@ == all.skip(all.len() - rest@.len()).reverse(),
            out@ == distinct_rows(all.take(all.len() - rest@.len())),
        decreases rest@.len(),
    {
        let ghost n = all.len() - rest@.len();
        let ghost before = rest@;
        let row = rest.pop().unwrap();
        proof {
            assert(row == all[n]);
            assert(rest@ =~= all.skip(n + 1).reverse());
            assert(all.take(n + 1).drop_last() =~= all.take(n));
            assert(all.take(n + 1).last() == row);
        }
        if !contains_key(&out, row.key) {
            out.push(row);
        }
    }
    assert(all.take(all.len() as int) =~= all);
    out
}

fn retain_matching<T>(rows: Vec<KeyedRow<T>>, others: &Vec<KeyedRow<T>>, occurs: bool) -> (r: Vec<
    KeyedRow<T>,
>)
    ensures
        r@ == matching_rows(rows@, others@, occurs),
{
    let ghost all = rows@;
    let mut rest = reversed_rows(rows);
    let mut out: Vec<KeyedRow<T>> = Vec::new();
    assert(all.take(0) =~= Seq::<KeyedRow<T>>::empty());
    assert(all.skip(0).reverse() =~= rest@);
    assert(out@ =~= matching_rows(all.take(0), others@, occurs));
    while rest.len() > 0
        invariant
            rest@.len() <= all.len(),
            rest@ == all.skip(all.len() - rest@.len()).reverse(),
            out@ == matching_rows(all.take(all.len() - rest@.len()), others@, occurs),
        decreases rest@.len(),
    {
        let ghost n = all.len() - rest@.len();
        let row = rest.pop().unwrap();
        proof {
            assert(row == all[n]);
            assert(rest@ =~= all.skip(n + 1).reverse());
            assert(all.take(n + 1).drop_last() =~= all.take(n));
            assert(all.take(n + 1).last() == row);
        }
        if contains_key(others, row.key) == occurs {
            out.push(row);
        }
    }
    assert(all.take(all.len() as int) =~= all);
    out
}

/// Combines the results of two queries by a set operation. The result has the
/// columns and the column types of the left one.
pub fn combine_set_results<T>(
    left: ResultRows<T>,
    op: SetOperator,
    quantifier: SetQuantifier,
    right: ResultRows<T>,
) -> (r: Result<ResultRows<T>, SqlError>)
    ensures
        match set_refusal(left.columns@.len(), op, quantifier, right.columns@.len()) {
            Some(v) => r matches Err(e) && e@ == v,
            None => r matches Ok(result) && result.columns == left.columns && result.column_types
                == left.column_types && result.rows@ == combined_rows(
                left.rows@,
                op,
                quantifier,
                right.rows@,
            ),
        },
{
    if left.columns.len() != right.columns.len() {
        let head = text::concat3(
            text_of_operator(op),
            " query column count mismatch: left has ",
            text::decimal_text(left.columns.len() as u64).as_str(),
        );
        let message = text::concat3(
            head.as_str(),
            ", right has ",
            text::decimal_text(right.columns.len() as u64).as_str(),
        );
        return Err(SqlError::invalid_sql(message));
    }
    match quantifier {
        SetQuantifier::Unquantified | SetQuantifier::Distinct | SetQuantifier::All => {},
        _ => {
            let head = text::concat3(text_of_operator(op), " ", text_of_quantifier(quantifier));
            return Err(
                SqlError::unsupported(text::concat(head.as_str(), " is not supported")),
            );
        },
    }
    if quantifier == SetQuantifier::All && op != SetOperator::Union {
        return Err(
            SqlError::unsupported(text::concat(text_of_operator(op), " ALL is not supported")),
        );
    }
    let rows: Vec<KeyedRow<T>> = match op {
        SetOperator::Union => {
            let mut all = left.rows;
            let mut more = right.rows;
            all.append(&mut more);
            if quantifier == SetQuantifier::All {
                all
            } else {
                deduplicate_sql_rows_typed(all)
            }
        },
        SetOperator::Intersect => deduplicate_sql_rows_typed(
            retain_matching(left.rows, &right.rows, true),
        ),
        _ => deduplicate_sql_rows_typed(retain_matching(left.rows, &right.rows, false)),
    };
    Ok(ResultRows { columns: left.columns, column_types: left.column_types, rows })
}

/// Deduplication keeps every class of rows, and one row of each.
pub proof fn law_distinct_rows<T>(rows: Seq<KeyedRow<T>>)
    ensures
        forall|key: u64| #[trigger] has_key(distinct_rows(rows), key) <==> has_key(rows, key),
        forall|i: int, j: int|
            0 <= i < j < distinct_rows(rows).len() ==> (#[trigger] distinct_rows(rows)[i]).key != (
            #[trigger] distinct_rows(rows)[j]).key,
    decreases rows.len(),
{
    if rows.len() > 0 {
        let rest = rows.drop_last();
        law_distinct_rows(rest);
        let kept = distinct_rows(rest);
        let all = distinct_rows(rows);
        assert forall|key: u64| #[trigger] has_key(all, key) <==> has_key(rows, key) by {
            if has_key(rows, key) {
                let i = choose|i: int| 0 <= i < rows.len() && (#[trigger] rows[i]).key == key;
                if i < rest.len() {
                    assert(rest[i].key == key);
                    assert(has_key(rest, key));
                    assert(has_key(kept, key));
                    let k = choose|k: int| 0 <= k < kept.len() && (#[trigger] kept[k]).key == key;
                    assert(all[k].key == key);
                } else if has_key(kept, key) {
                    let k = choose|k: int| 0 <= k < kept.len() && (#[trigger] kept[k]).key == key;
                    assert(all[k].key == key);
                } else {
                    assert(all[all.len() - 1].key == key);
                }
            }
            if has_key(all, key) {
                let k = choose|k: int| 0 <= k < all.len() && (#[trigger] all[k]).key == key;
                if k < kept.len() {
                    assert(kept[k].key == key);
                    assert(has_key(kept, key));
                    assert(has_key(rest, key));
                    let i = choose|i: int| 0 <= i < rest.len() && (#[trigger] rest[i]).key == key;
                    assert(rows[i].key == key);
                } else {
                    assert(rows[rows.len() - 1].key == key);
                }
            }
        }
        assert forall|i: int, j: int| 0 <= i < j < all.len() implies (#[trigger] all[i]).key != (
        #[trigger] all[j]).key by {
            assert(kept[i] == all[i]);
            if j < kept.len() {
                assert(kept[j] == all[j]);
            }
        }
    }
}

proof fn lemma_matching_rows<T>(
    rows: Seq<KeyedRow<T>>,
    others: Seq<KeyedRow<T>>,
    occurs: bool,
)
    ensures
        forall|key: u64| #[trigger]
            has_key(matching_rows(rows, others, occurs), key) <==> (has_key(rows, key) && has_key(
                others,
                key,
            ) == occurs),
    decreases rows.len(),
{
    if rows.len() > 0 {
        let rest = rows.drop_last();
        lemma_matching_rows(rest, others, occurs);
        let kept = matching_rows(rest, others, occurs);
        let all = matching_rows(rows, others, occurs);
        assert forall|key: u64| #[trigger]
            has_key(all, key) <==> (has_key(rows, key) && has_key(others, key) == occurs) by {
            if has_key(rows, key) && has_key(others, key) == occurs {
                let i = choose|i: int| 0 <= i < rows.len() && (#[trigger] rows[i]).key == key;
                if i < rest.len() {
                    assert(rest[i].key == key);
                    assert(has_key(rest, key));
                    assert(has_key(kept, key));
                    let k = choose|k: int| 0 <= k < kept.len() && (#[trigger] kept[k]).key == key;
                    assert(all[k].key == key);
                } else {
                    assert(all[all.len() - 1].key == key);
                }
            }
            if has_key(all, key) {
                let k = choose|k: int| 0 <= k < all.len() && (#[trigger] all[k]).key == key;
                if k < kept.len() {
                    assert(kept[k].key == key);
                    assert(has_key(kept, key));
                    assert(has_key(rest, key));
                    let i = choose|i: int| 0 <= i < rest.len() && (#[trigger] rest[i]).key == key;
                    assert(rows[i].key == key);
                } else {
                    assert(rows[rows.len() - 1].key == key);
                }
            }
        }
    }
}

/// A set operation yields the classes of rows that its name says: those of
/// either side, of both, or of the left side alone; and without ALL each of
/// them once.
pub proof fn law_set_operations<T>(
    left: Seq<KeyedRow<T>>,
    op: SetOperator,
    quantifier: SetQuantifier,
    right: Seq<KeyedRow<T>>,
)
    ensures
        forall|key: u64| #[trigger]
            has_key(combined_rows(left, op, quantifier, right), key) <==> match op {
                SetOperator::Union => has_key(left, key) || has_key(right, key),
                SetOperator::Intersect => has_key(left, key) && has_key(right, key),
                _ => has_key(left, key) && !has_key(right, key),
            },
        !(op == SetOperator::Union && quantifier == SetQuantifier::All) ==> forall|
            i: int,
            j: int,
        |
            0 <= i < j < combined_rows(left, op, quantifier, right).len() ==> (
            #[trigger] combined_rows(left, op, quantifier, right)[i]).key != (
            #[trigger] combined_rows(left, op, quantifier, right)[j]).key,
{
    let both = left + right;
    assert forall|key: u64| #[trigger]
        has_key(both, key) <==> has_key(left, key) || has_key(right, key) by {
        if has_key(left, key) {
            let i = choose|i: int| 0 <= i < left.len() && (#[trigger] left[i]).key == key;
            assert(both[i].key == key);
        }
        if has_key(right, key) {
            let i = choose|i: int| 0 <= i < right.len() && (#[trigger] right[i]).key == key;
            assert(both[left.len() + i].key == key);
        }
        if has_key(both, key) {
            let i = choose|i: int| 0 <= i < both.len() && (#[trigger] both[i]).key == key;
            if i < left.len() {
                assert(left[i].key == key);
            } else {
                assert(right[i - left.len()].key == key);
            }
        }
    }
    law_distinct_rows(both);
    lemma_matching_rows(left, right, true);
    lemma_matching_rows(left, right, false);
    law_distinct_rows(matching_rows(left, right, true));
    law_distinct_rows(matching_rows(left, right, false));
}

} // verus!
