//! What the columns of joined rows are, what a wildcard stands for, and under which name
//! a row has a value.
use vstd::prelude::*;
use crate::dotted;
use crate::row_columns;
use crate::row_columns::JoinedSlotSource;
use crate::sets;
use crate::sql_rows;
use crate::sql_rows::PathValues;
use crate::text;
use crate::values::ValueView;

verus! {

/// Joined columns are those of the left, in their order, and behind them the others of
/// the right, each once.
pub proof fn law_merged_columns(left: Seq<Seq<char>>, right: Seq<Seq<char>>, column: Seq<char>)
    ensures
        left.len() <= row_columns::merged(left, right).len() <= left.len() + right.len(),
        row_columns::merged(left, right).take(left.len() as int) == left,
        row_columns::merged(left, right).contains(column) <==> left.contains(column)
            || right.contains(column),
        left.no_duplicates() ==> row_columns::merged(left, right).no_duplicates(),
    decreases right.len(),
{
    let all = row_columns::merged(left, right);
    if right.len() > 0 {
        let rest = right.drop_last();
        law_merged_columns(left, rest, column);
        let before = row_columns::merged(left, rest);
        sets::law_added_contains(before, right.last(), column);
        if left.no_duplicates() {
            sets::law_added(before, right.last());
        }
        assert(all.take(left.len() as int) =~= before.take(left.len() as int));
        if rest.contains(column) {
            let i = choose|i: int| 0 <= i < rest.len() && rest[i] == column;
            assert(right[i] == column);
        }
        if right.contains(column) {
            let i = choose|i: int| 0 <= i < right.len() && right[i] == column;
            if i < rest.len() {
                assert(rest[i] == column);
            }
        }
        assert(right[right.len() - 1] == right.last());
    } else {
        assert(all.take(left.len() as int) =~= left);
    }
}

/// A joined row takes every place of the left row first, in order, and then of the right
/// row the places, in order, whose columns the left has not, and no other.
pub proof fn law_slot_sources(left: Seq<Seq<char>>, right: Seq<Seq<char>>, i: int)
    requires
        left.len() <= usize::MAX,
        right.len() <= usize::MAX,
    ensures
        ({
            let all = row_columns::slot_sources(left, right);
            &&& all.len() >= left.len()
            &&& 0 <= i < left.len() ==> all[i] == JoinedSlotSource::Left(i as usize)
            &&& left.len() <= i < all.len() ==> (all[i] matches JoinedSlotSource::Right(at) && at
                < right.len() && !left.contains(right[at as int]))
            &&& 0 <= i < right.len() && !left.contains(right[i]) ==> all.contains(
                JoinedSlotSource::Right(i as usize),
            )
        }),
{
    lemma_right_sources(left, right, i);
    let all = row_columns::slot_sources(left, right);
    let own = row_columns::right_sources(left, right);
    if left.len() <= i < all.len() {
        lemma_right_sources(left, right, i - left.len());
        assert(all[i] == own[i - left.len()]);
    }
    if 0 <= i < right.len() && !left.contains(right[i]) {
        let k = choose|k: int|
            0 <= k < own.len() && own[k] == JoinedSlotSource::Right(i as usize);
        assert(all[left.len() + k] == JoinedSlotSource::Right(i as usize));
    }
}

proof fn lemma_right_sources(left: Seq<Seq<char>>, right: Seq<Seq<char>>, i: int)
    requires
        right.len() <= usize::MAX,
    ensures
        ({
            let own = row_columns::right_sources(left, right);
            &&& 0 <= i < own.len() ==> (own[i] matches JoinedSlotSource::Right(at) && at
                < right.len() && !left.contains(right[at as int]))
            &&& 0 <= i < right.len() && !left.contains(right[i]) ==> own.contains(
                JoinedSlotSource::Right(i as usize),
            )
        }),
    decreases right.len(),
{
    if right.len() > 0 {
        let rest = right.drop_last();
        lemma_right_sources(left, rest, i);
        let before = row_columns::right_sources(left, rest);
        let own = row_columns::right_sources(left, right);
        if 0 <= i < right.len() && !left.contains(right[i]) {
            if i < rest.len() {
                assert(rest[i] == right[i]);
                let k = choose|k: int|
                    0 <= k < before.len() && before[k] == JoinedSlotSource::Right(i as usize);
                assert(own[k] == before[k]);
            } else {
                assert(own[before.len() as int] == JoinedSlotSource::Right(i as usize));
            }
        }
    }
}

/// A column that a qualified wildcard names: what stands before its first dot names the
/// table, and what stands behind is no column of the system.
pub open spec fn is_of_table(
    column: Seq<char>,
    object: Seq<char>,
    relation: Seq<char>,
    output: Seq<char>,
) -> bool {
    match dotted::split_first_dot(column) {
        Some((prefix, rest)) => rest == output && !row_columns::is_system_column(output)
            && row_columns::qualifies(object, relation, prefix),
        None => false,
    }
}

/// A qualified wildcard stands for every column of the table that it names, under its
/// plain name, and for no other.
pub proof fn law_qualified_columns(
    object: Seq<char>,
    relation: Seq<char>,
    columns: Seq<Seq<char>>,
    column: Seq<char>,
    output: Seq<char>,
)
    ensures
        row_columns::qualified(object, relation, columns).contains((column, output)) <==> (
        columns.contains(column) && is_of_table(column, object, relation, output)),
    decreases columns.len(),
{
    if columns.len() > 0 {
        let rest = columns.drop_last();
        law_qualified_columns(object, relation, rest, column, output);
        let before = row_columns::qualified(object, relation, rest);
        let all = row_columns::qualified(object, relation, columns);
        if before.contains((column, output)) {
            let k = choose|k: int| 0 <= k < before.len() && before[k] == (column, output);
            assert(all[k] == (column, output));
            let i = choose|i: int| 0 <= i < rest.len() && rest[i] == column;
            assert(columns[i] == column);
        }
        if all.contains((column, output)) {
            let k = choose|k: int| 0 <= k < all.len() && all[k] == (column, output);
            if k < before.len() {
                assert(before[k] == (column, output));
            } else {
                assert(columns[columns.len() - 1] == column);
            }
        }
        if columns.contains(column) && is_of_table(column, object, relation, output) {
            let i = choose|i: int| 0 <= i < columns.len() && columns[i] == column;
            if i < rest.len() {
                assert(rest[i] == column);
            } else {
                assert(all[before.len() as int] == (column, output));
            }
        }
    }
}

/// Where no column is qualified, a wildcard stands for all that are none of the
/// system's, each under its own name.
pub proof fn law_plain_columns(columns: Seq<Seq<char>>, column: Seq<char>, output: Seq<char>)
    ensures
        row_columns::plain_columns(columns).contains((column, output)) <==> columns.contains(column)
            && column == output && !row_columns::is_system_column(column),
    decreases columns.len(),
{
    if columns.len() > 0 {
        let rest = columns.drop_last();
        law_plain_columns(rest, column, output);
        let before = row_columns::plain_columns(rest);
        let all = row_columns::plain_columns(columns);
        if before.contains((column, output)) {
            let k = choose|k: int| 0 <= k < before.len() && before[k] == (column, output);
            assert(all[k] == (column, output));
            let i = choose|i: int| 0 <= i < rest.len() && rest[i] == column;
            assert(columns[i] == column);
        }
        if all.contains((column, output)) {
            let k = choose|k: int| 0 <= k < all.len() && all[k] == (column, output);
            if k < before.len() {
                assert(before[k] == (column, output));
            } else {
                assert(columns[columns.len() - 1] == column);
            }
        }
        if columns.contains(column) && column == output && !row_columns::is_system_column(column) {
            let i = choose|i: int| 0 <= i < columns.len() && columns[i] == column;
            if i < rest.len() {
                assert(rest[i] == column);
            } else {
                assert(all[before.len() as int] == (column, output));
            }
        }
    }
}

/// A wildcard fails only where columns are qualified and none is of the table that it
/// names.
pub proof fn law_wildcard_fails(object: Seq<char>, relation: Seq<char>, columns: Seq<Seq<char>>)
    ensures
        row_columns::wildcard(object, relation, columns) is Err <==> (exists|i: int|
            0 <= i < columns.len() && (#[trigger] columns[i]).contains('.')) && forall|
            i: int,
            output: Seq<char>,
        |
            0 <= i < columns.len() ==> !#[trigger] is_of_table(
                columns[i],
                object,
                relation,
                output,
            ),
{
    let found = row_columns::qualified(object, relation, columns);
    if found.len() > 0 {
        let (column, output) = found[0];
        assert(found.contains((column, output)));
        law_qualified_columns(object, relation, columns, column, output);
        let i = choose|i: int| 0 <= i < columns.len() && columns[i] == column;
        assert(is_of_table(columns[i], object, relation, output));
    } else {
        assert forall|i: int, output: Seq<char>| 0 <= i < columns.len() implies !#[trigger]
            is_of_table(columns[i], object, relation, output) by {
            law_qualified_columns(object, relation, columns, columns[i], output);
            if is_of_table(columns[i], object, relation, output) {
                assert(columns.contains(columns[i]));
                assert(found.contains((columns[i], output)));
            }
        }
    }
}

/// In a joined row a qualified name has the value of the right where that has it, a
/// plain name that of the left where that has it, and a name that only one side has
/// what it has there.
pub proof fn law_joined_values(
    left: Map<Seq<char>, ValueView>,
    right: Map<Seq<char>, ValueView>,
    name: Seq<char>,
)
    ensures
        ({
            let both = sql_rows::merged_rows(left, right);
            &&& both.dom().contains(name) <==> left.dom().contains(name) || right.dom().contains(
                name,
            )
            &&& left.dom().contains(name) && !right.dom().contains(name) ==> both[name]
                == left[name]
            &&& !left.dom().contains(name) && right.dom().contains(name) ==> both[name]
                == right[name]
            &&& left.dom().contains(name) && right.dom().contains(name) ==> both[name] == (
            if name.contains('.') {
                right[name]
            } else {
                left[name]
            })
        }),
{
}

/// A column that is put into a row is there under its plain name only where that is
/// free, and always under its name with the alias and with the table; no other name
/// changes.
pub proof fn law_column_put_in(
    row: Map<Seq<char>, ValueView>,
    table: Seq<char>,
    alias: Seq<char>,
    column: Seq<char>,
    value: ValueView,
    other: Seq<char>,
)
    requires
        !column.contains('.'),
    ensures
        ({
            let after = sql_rows::with_column(row, table, alias, column, value);
            &&& after.dom().contains(column) && after[column] == (if row.dom().contains(column) {
                row[column]
            } else {
                value
            })
            &&& after.dom().contains(alias + "."@ + column) && after[alias + "."@ + column] == value
            &&& after.dom().contains(table + "."@ + column) && after[table + "."@ + column] == value
            &&& other != column && other != alias + "."@ + column && other != table + "."@ + column
                ==> after.dom().contains(other) == row.dom().contains(other) && (row.dom().contains(
                other,
            ) ==> after[other] == row[other])
        }),
{
    reveal_strlit(".");
    lemma_dotted(alias, column);
    lemma_dotted(table, column);
}

proof fn lemma_dotted(prefix: Seq<char>, column: Seq<char>)
    requires
        !column.contains('.'),
    ensures
        prefix + "."@ + column != column,
{
    reveal_strlit(".");
    let whole = prefix + "."@ + column;
    assert(whole.len() == prefix.len() + 1 + column.len());
}

/// The row that columns and values make has under each column the value at its last
/// place.
pub proof fn law_row_of(columns: Seq<Seq<char>>, row: Seq<ValueView>, i: int)
    requires
        columns.len() == row.len(),
        0 <= i < columns.len(),
        forall|k: int| i < k < columns.len() ==> #[trigger] columns[k] != columns[i],
    ensures
        sql_rows::row_of(columns, row).dom().contains(columns[i]),
        sql_rows::row_of(columns, row)[columns[i]] == row[i],
    decreases columns.len(),
{
    if i < columns.len() - 1 {
        assert(columns[columns.len() - 1] != columns[i]);
        law_row_of(columns.drop_last(), row.drop_last(), i);
    }
}

/// A name of several parts is looked for as a whole first, then by its first two parts,
/// and only then in other ways; a plain name is looked for by itself. The exact name
/// goes before one in other letters.
pub proof fn law_value_of_parts(
    row: Map<Seq<char>, ValueView>,
    parts: Seq<Seq<char>>,
    paths: PathValues,
)
    requires
        parts.len() > 0,
    ensures
        ({
            let whole = text::joined(parts, "."@);
            &&& parts.len() == 1 && row.dom().contains(parts[0]) ==> sql_rows::value_of_parts(
                row,
                parts,
                paths,
            ) == Some(row[parts[0]])
            &&& parts.len() > 1 && row.dom().contains(whole) ==> sql_rows::value_of_parts(
                row,
                parts,
                paths,
            ) == Some(row[whole])
            &&& parts.len() == 2 && sql_rows::found(row, whole, whole) is None
                && row.dom().contains(parts[0] + "."@ + parts[1]) ==> sql_rows::value_of_parts(
                row,
                parts,
                paths,
            ) == Some(row[parts[0] + "."@ + parts[1]])
        }),
{
}

} // verus!
