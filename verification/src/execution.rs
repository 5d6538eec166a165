//! Running statements: lists of them, COPY, and how results are written.
use vstd::prelude::*;
use crate::error;
use crate::error::SqlError;
use crate::sql_rows;
use crate::sql_rows::SqlRow;
use crate::text;
use crate::values;
use crate::values::{SqlValue, ValueView};

verus! {

/// What a list of statements comes to: the first error, or else the last result. An
/// empty list is an error.
pub open spec fn last_result<T>(outcomes: Seq<Result<T, SqlError>>, from: int) -> Result<
    T,
    error::ErrorView,
>
    decreases outcomes.len() - from,
{
    if from < 0 || from >= outcomes.len() {
        Err(error::invalid_sql_error("empty SQL statement"@))
    } else {
        match outcomes[from] {
            Err(e) => Err(e@),
            Ok(result) => if from == outcomes.len() - 1 {
                Ok(result)
            } else {
                last_result(outcomes, from + 1)
            },
        }
    }
}

/// What a list of statements comes to. `outcomes` has what each came to, up to the
/// first that failed.
pub fn execute_statement_list<T>(outcomes: Vec<Result<T, SqlError>>) -> (r: Result<T, SqlError>)
    ensures
        match (r, last_result(outcomes@, 0)) {
            (Ok(a), Ok(b)) => a == b,
            (Err(e), Err(view)) => e@ == view,
            _ => false,
        },
{
    let ghost all = outcomes@;
    let mut rest = outcomes;
    let count = rest.len();
    let mut i: usize = 0;
    while i < count
        invariant
            i <= count,
            count == all.len(),
            all == outcomes@,
            rest@ == all.skip(i as int),
            last_result(all, 0) == last_result(all, i as int),
        decreases count - i,
    {
        assert(rest@[0] == all[i as int]);
        let outcome = rest.remove(0);
        assert(rest@ =~= all.skip(i + 1));
        match outcome {
            Err(e) => {
                return Err(e);
            },
            Ok(result) => {
                if i == count - 1 {
                    return Ok(result);
                }
            },
        }
        i = i + 1;
    }
    Err(SqlError::invalid_sql("empty SQL statement".to_owned()))
}

/// A list of statements of which none fails comes to the result of its last.
pub proof fn law_last_result<T>(outcomes: Seq<Result<T, SqlError>>, from: int)
    requires
        0 <= from < outcomes.len(),
        forall|i: int| from <= i < outcomes.len() ==> (#[trigger] outcomes[i]) is Ok,
    ensures
        last_result(outcomes, from) == Ok::<T, error::ErrorView>(outcomes.last()->Ok_0),
    decreases outcomes.len() - from,
{
    assert(outcomes[from] is Ok);
    if from < outcomes.len() - 1 {
        law_last_result(outcomes, from + 1);
    }
}

/// A column of the table that COPY fills.
#[derive(Debug)]
pub struct CopyColumn {
    pub name: String,
    pub hidden: bool,
    pub generated: bool,
}

/// The columns that COPY fills where none are listed: those that are neither hidden nor
/// generated.
pub open spec fn fillable(columns: Seq<CopyColumn>) -> Seq<Seq<char>>
    decreases columns.len(),
{
    if columns.len() == 0 {
        Seq::empty()
    } else {
        let before = fillable(columns.drop_last());
        if columns.last().hidden || columns.last().generated {
            before
        } else {
            before.push(columns.last().name@)
        }
    }
}

/// The columns that COPY fills: those that are listed, or those that can be.
pub fn copy_columns(listed: &Vec<String>, schema: Option<&Vec<CopyColumn>>) -> (r: Result<
    Vec<String>,
    SqlError,
>)
    ensures
        match r {
            Ok(columns) => if listed@.len() > 0 {
                text::views(columns@) == text::views(listed@)
            } else {
                schema is Some && text::views(columns@) == fillable(schema->0@)
            },
            Err(e) => listed@.len() == 0 && schema is None && e@ == error::unsupported_error(
                "COPY without a column list requires a table schema"@,
            ),
        },
{
    if listed.len() > 0 {
        return Ok(text::copy_names(listed));
    }
    match schema {
        None => Err(
            SqlError::unsupported("COPY without a column list requires a table schema".to_owned()),
        ),
        Some(columns) => {
            let mut out: Vec<String> = Vec::new();
            assert(text::views(out@) =~= Seq::empty());
            let mut i: usize = 0;
            while i < columns.len()
                invariant
                    i <= columns.len(),
                    text::views(out@) == fillable(columns@.take(i as int)),
                decreases columns.len() - i,
            {
                assert(columns@.take(i + 1).drop_last() =~= columns@.take(i as int));
                assert(columns@.take(i + 1).last() == columns@[i as int]);
                if !columns[i].hidden && !columns[i].generated {
                    let ghost prior = out@;
                    out.push(columns[i].name.clone());
                    assert(text::views(out@) =~= text::views(prior).push(
                        columns@[i as int].name@,
                    ));
                }
                i = i + 1;
            }
            assert(columns@.take(columns@.len() as int) =~= columns@);
            Ok(out)
        },
    }
}

pub open spec fn copy_value(v: Option<String>) -> ValueView {
    match v {
        Some(s) => ValueView::Text(s@),
        None => ValueView::Null,
    }
}

pub open spec fn copy_count_error(columns: nat, given: nat) -> error::ErrorView {
    error::invalid_sql_error(
        "COPY expected "@ + text::decimal(columns) + " columns, got "@ + text::decimal(given),
    )
}

pub open spec fn copy_values(row: Seq<Option<String>>) -> Seq<ValueView> {
    row.map_values(|v: Option<String>| copy_value(v))
}

/// The fields of a row that COPY reads: texts and nulls, one for each column.
pub fn copy_row(columns: &Vec<String>, row: &Vec<Option<String>>) -> (r: Result<SqlRow, SqlError>)
    ensures
        match r {
            Ok(fields) => columns@.len() == row@.len() && fields@ == sql_rows::row_of(
                text::views(columns@),
                copy_values(row@),
            ),
            Err(e) => columns@.len() != row@.len() && e@ == copy_count_error(
                columns@.len(),
                row@.len(),
            ),
        },
{
    if columns.len() != row.len() {
        let wanted = text::decimal_text(columns.len() as u64);
        let given = text::decimal_text(row.len() as u64);
        let start = text::concat3("COPY expected ", wanted.as_str(), " columns, got ");
        return Err(SqlError::invalid_sql(text::concat(start.as_str(), given.as_str())));
    }
    let mut list: Vec<SqlValue> = Vec::new();
    let mut i: usize = 0;
    while i < row.len()
        invariant
            i <= row.len(),
            list@.len() == i,
            forall|k: int| 0 <= k < i ==> (#[trigger] list@[k])@ == copy_value(row@[k]),
        decreases row.len() - i,
    {
        let value = match &row[i] {
            Some(s) => SqlValue::Text(s.clone()),
            None => SqlValue::Null,
        };
        list.push(value);
        i = i + 1;
    }
    assert(values::value_views(list@) =~= copy_values(row@));
    sql_rows::result_row_map(columns, &list)
}

/// How binary strings are written: as the session says, or else as the default says.
pub open spec fn bytea_escaped(setting: Option<Seq<char>>, default: Option<Seq<char>>) -> bool {
    match setting {
        Some(s) => s == "escape"@,
        None => match default {
            Some(s) => s == "escape"@,
            None => false,
        },
    }
}

/// A value of a result: its text, where it is one, and that text with its bytes escaped,
/// where it is that of a binary string.
#[derive(Debug)]
pub struct OutputCell {
    pub value: Option<String>,
    pub escaped: Option<String>,
}

/// The text that is sent of a value.
pub open spec fn output_text(c: OutputCell, escape: bool) -> Option<Seq<char>> {
    if escape && c.value is Some && c.escaped is Some {
        Some(c.escaped->0@)
    } else {
        error::view_option(c.value)
    }
}

pub open spec fn is_bytea(column_types: Seq<Option<String>>, i: int) -> bool {
    0 <= i < column_types.len() && error::view_option(column_types[i]) == Some("bytea"@)
}

/// The texts that are sent of a row.
pub open spec fn output_row(
    column_types: Seq<Option<String>>,
    row: Seq<OutputCell>,
    escape: bool,
) -> Seq<Option<Seq<char>>> {
    Seq::new(row.len(), |i: int| output_text(row[i], escape && is_bytea(column_types, i)))
}

pub open spec fn texts_of(row: Seq<Option<String>>) -> Seq<Option<Seq<char>>> {
    row.map_values(|t: Option<String>| error::view_option(t))
}

/// The texts that are sent of a row: binary strings with their bytes escaped where the
/// session asks for it.
pub fn apply_bytea_output(
    setting: Option<&str>,
    default: Option<&str>,
    column_types: &Vec<Option<String>>,
    row: &Vec<OutputCell>,
) -> (r: Vec<Option<String>>)
    ensures
        texts_of(r@) == output_row(
            column_types@,
            row@,
            bytea_escaped(text::view_str(setting), text::view_str(default)),
        ),
{
    let escape = match setting {
        Some(s) => text::text_eq(s, "escape"),
        None => match default {
            Some(s) => text::text_eq(s, "escape"),
            None => false,
        },
    };
    let mut out: Vec<Option<String>> = Vec::new();
    let mut i: usize = 0;
    while i < row.len()
        invariant
            i <= row.len(),
            out@.len() == i,
            forall|k: int|
                0 <= k < i ==> error::view_option(#[trigger] out@[k]) == output_text(
                    row@[k],
                    escape && is_bytea(column_types@, k),
                ),
        decreases row.len() - i,
    {
        let bytea = i < column_types.len() && (match &column_types[i] {
            Some(t) => text::text_eq(t.as_str(), "bytea"),
            None => false,
        });
        assert(bytea == is_bytea(column_types@, i as int));
        let value = match (&row[i].value, &row[i].escaped) {
            (Some(_), Some(escaped)) if escape && bytea => Some(escaped.clone()),
            (Some(value), _) => Some(value.clone()),
            (None, _) => None,
        };
        out.push(value);
        i = i + 1;
    }
    assert(texts_of(out@) =~= output_row(column_types@, row@, escape));
    out
}

/// Where the session does not ask for it, values are sent as they are.
pub proof fn law_plain_output(column_types: Seq<Option<String>>, row: Seq<OutputCell>)
    ensures
        output_row(column_types, row, false) == row.map_values(
            |c: OutputCell| error::view_option(c.value),
        ),
{
    assert(output_row(column_types, row, false) =~= row.map_values(
        |c: OutputCell| error::view_option(c.value),
    ));
}

/// The name that a procedure is called by.
pub fn call_procedure(name: &str, found: bool) -> (r: Result<String, SqlError>)
    ensures
        match r {
            Ok(called) => found && called@ == text::lower(name@),
            Err(e) => !found && e@ == error::invalid_sql_error(
                "procedure \""@ + text::lower(name@) + "\" does not exist"@,
            ),
        },
{
    let lowered = text::to_lower(name);
    if found {
        return Ok(lowered);
    }
    Err(
        SqlError::invalid_sql(text::concat3("procedure \"", lowered.as_str(), "\" does not exist")),
    )
}

/// Whether a text has an identifier in it: replacing it changes the text.
pub fn sql_contains_identifier(sql: &str, replaced: &str) -> (r: bool)
    ensures
        r == (replaced@ != sql@),
{
    !text::text_eq(replaced, sql)
}

} // verus!
