//! What a narrowed read of a virtual table may leave out: never a row that satisfies
//! the WHERE clause.
use vstd::prelude::*;
use crate::catalog_columns;
use crate::error::ErrorView;
use crate::filter_laws;
use crate::filter_laws::{FlagRow, NumberRow, Row, Target};
use crate::filters::{FilterKind, FilterShape};
use crate::oid_filters;
use crate::virtual_tables;
use crate::virtual_tables::{ReadView, Scope};

verus! {

/// A column of the table that is read.
pub open spec fn column_of(s: Scope, table: Seq<char>, field: Seq<char>) -> Target {
    Target { alias: s.alias@, table, fields: seq![field] }
}

/// A filter keeps a value; it keeps everything where there is none, and no null
/// otherwise.
pub open spec fn keeps<T>(filter: Option<Seq<T>>, value: Option<T>) -> bool {
    match filter {
        Some(items) => value is Some && items.contains(value->0),
        None => true,
    }
}

/// A row satisfies every term of the WHERE clause on a column.
pub open spec fn satisfied(s: Scope, row: Row, t: Target) -> bool {
    &&& forall|i: int|
        0 <= i < s.terms@.len() ==> filter_laws::compares_evaluated(
            #[trigger] s.terms@[i],
            FilterKind::Strings,
        )
    &&& forall|i: int|
        0 <= i < s.terms@.len() ==> filter_laws::satisfies(
            #[trigger] s.terms@[i],
            t,
            row,
            FilterKind::Strings,
        )
}

proof fn lemma_strings(s: Scope, table: Seq<char>, field: Seq<char>, row: Row, value: Option<Seq<char>>)
    requires
        satisfied(s, row, column_of(s, table, field)),
        filter_laws::target_is(row, column_of(s, table, field), value),
    ensures
        virtual_tables::strings_for(s, table, field) matches Ok(filter) ==> keeps(filter, value),
{
    filter_laws::law_clause_narrows(
        s.terms@,
        column_of(s, table, field),
        FilterKind::Strings,
        row,
        value,
        0,
    );
}

/// A row satisfies the equalities of the WHERE clause on a column of numbers, and no term
/// compares it with the number of another table.
pub open spec fn numbers_satisfied(s: Scope, row: NumberRow, t: Target) -> bool {
    &&& forall|i: int|
        0 <= i < s.terms@.len() ==> match (#[trigger] s.terms@[i]).shape {
            FilterShape::Equal(left, right) => filter_laws::is_target(*left, t)
                || filter_laws::is_target(*right, t) ==> filter_laws::is_resolved(*left)
                && filter_laws::is_resolved(*right) && filter_laws::number_in(*left, row) is Some
                && filter_laws::number_in(*left, row) == filter_laws::number_in(*right, row),
            _ => true,
        }
    &&& forall|i: int|
        0 <= i < s.terms@.len() ==> oid_filters::joined_field(
            #[trigger] s.terms@[i],
            t.alias,
            t.table,
            t.fields,
            seq!["oid"@],
        ) is None
}

proof fn lemma_no_joins(s: Scope, t: Target, row: NumberRow, from: int, found: Seq<i64>)
    requires
        numbers_satisfied(s, row, t),
        0 <= from,
    ensures
        oid_filters::joined_oids(s.terms@, t.alias, t.table, t.fields, s.tables@, from, found)
            == Ok::<Seq<i64>, ErrorView>(found),
    decreases s.terms@.len() - from,
{
    if from < s.terms@.len() {
        assert(oid_filters::joined_field(
            s.terms@[from],
            t.alias,
            t.table,
            t.fields,
            seq!["oid"@],
        ) is None);
        lemma_no_joins(s, t, row, from + 1, found);
    }
}

proof fn lemma_numbers(s: Scope, table: Seq<char>, field: Seq<char>, row: NumberRow, value: Option<i64>)
    requires
        numbers_satisfied(s, row, column_of(s, table, field)),
        forall|parts: Seq<Seq<char>>|
            filter_laws::names_target(parts, column_of(s, table, field)) ==> #[trigger] row(parts)
                == value,
    ensures
        virtual_tables::oids_for(s, table, field) matches Ok(filter) ==> keeps(filter, value),
{
    let t = column_of(s, table, field);
    filter_laws::law_clause_number(s.terms@, t, row, value, 0);
    match oid_filters::implied_oid(s.terms@, t.alias, t.table, t.fields, 0) {
        Ok(Some(oid)) => {
            lemma_no_joins(s, t, row, 0, seq![oid]);
            assert(seq![oid][0] == oid);
        },
        Ok(None) => {
            lemma_no_joins(s, t, row, 0, Seq::empty());
        },
        Err(_) => {},
    }
}

/// A narrowed read of `information_schema.columns` keeps every row that satisfies the WHERE
/// clause: by its schema, its table and its column.
pub proof fn law_columns_read(s: Scope, row: Row, schema: Option<Seq<char>>, table: Option<Seq<char>>, column: Option<Seq<char>>)
    requires
        satisfied(s, row, column_of(s, "information_schema.columns"@, "table_schema"@)),
        filter_laws::target_is(row, column_of(s, "information_schema.columns"@, "table_schema"@), schema),
        satisfied(s, row, column_of(s, "information_schema.columns"@, "table_name"@)),
        filter_laws::target_is(row, column_of(s, "information_schema.columns"@, "table_name"@), table),
        satisfied(s, row, column_of(s, "information_schema.columns"@, "column_name"@)),
        filter_laws::target_is(row, column_of(s, "information_schema.columns"@, "column_name"@), column),
    ensures
        match virtual_tables::columns_read(s) {
            Ok(ReadView::Columns(schemas, tables, columns)) => keeps(schemas, schema) && keeps(
                tables,
                table,
            ) && keeps(columns, column),
            Ok(read) => read == ReadView::All,
            Err(_) => true,
        },
{
    let name = "information_schema.columns"@;
    lemma_strings(s, name, "table_schema"@, row, schema);
    lemma_strings(s, name, "table_name"@, row, table);
    lemma_strings(s, name, "column_name"@, row, column);
}

/// A narrowed read of `pg_indexes` keeps every row that satisfies the WHERE clause: by its
/// schema, its table and its index.
pub proof fn law_index_definitions_read(s: Scope, row: Row, schema: Option<Seq<char>>, table: Option<Seq<char>>, index: Option<Seq<char>>)
    requires
        satisfied(s, row, column_of(s, "pg_indexes"@, "schemaname"@)),
        filter_laws::target_is(row, column_of(s, "pg_indexes"@, "schemaname"@), schema),
        satisfied(s, row, column_of(s, "pg_indexes"@, "tablename"@)),
        filter_laws::target_is(row, column_of(s, "pg_indexes"@, "tablename"@), table),
        satisfied(s, row, column_of(s, "pg_indexes"@, "indexname"@)),
        filter_laws::target_is(row, column_of(s, "pg_indexes"@, "indexname"@), index),
    ensures
        match virtual_tables::index_definitions_read(s) {
            Ok(ReadView::IndexDefinitions(schemas, tables, indexes)) => keeps(schemas, schema)
                && keeps(tables, table) && keeps(indexes, index),
            Ok(read) => read == ReadView::All,
            Err(_) => true,
        },
{
    let name = "pg_indexes"@;
    lemma_strings(s, name, "schemaname"@, row, schema);
    lemma_strings(s, name, "tablename"@, row, table);
    lemma_strings(s, name, "indexname"@, row, index);
}

/// A narrowed read of `pg_class` keeps every row that satisfies the WHERE clause: by the
/// name of its relation and its kind.
pub proof fn law_classes_read(s: Scope, answers: Seq<Seq<i64>>, row: Row, relation: Option<Seq<char>>, kind: Option<Seq<char>>)
    requires
        satisfied(s, row, column_of(s, "pg_class"@, "relname"@)),
        filter_laws::target_is(row, column_of(s, "pg_class"@, "relname"@), relation),
        satisfied(s, row, column_of(s, "pg_class"@, "relkind"@)),
        filter_laws::target_is(row, column_of(s, "pg_class"@, "relkind"@), kind),
    ensures
        match virtual_tables::classes_read(s, answers) {
            Ok(ReadView::Classes(names, kinds, _)) => keeps(names, relation) && keeps(kinds, kind),
            Ok(read) => read == ReadView::All,
            Err(_) => true,
        },
{
    lemma_strings(s, "pg_class"@, "relname"@, row, relation);
    lemma_strings(s, "pg_class"@, "relkind"@, row, kind);
}

/// A narrowed read of `pg_constraint` keeps every row that satisfies the WHERE clause: by
/// the name of its constraint and its kind, and by the number of its table.
pub proof fn law_constraints_read(s: Scope, row: Row, constraint: Option<Seq<char>>, kind: Option<Seq<char>>, numbers: NumberRow, table: Option<i64>)
    requires
        satisfied(s, row, column_of(s, "pg_constraint"@, "conname"@)),
        filter_laws::target_is(row, column_of(s, "pg_constraint"@, "conname"@), constraint),
        satisfied(s, row, column_of(s, "pg_constraint"@, "contype"@)),
        filter_laws::target_is(row, column_of(s, "pg_constraint"@, "contype"@), kind),
        numbers_satisfied(s, numbers, column_of(s, "pg_constraint"@, "conrelid"@)),
        forall|parts: Seq<Seq<char>>|
            filter_laws::names_target(parts, column_of(s, "pg_constraint"@, "conrelid"@))
                ==> #[trigger] numbers(parts) == table,
    ensures
        match virtual_tables::constraints_read(s) {
            Ok(ReadView::Constraints(names, kinds, tables)) => keeps(names, constraint) && keeps(
                kinds,
                kind,
            ) && keeps(tables, table),
            Ok(read) => read == ReadView::All,
            Err(_) => true,
        },
{
    lemma_strings(s, "pg_constraint"@, "conname"@, row, constraint);
    lemma_strings(s, "pg_constraint"@, "contype"@, row, kind);
    lemma_numbers(s, "pg_constraint"@, "conrelid"@, numbers, table);
}

/// A narrowed read of `pg_trigger` keeps every row that satisfies the WHERE clause: by the
/// name of its trigger, and by the number of its table.
pub proof fn law_triggers_read(s: Scope, row: Row, trigger: Option<Seq<char>>, numbers: NumberRow, table: Option<i64>)
    requires
        satisfied(s, row, column_of(s, "pg_trigger"@, "tgname"@)),
        filter_laws::target_is(row, column_of(s, "pg_trigger"@, "tgname"@), trigger),
        numbers_satisfied(s, numbers, column_of(s, "pg_trigger"@, "tgrelid"@)),
        forall|parts: Seq<Seq<char>>|
            filter_laws::names_target(parts, column_of(s, "pg_trigger"@, "tgrelid"@))
                ==> #[trigger] numbers(parts) == table,
    ensures
        match virtual_tables::triggers_read(s) {
            Ok(ReadView::Triggers(names, tables)) => keeps(names, trigger) && keeps(tables, table),
            Ok(read) => read == ReadView::All,
            Err(_) => true,
        },
{
    lemma_strings(s, "pg_trigger"@, "tgname"@, row, trigger);
    lemma_numbers(s, "pg_trigger"@, "tgrelid"@, numbers, table);
}

/// A narrowed read of `pg_index` keeps every row that satisfies the WHERE clause: by the
/// number of its table, by that of its index, and by whether it is of a primary key.
pub proof fn law_indexes_read(
    s: Scope,
    numbers: NumberRow,
    table: Option<i64>,
    index: Option<i64>,
    flags: FlagRow,
    primary: Option<bool>,
)
    requires
        numbers_satisfied(s, numbers, column_of(s, "pg_index"@, "indrelid"@)),
        numbers_satisfied(s, numbers, column_of(s, "pg_index"@, "indexrelid"@)),
        forall|parts: Seq<Seq<char>>|
            filter_laws::names_target(parts, column_of(s, "pg_index"@, "indrelid"@))
                ==> #[trigger] numbers(parts) == table,
        forall|parts: Seq<Seq<char>>|
            filter_laws::names_target(parts, column_of(s, "pg_index"@, "indexrelid"@))
                ==> #[trigger] numbers(parts) == index,
        forall|parts: Seq<Seq<char>>|
            filter_laws::names_target(parts, column_of(s, "pg_index"@, "indisprimary"@))
                ==> #[trigger] flags(parts) == primary,
        forall|i: int|
            0 <= i < s.terms@.len() ==> filter_laws::compares_flags(#[trigger] s.terms@[i]),
        forall|i: int|
            0 <= i < s.terms@.len() ==> filter_laws::satisfies_flag(
                #[trigger] s.terms@[i],
                column_of(s, "pg_index"@, "indisprimary"@),
                flags,
            ),
    ensures
        match virtual_tables::indexes_read(s) {
            Ok(ReadView::Indexes(flag, tables, indexes)) => (flag is Some ==> primary == flag)
                && keeps(tables, table) && keeps(indexes, index),
            Ok(read) => read == ReadView::All,
            Err(_) => true,
        },
{
    lemma_numbers(s, "pg_index"@, "indrelid"@, numbers, table);
    lemma_numbers(s, "pg_index"@, "indexrelid"@, numbers, index);
    filter_laws::law_clause_flag(
        s.terms@,
        column_of(s, "pg_index"@, "indisprimary"@),
        "indisprimary"@,
        flags,
        primary,
        0,
    );
}

proof fn lemma_read_names()
    ensures
        "information_schema.columns"@.len() == 26,
        "pg_class"@.len() == 8 && "pg_class"@[3] == 'c',
        "pg_attribute"@.len() == 12,
        "pg_attrdef"@.len() == 10 && "pg_attrdef"@[3] == 'a',
        "pg_index"@.len() == 8 && "pg_index"@[3] == 'i',
        "pg_indexes"@.len() == 10 && "pg_indexes"@[3] == 'i',
        "pg_constraint"@.len() == 13,
        "pg_trigger"@.len() == 10 && "pg_trigger"@[3] == 't',
        "pg_stat_all_tables"@.len() == 18,
        "pg_stat_user_tables"@.len() == 19,
{
    reveal_strlit("information_schema.columns");
    reveal_strlit("pg_class");
    reveal_strlit("pg_attribute");
    reveal_strlit("pg_attrdef");
    reveal_strlit("pg_index");
    reveal_strlit("pg_indexes");
    reveal_strlit("pg_constraint");
    reveal_strlit("pg_trigger");
    reveal_strlit("pg_stat_all_tables");
    reveal_strlit("pg_stat_user_tables");
}

/// Each table is narrowed by its own columns: the attributes and the defaults of a
/// relation by its number, statistics likewise, and a table that is not known to be
/// narrowed is read as a whole.
pub proof fn law_narrowed_by_number(
    table: Seq<char>,
    s: Scope,
    answers: Seq<Seq<i64>>,
    field: Seq<char>,
    numbers: NumberRow,
    value: Option<i64>,
)
    requires
        ({
            let name = catalog_columns::without_catalog(table);
            ||| name == "pg_attribute"@ && field == "attrelid"@
            ||| name == "pg_attrdef"@ && field == "adrelid"@
            ||| name == "pg_stat_all_tables"@ && field == "relid"@
            ||| name == "pg_stat_user_tables"@ && field == "relid"@
        }),
        numbers_satisfied(
            s,
            numbers,
            column_of(s, catalog_columns::without_catalog(table), field),
        ),
        forall|parts: Seq<Seq<char>>|
            filter_laws::names_target(
                parts,
                column_of(s, catalog_columns::without_catalog(table), field),
            ) ==> #[trigger] numbers(parts) == value,
    ensures
        match virtual_tables::narrowed_read(table, s, answers) {
            Ok(ReadView::Attributes(oids)) => catalog_columns::without_catalog(table)
                == "pg_attribute"@ && keeps(Some(oids), value),
            Ok(ReadView::Defaults(oids)) => catalog_columns::without_catalog(table)
                == "pg_attrdef"@ && keeps(Some(oids), value),
            Ok(ReadView::TableStatistics(oids)) => catalog_columns::without_catalog(table)
                != "pg_attribute"@ && keeps(Some(oids), value),
            Ok(read) => read == ReadView::All,
            Err(_) => true,
        },
{
    lemma_read_names();
    lemma_numbers(s, catalog_columns::without_catalog(table), field, numbers, value);
}

/// The narrowed read of a table is that of its own name, with the schema of the system
/// catalog in front or not; every other table is read as a whole.
pub proof fn law_narrowed_read(table: Seq<char>, s: Scope, answers: Seq<Seq<i64>>)
    ensures
        ({
            let name = catalog_columns::without_catalog(table);
            let read = virtual_tables::narrowed_read(table, s, answers);
            &&& name == "information_schema.columns"@ ==> read == virtual_tables::columns_read(s)
            &&& name == "pg_class"@ ==> read == virtual_tables::classes_read(s, answers)
            &&& name == "pg_index"@ ==> read == virtual_tables::indexes_read(s)
            &&& name == "pg_indexes"@ ==> read == virtual_tables::index_definitions_read(s)
            &&& name == "pg_constraint"@ ==> read == virtual_tables::constraints_read(s)
            &&& name == "pg_trigger"@ ==> read == virtual_tables::triggers_read(s)
            &&& name != "information_schema.columns"@ && name != "pg_class"@ && name != "pg_attribute"@ && name != "pg_attrdef"@ && name != "pg_index"@ && name != "pg_indexes"@ && name != "pg_constraint"@ && name != "pg_trigger"@ && name != "pg_stat_all_tables"@ && name != "pg_stat_user_tables"@ ==> read == Ok::<ReadView, ErrorView>(ReadView::All)
        }),
{
    lemma_read_names();
}

} // verus!
