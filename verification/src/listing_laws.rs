//! What filters of the information schema do.
use vstd::prelude::*;
use crate::catalog;
use crate::catalog::CellView;
use crate::filters;
use crate::information_schema;
use crate::information_schema::{ColumnInfo, ColumnSources, RelationKind, TableInfo};

verus! {

/// A filter lets a cell with that name through.
pub open spec fn lets_cell_through(
    row: Seq<(Seq<char>, CellView)>,
    name: Seq<char>,
    filter: Option<Seq<Seq<char>>>,
) -> bool {
    match catalog::cell_named(row, name, 0) {
        Some(CellView::Text(text)) => filters::lets_through(filter, text),
        _ => false,
    }
}

/// The filters let a row of `information_schema.columns` through.
pub open spec fn lets_row_through(
    row: Seq<(Seq<char>, CellView)>,
    schemas: Option<Seq<Seq<char>>>,
    tables: Option<Seq<Seq<char>>>,
    names: Option<Seq<Seq<char>>>,
) -> bool {
    &&& lets_cell_through(row, "table_schema"@, schemas)
    &&& lets_cell_through(row, "table_name"@, tables)
    &&& lets_cell_through(row, "column_name"@, names)
}

/// The rows that the filters let through, in their order.
pub open spec fn picked(
    rows: Seq<Seq<(Seq<char>, CellView)>>,
    schemas: Option<Seq<Seq<char>>>,
    tables: Option<Seq<Seq<char>>>,
    names: Option<Seq<Seq<char>>>,
) -> Seq<Seq<(Seq<char>, CellView)>>
    decreases rows.len(),
{
    if rows.len() == 0 {
        Seq::empty()
    } else {
        let before = picked(rows.drop_last(), schemas, tables, names);
        if lets_row_through(rows.last(), schemas, tables, names) {
            before.push(rows.last())
        } else {
            before
        }
    }
}

proof fn lemma_picked_append(
    a: Seq<Seq<(Seq<char>, CellView)>>,
    b: Seq<Seq<(Seq<char>, CellView)>>,
    schemas: Option<Seq<Seq<char>>>,
    tables: Option<Seq<Seq<char>>>,
    names: Option<Seq<Seq<char>>>,
)
    ensures
        picked(a + b, schemas, tables, names) == picked(a, schemas, tables, names) + picked(
            b,
            schemas,
            tables,
            names,
        ),
    decreases b.len(),
{
    if b.len() == 0 {
        assert(a + b =~= a);
    } else {
        assert((a + b).drop_last() =~= a + b.drop_last());
        assert((a + b).last() == b.last());
        lemma_picked_append(a, b.drop_last(), schemas, tables, names);
        assert(picked(a + b, schemas, tables, names) =~= picked(a, schemas, tables, names) + picked(
            b,
            schemas,
            tables,
            names,
        ));
    }
}

proof fn lemma_cells(kind: RelationKind, table: Seq<char>, c: ColumnInfo, ordinal: i64)
    ensures
        ({
            let row = information_schema::column_cells(kind, table, c, ordinal);
            &&& catalog::cell_named(row, "table_schema"@, 0) == Some(CellView::Text("public"@))
            &&& catalog::cell_named(row, "table_name"@, 0) == Some(CellView::Text(table))
            &&& catalog::cell_named(row, "column_name"@, 0) == Some(CellView::Text(c.name@))
        }),
{
    reveal_strlit("table_catalog");
    reveal_strlit("table_schema");
    reveal_strlit("table_name");
    reveal_strlit("column_name");
    reveal_with_fuel(catalog::cell_named, 5);
    let row = information_schema::column_cells(kind, table, c, ordinal);
    assert(row[0].0 == "table_catalog"@);
    assert(row[1] == ("table_schema"@, CellView::Text("public"@)));
    assert(row[2] == ("table_name"@, CellView::Text(table)));
    assert(row[3] == ("column_name"@, CellView::Text(c.name@)));
    assert("table_catalog"@.len() == 13);
    assert("table_schema"@.len() == 12);
    assert("table_name"@.len() == 10);
    assert("column_name"@.len() == 11);
}

proof fn lemma_relation_picked(
    kind: RelationKind,
    table: Seq<char>,
    columns: Seq<ColumnInfo>,
    schemas: Option<Seq<Seq<char>>>,
    tables: Option<Seq<Seq<char>>>,
    names: Option<Seq<Seq<char>>>,
    n: int,
)
    requires
        0 <= n <= columns.len(),
    ensures
        picked(
            information_schema::relation_rows(kind, table, columns, None, n),
            schemas,
            tables,
            names,
        ) == if information_schema::lists_relation(schemas, tables, table) {
            information_schema::relation_rows(kind, table, columns, names, n)
        } else {
            Seq::empty()
        },
    decreases n,
{
    if n > 0 {
        lemma_relation_picked(kind, table, columns, schemas, tables, names, n - 1);
        let before = information_schema::relation_rows(kind, table, columns, None, n - 1);
        let row = information_schema::column_cells(kind, table, columns[n - 1], n as i64);
        lemma_cells(kind, table, columns[n - 1], n as i64);
        assert(before.push(row).drop_last() =~= before);
    }
}

proof fn lemma_collections_picked(
    s: ColumnSources,
    schemas: Option<Seq<Seq<char>>>,
    tables: Option<Seq<Seq<char>>>,
    names: Option<Seq<Seq<char>>>,
    n: int,
)
    requires
        0 <= n <= s.collections@.len(),
    ensures
        picked(
            information_schema::collection_rows(s, None, None, None, n),
            schemas,
            tables,
            names,
        ) == information_schema::collection_rows(s, schemas, tables, names, n),
    decreases n,
{
    if n > 0 {
        lemma_collections_picked(s, schemas, tables, names, n - 1);
        let name = s.collections@[n - 1]@;
        let columns = information_schema::collection_columns(s, name);
        let before = information_schema::collection_rows(s, None, None, None, n - 1);
        let own = information_schema::relation_rows(
            RelationKind::Table,
            name,
            columns,
            None,
            columns.len() as int,
        );
        lemma_picked_append(before, own, schemas, tables, names);
        lemma_relation_picked(
            RelationKind::Table,
            name,
            columns,
            schemas,
            tables,
            names,
            columns.len() as int,
        );
        assert(picked(before + own, schemas, tables, names)
            =~= information_schema::collection_rows(s, schemas, tables, names, n));
    }
}

proof fn lemma_listed_picked(
    kind: RelationKind,
    relations: Seq<TableInfo>,
    schemas: Option<Seq<Seq<char>>>,
    tables: Option<Seq<Seq<char>>>,
    names: Option<Seq<Seq<char>>>,
    n: int,
)
    requires
        0 <= n <= relations.len(),
    ensures
        picked(
            information_schema::listed_rows(kind, relations, None, None, None, n),
            schemas,
            tables,
            names,
        ) == information_schema::listed_rows(kind, relations, schemas, tables, names, n),
    decreases n,
{
    if n > 0 {
        lemma_listed_picked(kind, relations, schemas, tables, names, n - 1);
        let relation = relations[n - 1];
        let before = information_schema::listed_rows(kind, relations, None, None, None, n - 1);
        let own = information_schema::relation_rows(
            kind,
            relation.name@,
            relation.columns@,
            None,
            relation.columns@.len() as int,
        );
        lemma_picked_append(before, own, schemas, tables, names);
        lemma_relation_picked(
            kind,
            relation.name@,
            relation.columns@,
            schemas,
            tables,
            names,
            relation.columns@.len() as int,
        );
        assert(picked(before + own, schemas, tables, names) =~= information_schema::listed_rows(
            kind,
            relations,
            schemas,
            tables,
            names,
            n,
        ));
    }
}

/// Filtering `information_schema.columns` picks rows of the whole list, in its order
/// and with all cells as they are there: a filter renumbers no column.
pub proof fn law_filtered_columns_are_picked(
    s: ColumnSources,
    schemas: Option<Seq<Seq<char>>>,
    tables: Option<Seq<Seq<char>>>,
    names: Option<Seq<Seq<char>>>,
)
    ensures
        information_schema::filtered_columns(s, schemas, tables, names) == picked(
            information_schema::filtered_columns(s, None, None, None),
            schemas,
            tables,
            names,
        ),
{
    let a = information_schema::collection_rows(s, None, None, None, s.collections@.len() as int);
    let b = information_schema::listed_rows(
        RelationKind::View,
        s.views@,
        None,
        None,
        None,
        s.views@.len() as int,
    );
    let c = information_schema::listed_rows(
        RelationKind::Graph,
        s.graphs@,
        None,
        None,
        None,
        s.graphs@.len() as int,
    );
    lemma_picked_append(a + b, c, schemas, tables, names);
    lemma_picked_append(a, b, schemas, tables, names);
    lemma_collections_picked(s, schemas, tables, names, s.collections@.len() as int);
    lemma_listed_picked(RelationKind::View, s.views@, schemas, tables, names, s.views@.len() as int);
    lemma_listed_picked(
        RelationKind::Graph,
        s.graphs@,
        schemas,
        tables,
        names,
        s.graphs@.len() as int,
    );
}

} // verus!
