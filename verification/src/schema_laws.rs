//! What the information schema shows, stated of the columns, types and routines
//! that it shows and of the cells under each name.
use vstd::prelude::*;
use crate::catalog;
use crate::catalog::CellView;
use crate::error;
use crate::information_schema;
use crate::information_schema::{ColumnInfo, ColumnSources, DomainInfo, EntryView,
    ParameterInfo, RelationKind, RoutineInfo, TableInfo, TypeForm, TypeInfo};
use crate::order;
use crate::picks;
use crate::pseudo_types::ArgumentMode;
use crate::text;

verus! {

/// The rows of a listing.
pub type Row = Seq<(Seq<char>, CellView)>;

/// The cell under that name is that text.
pub open spec fn shows(row: Row, name: Seq<char>, t: Seq<char>) -> bool {
    catalog::cell_named(row, name, 0) == Some(CellView::Text(t))
}

/// The cell under that name is null.
pub open spec fn shows_null(row: Row, name: Seq<char>) -> bool {
    catalog::cell_named(row, name, 0) == Some(CellView::Null)
}

/// The cell under that name is that number.
pub open spec fn shows_int(row: Row, name: Seq<char>, n: int) -> bool {
    exists|i: i64|
        i == n && #[trigger] catalog::cell_named(row, name, 0) == Some(CellView::Int(i))
}

/// The cell under that name is that text, or null where there is none.
pub open spec fn shows_if_any(row: Row, name: Seq<char>, t: Option<String>) -> bool {
    match t {
        Some(s) => shows(row, name, s@),
        None => shows_null(row, name),
    }
}

/// The cell under that name is that number, or null where there is none.
pub open spec fn shows_int_if_any(row: Row, name: Seq<char>, n: Option<i64>) -> bool {
    match n {
        Some(i) => catalog::cell_named(row, name, 0) == Some(CellView::Int(i)),
        None => shows_null(row, name),
    }
}

/// The cell under that name is YES exactly where that holds, and NO exactly
/// where it does not.
pub open spec fn shows_whether(row: Row, name: Seq<char>, holds: bool) -> bool {
    &&& shows(row, name, "YES"@) <==> holds
    &&& shows(row, name, "NO"@) <==> !holds
}

/// The cells that a column has in every listing of columns.
pub open spec fn shows_column(row: Row, table: Seq<char>, c: ColumnInfo, ordinal: int) -> bool {
    &&& shows(row, "table_catalog"@, "bicdb"@)
    &&& shows(row, "table_schema"@, "public"@)
    &&& shows(row, "table_name"@, table)
    &&& shows(row, "column_name"@, c.name@)
    &&& shows_int(row, "ordinal_position"@, ordinal)
    &&& shows(row, "dtd_identifier"@, text::signed_decimal(ordinal))
    &&& shows(row, "data_type"@, c.data_type@)
    &&& shows(row, "udt_catalog"@, "bicdb"@)
    &&& shows(row, "udt_schema"@, c.udt_schema@)
    &&& shows(row, "udt_name"@, c.udt_name@)
    &&& shows_int_if_any(row, "character_maximum_length"@, c.maximum_length)
    &&& shows_int_if_any(row, "character_octet_length"@, c.octet_length)
    &&& shows_whether(row, "is_self_referencing"@, false)
    &&& shows_whether(row, "is_updatable"@, true)
}

/// The domain of a column is shown, where it has one.
pub open spec fn shows_domain_of(row: Row, c: ColumnInfo) -> bool {
    match c.domain {
        Some((schema, name)) => shows(row, "domain_catalog"@, "bicdb"@) && shows(
            row,
            "domain_schema"@,
            schema@,
        ) && shows(row, "domain_name"@, name@),
        None => shows_null(row, "domain_catalog"@) && shows_null(row, "domain_schema"@)
            && shows_null(row, "domain_name"@),
    }
}

/// A row shows a column of a table: above all, it says YES under `is_nullable`
/// exactly where the column admits nulls.
pub open spec fn shows_table_column(row: Row, table: Seq<char>, c: ColumnInfo, ordinal: int) -> bool {
    &&& shows_column(row, table, c, ordinal)
    &&& shows_domain_of(row, c)
    &&& shows_whether(row, "is_nullable"@, c.nullable)
    &&& shows_whether(row, "is_identity"@, c.identity is Some)
    &&& match c.generated_expr {
        Some(expression) => shows(row, "is_generated"@, "ALWAYS"@) && shows(
            row,
            "generation_expression"@,
            expression@,
        ),
        None => shows(row, "is_generated"@, "NEVER"@) && shows_null(row, "generation_expression"@),
    }
    &&& match c.collation {
        Some(collation) => shows(row, "collation_name"@, collation@) && shows(
            row,
            "collation_schema"@,
            "pg_catalog"@,
        ) && shows(row, "collation_catalog"@, "bicdb"@),
        None => shows_null(row, "collation_name"@) && shows_null(row, "collation_schema"@)
            && shows_null(row, "collation_catalog"@),
    }
    &&& match c.identity {
        Some(kind) => {
            &&& shows_null(row, "column_default"@)
            &&& kind@ == "a"@ ==> shows(row, "identity_generation"@, "ALWAYS"@)
            &&& kind@ != "a"@ ==> shows(row, "identity_generation"@, "BY DEFAULT"@)
            &&& match c.sequence {
                Some(s) => shows(row, "identity_start"@, text::signed_decimal(s.start_value as int))
                    && shows(
                    row,
                    "identity_increment"@,
                    text::signed_decimal(s.increment_by as int),
                ) && shows(row, "identity_maximum"@, text::signed_decimal(s.max_value as int))
                    && shows(row, "identity_minimum"@, text::signed_decimal(s.min_value as int))
                    && shows_whether(row, "identity_cycle"@, s.cycle),
                None => shows_no_sequence(row),
            }
        },
        None => {
            &&& shows_null(row, "identity_generation"@)
            &&& shows_no_sequence(row)
            &&& c.generated_expr is Some || c.default_sequence is None ==> shows_null(
                row,
                "column_default"@,
            )
            &&& c.generated_expr is None && c.default_sequence is Some ==> shows(
                row,
                "column_default"@,
                "nextval('"@ + c.default_sequence->0@ + "'::regclass)"@,
            )
        },
    }
}

/// A row shows no sequence behind a column.
pub open spec fn shows_no_sequence(row: Row) -> bool {
    &&& shows_null(row, "identity_start"@)
    &&& shows_null(row, "identity_increment"@)
    &&& shows_null(row, "identity_maximum"@)
    &&& shows_null(row, "identity_minimum"@)
    &&& shows_whether(row, "identity_cycle"@, false)
}

/// A row shows a column of a view, which admits nulls and has no default.
pub open spec fn shows_view_column(row: Row, view: Seq<char>, c: ColumnInfo, ordinal: int) -> bool {
    &&& shows_column(row, view, c, ordinal)
    &&& shows_domain_of(row, c)
    &&& shows_whether(row, "is_nullable"@, true)
    &&& shows_whether(row, "is_identity"@, false)
    &&& shows(row, "is_generated"@, "NEVER"@)
    &&& shows_null(row, "generation_expression"@)
    &&& shows_null(row, "column_default"@)
    &&& shows_null(row, "identity_generation"@)
    &&& shows_no_sequence(row)
}

/// A row shows a column of a graph table, which admits nulls and has no domain.
pub open spec fn shows_graph_column(row: Row, graph: Seq<char>, c: ColumnInfo, ordinal: int) -> bool {
    &&& shows_column(row, graph, c, ordinal)
    &&& shows_whether(row, "is_nullable"@, true)
    &&& shows(row, "is_generated"@, "NEVER"@)
    &&& shows_null(row, "generation_expression"@)
    &&& shows_null(row, "domain_catalog"@)
    &&& shows_null(row, "domain_schema"@)
    &&& shows_null(row, "domain_name"@)
}

proof fn lemma_answers()
    ensures
        "YES"@.len() == 3,
        "NO"@.len() == 2,
{
    reveal_strlit("YES");
    reveal_strlit("NO");
}

proof fn lemma_table_column_names()
    ensures
        "table_catalog"@.len() == 13 && "table_catalog"@[0] == 't',
        "table_schema"@.len() == 12 && "table_schema"@[0] == 't',
        "table_name"@.len() == 10 && "table_name"@[0] == 't',
        "column_name"@.len() == 11 && "column_name"@[0] == 'c',
        "ordinal_position"@.len() == 16 && "ordinal_position"@[0] == 'o',
        "data_type"@.len() == 9,
        "domain_catalog"@.len() == 14 && "domain_catalog"@[0] == 'd' && "domain_catalog"@[1] == 'o',
        "domain_schema"@.len() == 13 && "domain_schema"@[0] == 'd',
        "domain_name"@.len() == 11 && "domain_name"@[0] == 'd',
        "udt_catalog"@.len() == 11 && "udt_catalog"@[0] == 'u',
        "udt_schema"@.len() == 10 && "udt_schema"@[0] == 'u',
        "udt_name"@.len() == 8,
        "dtd_identifier"@.len() == 14 && "dtd_identifier"@[0] == 'd' && "dtd_identifier"@[1] == 't',
        "is_self_referencing"@.len() == 19 && "is_self_referencing"@[1] == 's',
        "is_generated"@.len() == 12 && "is_generated"@[0] == 'i' && "is_generated"@[3] == 'g',
        "generation_expression"@.len() == 21,
        "is_updatable"@.len() == 12 && "is_updatable"@[0] == 'i' && "is_updatable"@[3] == 'u',
        "character_maximum_length"@.len() == 24,
        "character_octet_length"@.len() == 22,
        "collation_catalog"@.len() == 17,
        "collation_schema"@.len() == 16 && "collation_schema"@[0] == 'c',
        "collation_name"@.len() == 14 && "collation_name"@[0] == 'c' && "collation_name"@[3] == 'l',
        "is_nullable"@.len() == 11 && "is_nullable"@[0] == 'i' && "is_nullable"@[3] == 'n',
        "column_default"@.len() == 14 && "column_default"@[0] == 'c' && "column_default"@[3] == 'u',
        "is_identity"@.len() == 11 && "is_identity"@[0] == 'i' && "is_identity"@[3] == 'i',
        "identity_generation"@.len() == 19 && "identity_generation"@[1] == 'd',
        "identity_start"@.len() == 14 && "identity_start"@[0] == 'i' && "identity_start"@[9] == 's',
        "identity_increment"@.len() == 18,
        "identity_maximum"@.len() == 16 && "identity_maximum"@[0] == 'i' && "identity_maximum"@[10] == 'a',
        "identity_minimum"@.len() == 16 && "identity_minimum"@[0] == 'i' && "identity_minimum"@[10] == 'i',
        "identity_cycle"@.len() == 14 && "identity_cycle"@[0] == 'i' && "identity_cycle"@[9] == 'c',
{
    reveal_strlit("table_catalog");
    reveal_strlit("table_schema");
    reveal_strlit("table_name");
    reveal_strlit("column_name");
    reveal_strlit("ordinal_position");
    reveal_strlit("data_type");
    reveal_strlit("domain_catalog");
    reveal_strlit("domain_schema");
    reveal_strlit("domain_name");
    reveal_strlit("udt_catalog");
    reveal_strlit("udt_schema");
    reveal_strlit("udt_name");
    reveal_strlit("dtd_identifier");
    reveal_strlit("is_self_referencing");
    reveal_strlit("is_generated");
    reveal_strlit("generation_expression");
    reveal_strlit("is_updatable");
    reveal_strlit("character_maximum_length");
    reveal_strlit("character_octet_length");
    reveal_strlit("collation_catalog");
    reveal_strlit("collation_schema");
    reveal_strlit("collation_name");
    reveal_strlit("is_nullable");
    reveal_strlit("column_default");
    reveal_strlit("is_identity");
    reveal_strlit("identity_generation");
    reveal_strlit("identity_start");
    reveal_strlit("identity_increment");
    reveal_strlit("identity_maximum");
    reveal_strlit("identity_minimum");
    reveal_strlit("identity_cycle");
}

#[verifier::rlimit(60)]
proof fn lemma_table_column_cells(table: Seq<char>, c: ColumnInfo, ordinal: i64)
    ensures
        ({
            let row = information_schema::table_column_row_cells(table, c, ordinal);
            &&& catalog::cell_named(row, "table_catalog"@, 0) == Some(row[0].1)
            &&& catalog::cell_named(row, "table_schema"@, 0) == Some(row[1].1)
            &&& catalog::cell_named(row, "table_name"@, 0) == Some(row[2].1)
            &&& catalog::cell_named(row, "column_name"@, 0) == Some(row[3].1)
            &&& catalog::cell_named(row, "ordinal_position"@, 0) == Some(row[4].1)
            &&& catalog::cell_named(row, "data_type"@, 0) == Some(row[5].1)
            &&& catalog::cell_named(row, "domain_catalog"@, 0) == Some(row[6].1)
            &&& catalog::cell_named(row, "domain_schema"@, 0) == Some(row[7].1)
            &&& catalog::cell_named(row, "domain_name"@, 0) == Some(row[8].1)
            &&& catalog::cell_named(row, "udt_catalog"@, 0) == Some(row[9].1)
            &&& catalog::cell_named(row, "udt_schema"@, 0) == Some(row[10].1)
            &&& catalog::cell_named(row, "udt_name"@, 0) == Some(row[11].1)
            &&& catalog::cell_named(row, "dtd_identifier"@, 0) == Some(row[12].1)
            &&& catalog::cell_named(row, "is_self_referencing"@, 0) == Some(row[13].1)
            &&& catalog::cell_named(row, "is_generated"@, 0) == Some(row[14].1)
            &&& catalog::cell_named(row, "generation_expression"@, 0) == Some(row[15].1)
            &&& catalog::cell_named(row, "is_updatable"@, 0) == Some(row[16].1)
            &&& catalog::cell_named(row, "character_maximum_length"@, 0) == Some(row[17].1)
            &&& catalog::cell_named(row, "character_octet_length"@, 0) == Some(row[18].1)
            &&& catalog::cell_named(row, "collation_catalog"@, 0) == Some(row[19].1)
            &&& catalog::cell_named(row, "collation_schema"@, 0) == Some(row[20].1)
            &&& catalog::cell_named(row, "collation_name"@, 0) == Some(row[21].1)
            &&& catalog::cell_named(row, "is_nullable"@, 0) == Some(row[22].1)
            &&& catalog::cell_named(row, "column_default"@, 0) == Some(row[23].1)
            &&& catalog::cell_named(row, "is_identity"@, 0) == Some(row[24].1)
            &&& catalog::cell_named(row, "identity_generation"@, 0) == Some(row[25].1)
            &&& catalog::cell_named(row, "identity_start"@, 0) == Some(row[26].1)
            &&& catalog::cell_named(row, "identity_increment"@, 0) == Some(row[27].1)
            &&& catalog::cell_named(row, "identity_maximum"@, 0) == Some(row[28].1)
            &&& catalog::cell_named(row, "identity_minimum"@, 0) == Some(row[29].1)
            &&& catalog::cell_named(row, "identity_cycle"@, 0) == Some(row[30].1)
        }),
{
    lemma_table_column_names();
    reveal_with_fuel(catalog::cell_named, 32);
    let row = information_schema::table_column_row_cells(table, c, ordinal);
    assert(row[0].0 == "table_catalog"@);
    assert(row[1].0 == "table_schema"@);
    assert(row[2].0 == "table_name"@);
    assert(row[3].0 == "column_name"@);
    assert(row[4].0 == "ordinal_position"@);
    assert(row[5].0 == "data_type"@);
    assert(row[6].0 == "domain_catalog"@);
    assert(row[7].0 == "domain_schema"@);
    assert(row[8].0 == "domain_name"@);
    assert(row[9].0 == "udt_catalog"@);
    assert(row[10].0 == "udt_schema"@);
    assert(row[11].0 == "udt_name"@);
    assert(row[12].0 == "dtd_identifier"@);
    assert(row[13].0 == "is_self_referencing"@);
    assert(row[14].0 == "is_generated"@);
    assert(row[15].0 == "generation_expression"@);
    assert(row[16].0 == "is_updatable"@);
    assert(row[17].0 == "character_maximum_length"@);
    assert(row[18].0 == "character_octet_length"@);
    assert(row[19].0 == "collation_catalog"@);
    assert(row[20].0 == "collation_schema"@);
    assert(row[21].0 == "collation_name"@);
    assert(row[22].0 == "is_nullable"@);
    assert(row[23].0 == "column_default"@);
    assert(row[24].0 == "is_identity"@);
    assert(row[25].0 == "identity_generation"@);
    assert(row[26].0 == "identity_start"@);
    assert(row[27].0 == "identity_increment"@);
    assert(row[28].0 == "identity_maximum"@);
    assert(row[29].0 == "identity_minimum"@);
    assert(row[30].0 == "identity_cycle"@);
}

#[verifier::rlimit(60)]
proof fn lemma_table_column_shown(table: Seq<char>, c: ColumnInfo, ordinal: i64)
    ensures
        shows_table_column(information_schema::table_column_row_cells(table, c, ordinal), table, c, ordinal as int),
{
    lemma_answers();
    lemma_table_column_cells(table, c, ordinal);
    let row = information_schema::table_column_row_cells(table, c, ordinal);
    assert(row[0].1 == CellView::Text("bicdb"@));
    assert(row[1].1 == CellView::Text("public"@));
    assert(row[2].1 == CellView::Text(table));
    assert(row[3].1 == CellView::Text(c.name@));
    assert(row[4].1 == CellView::Int(ordinal));
    assert(row[5].1 == CellView::Text(c.data_type@));
    assert(row[6].1 == catalog::text_or_null(if c.domain is Some { Some("bicdb"@) } else { None }));
    assert(row[7].1 == catalog::text_or_null(information_schema::first_of(c.domain)));
    assert(row[8].1 == catalog::text_or_null(information_schema::second_of(c.domain)));
    assert(row[9].1 == CellView::Text("bicdb"@));
    assert(row[10].1 == CellView::Text(c.udt_schema@));
    assert(row[11].1 == CellView::Text(c.udt_name@));
    assert(row[12].1 == CellView::Text(text::signed_decimal(ordinal as int)));
    assert(row[13].1 == CellView::Text("NO"@));
    assert(row[14].1 == CellView::Text(if c.generated_expr is Some { "ALWAYS"@ } else { "NEVER"@ }));
    assert(row[15].1 == catalog::text_or_null(error::view_option(c.generated_expr)));
    assert(row[16].1 == CellView::Text("YES"@));
    assert(row[17].1 == catalog::int_or_null(c.maximum_length));
    assert(row[18].1 == catalog::int_or_null(c.octet_length));
    assert(row[19].1 == catalog::text_or_null(if c.collation is Some { Some("bicdb"@) } else { None }));
    assert(row[20].1 == catalog::text_or_null(if c.collation is Some { Some("pg_catalog"@) } else { None }));
    assert(row[21].1 == catalog::text_or_null(error::view_option(c.collation)));
    assert(row[22].1 == CellView::Text(if c.nullable { "YES"@ } else { "NO"@ }));
    assert(row[23].1 == catalog::text_or_null(information_schema::default_text(c)));
    assert(row[24].1 == CellView::Text(if c.identity is Some { "YES"@ } else { "NO"@ }));
    assert(row[25].1 == catalog::text_or_null(information_schema::identity_generation(c)));
    assert(row[26].1 == catalog::text_or_null(information_schema::sequence_text(c, |s: information_schema::SequenceInfo| s.start_value)));
    assert(row[27].1 == catalog::text_or_null(information_schema::sequence_text(c, |s: information_schema::SequenceInfo| s.increment_by)));
    assert(row[28].1 == catalog::text_or_null(information_schema::sequence_text(c, |s: information_schema::SequenceInfo| s.max_value)));
    assert(row[29].1 == catalog::text_or_null(information_schema::sequence_text(c, |s: information_schema::SequenceInfo| s.min_value)));
    assert(row[30].1 == CellView::Text(if c.identity is Some && c.sequence is Some && c.sequence->0.cycle { "YES"@ } else { "NO"@ }));
}

proof fn lemma_view_column_names()
    ensures
        "table_catalog"@.len() == 13 && "table_catalog"@[0] == 't',
        "table_schema"@.len() == 12 && "table_schema"@[0] == 't',
        "table_name"@.len() == 10 && "table_name"@[0] == 't',
        "column_name"@.len() == 11 && "column_name"@[0] == 'c',
        "ordinal_position"@.len() == 16 && "ordinal_position"@[0] == 'o',
        "data_type"@.len() == 9,
        "domain_catalog"@.len() == 14 && "domain_catalog"@[0] == 'd' && "domain_catalog"@[1] == 'o',
        "domain_schema"@.len() == 13 && "domain_schema"@[0] == 'd',
        "domain_name"@.len() == 11 && "domain_name"@[0] == 'd',
        "udt_catalog"@.len() == 11 && "udt_catalog"@[0] == 'u',
        "udt_schema"@.len() == 10 && "udt_schema"@[0] == 'u',
        "udt_name"@.len() == 8,
        "dtd_identifier"@.len() == 14 && "dtd_identifier"@[0] == 'd' && "dtd_identifier"@[1] == 't',
        "is_self_referencing"@.len() == 19 && "is_self_referencing"@[1] == 's',
        "is_generated"@.len() == 12 && "is_generated"@[0] == 'i' && "is_generated"@[3] == 'g',
        "generation_expression"@.len() == 21,
        "is_updatable"@.len() == 12 && "is_updatable"@[0] == 'i' && "is_updatable"@[3] == 'u',
        "character_maximum_length"@.len() == 24,
        "character_octet_length"@.len() == 22,
        "is_nullable"@.len() == 11 && "is_nullable"@[0] == 'i' && "is_nullable"@[3] == 'n',
        "column_default"@.len() == 14 && "column_default"@[0] == 'c',
        "is_identity"@.len() == 11 && "is_identity"@[0] == 'i' && "is_identity"@[3] == 'i',
        "identity_generation"@.len() == 19 && "identity_generation"@[1] == 'd',
        "identity_start"@.len() == 14 && "identity_start"@[0] == 'i' && "identity_start"@[9] == 's',
        "identity_increment"@.len() == 18,
        "identity_maximum"@.len() == 16 && "identity_maximum"@[0] == 'i' && "identity_maximum"@[10] == 'a',
        "identity_minimum"@.len() == 16 && "identity_minimum"@[0] == 'i' && "identity_minimum"@[10] == 'i',
        "identity_cycle"@.len() == 14 && "identity_cycle"@[0] == 'i' && "identity_cycle"@[9] == 'c',
{
    reveal_strlit("table_catalog");
    reveal_strlit("table_schema");
    reveal_strlit("table_name");
    reveal_strlit("column_name");
    reveal_strlit("ordinal_position");
    reveal_strlit("data_type");
    reveal_strlit("domain_catalog");
    reveal_strlit("domain_schema");
    reveal_strlit("domain_name");
    reveal_strlit("udt_catalog");
    reveal_strlit("udt_schema");
    reveal_strlit("udt_name");
    reveal_strlit("dtd_identifier");
    reveal_strlit("is_self_referencing");
    reveal_strlit("is_generated");
    reveal_strlit("generation_expression");
    reveal_strlit("is_updatable");
    reveal_strlit("character_maximum_length");
    reveal_strlit("character_octet_length");
    reveal_strlit("is_nullable");
    reveal_strlit("column_default");
    reveal_strlit("is_identity");
    reveal_strlit("identity_generation");
    reveal_strlit("identity_start");
    reveal_strlit("identity_increment");
    reveal_strlit("identity_maximum");
    reveal_strlit("identity_minimum");
    reveal_strlit("identity_cycle");
}

#[verifier::rlimit(60)]
proof fn lemma_view_column_cells(table: Seq<char>, c: ColumnInfo, ordinal: i64)
    ensures
        ({
            let row = information_schema::view_column_row_cells(table, c, ordinal);
            &&& catalog::cell_named(row, "table_catalog"@, 0) == Some(row[0].1)
            &&& catalog::cell_named(row, "table_schema"@, 0) == Some(row[1].1)
            &&& catalog::cell_named(row, "table_name"@, 0) == Some(row[2].1)
            &&& catalog::cell_named(row, "column_name"@, 0) == Some(row[3].1)
            &&& catalog::cell_named(row, "ordinal_position"@, 0) == Some(row[4].1)
            &&& catalog::cell_named(row, "data_type"@, 0) == Some(row[5].1)
            &&& catalog::cell_named(row, "domain_catalog"@, 0) == Some(row[6].1)
            &&& catalog::cell_named(row, "domain_schema"@, 0) == Some(row[7].1)
            &&& catalog::cell_named(row, "domain_name"@, 0) == Some(row[8].1)
            &&& catalog::cell_named(row, "udt_catalog"@, 0) == Some(row[9].1)
            &&& catalog::cell_named(row, "udt_schema"@, 0) == Some(row[10].1)
            &&& catalog::cell_named(row, "udt_name"@, 0) == Some(row[11].1)
            &&& catalog::cell_named(row, "dtd_identifier"@, 0) == Some(row[12].1)
            &&& catalog::cell_named(row, "is_self_referencing"@, 0) == Some(row[13].1)
            &&& catalog::cell_named(row, "is_generated"@, 0) == Some(row[14].1)
            &&& catalog::cell_named(row, "generation_expression"@, 0) == Some(row[15].1)
            &&& catalog::cell_named(row, "is_updatable"@, 0) == Some(row[16].1)
            &&& catalog::cell_named(row, "character_maximum_length"@, 0) == Some(row[17].1)
            &&& catalog::cell_named(row, "character_octet_length"@, 0) == Some(row[18].1)
            &&& catalog::cell_named(row, "is_nullable"@, 0) == Some(row[19].1)
            &&& catalog::cell_named(row, "column_default"@, 0) == Some(row[20].1)
            &&& catalog::cell_named(row, "is_identity"@, 0) == Some(row[21].1)
            &&& catalog::cell_named(row, "identity_generation"@, 0) == Some(row[22].1)
            &&& catalog::cell_named(row, "identity_start"@, 0) == Some(row[23].1)
            &&& catalog::cell_named(row, "identity_increment"@, 0) == Some(row[24].1)
            &&& catalog::cell_named(row, "identity_maximum"@, 0) == Some(row[25].1)
            &&& catalog::cell_named(row, "identity_minimum"@, 0) == Some(row[26].1)
            &&& catalog::cell_named(row, "identity_cycle"@, 0) == Some(row[27].1)
        }),
{
    lemma_view_column_names();
    reveal_with_fuel(catalog::cell_named, 29);
    let row = information_schema::view_column_row_cells(table, c, ordinal);
    assert(row[0].0 == "table_catalog"@);
    assert(row[1].0 == "table_schema"@);
    assert(row[2].0 == "table_name"@);
    assert(row[3].0 == "column_name"@);
    assert(row[4].0 == "ordinal_position"@);
    assert(row[5].0 == "data_type"@);
    assert(row[6].0 == "domain_catalog"@);
    assert(row[7].0 == "domain_schema"@);
    assert(row[8].0 == "domain_name"@);
    assert(row[9].0 == "udt_catalog"@);
    assert(row[10].0 == "udt_schema"@);
    assert(row[11].0 == "udt_name"@);
    assert(row[12].0 == "dtd_identifier"@);
    assert(row[13].0 == "is_self_referencing"@);
    assert(row[14].0 == "is_generated"@);
    assert(row[15].0 == "generation_expression"@);
    assert(row[16].0 == "is_updatable"@);
    assert(row[17].0 == "character_maximum_length"@);
    assert(row[18].0 == "character_octet_length"@);
    assert(row[19].0 == "is_nullable"@);
    assert(row[20].0 == "column_default"@);
    assert(row[21].0 == "is_identity"@);
    assert(row[22].0 == "identity_generation"@);
    assert(row[23].0 == "identity_start"@);
    assert(row[24].0 == "identity_increment"@);
    assert(row[25].0 == "identity_maximum"@);
    assert(row[26].0 == "identity_minimum"@);
    assert(row[27].0 == "identity_cycle"@);
}

#[verifier::rlimit(60)]
proof fn lemma_view_column_shown(table: Seq<char>, c: ColumnInfo, ordinal: i64)
    ensures
        shows_view_column(information_schema::view_column_row_cells(table, c, ordinal), table, c, ordinal as int),
{
    lemma_answers();
    lemma_view_column_cells(table, c, ordinal);
    let row = information_schema::view_column_row_cells(table, c, ordinal);
    assert(row[0].1 == CellView::Text("bicdb"@));
    assert(row[1].1 == CellView::Text("public"@));
    assert(row[2].1 == CellView::Text(table));
    assert(row[3].1 == CellView::Text(c.name@));
    assert(row[4].1 == CellView::Int(ordinal));
    assert(row[5].1 == CellView::Text(c.data_type@));
    assert(row[6].1 == catalog::text_or_null(if c.domain is Some { Some("bicdb"@) } else { None }));
    assert(row[7].1 == catalog::text_or_null(information_schema::first_of(c.domain)));
    assert(row[8].1 == catalog::text_or_null(information_schema::second_of(c.domain)));
    assert(row[9].1 == CellView::Text("bicdb"@));
    assert(row[10].1 == CellView::Text(c.udt_schema@));
    assert(row[11].1 == CellView::Text(c.udt_name@));
    assert(row[12].1 == CellView::Text(text::signed_decimal(ordinal as int)));
    assert(row[13].1 == CellView::Text("NO"@));
    assert(row[14].1 == CellView::Text("NEVER"@));
    assert(row[15].1 == CellView::Null);
    assert(row[16].1 == CellView::Text("YES"@));
    assert(row[17].1 == catalog::int_or_null(c.maximum_length));
    assert(row[18].1 == catalog::int_or_null(c.octet_length));
    assert(row[19].1 == CellView::Text("YES"@));
    assert(row[20].1 == CellView::Null);
    assert(row[21].1 == CellView::Text("NO"@));
    assert(row[22].1 == CellView::Null);
    assert(row[23].1 == CellView::Null);
    assert(row[24].1 == CellView::Null);
    assert(row[25].1 == CellView::Null);
    assert(row[26].1 == CellView::Null);
    assert(row[27].1 == CellView::Text("NO"@));
}

proof fn lemma_graph_column_names()
    ensures
        "table_catalog"@.len() == 13 && "table_catalog"@[0] == 't',
        "table_schema"@.len() == 12 && "table_schema"@[0] == 't',
        "table_name"@.len() == 10 && "table_name"@[0] == 't',
        "column_name"@.len() == 11 && "column_name"@[0] == 'c',
        "ordinal_position"@.len() == 16,
        "data_type"@.len() == 9,
        "domain_catalog"@.len() == 14 && "domain_catalog"@[1] == 'o',
        "domain_schema"@.len() == 13 && "domain_schema"@[0] == 'd',
        "domain_name"@.len() == 11 && "domain_name"@[0] == 'd',
        "udt_catalog"@.len() == 11 && "udt_catalog"@[0] == 'u',
        "udt_schema"@.len() == 10 && "udt_schema"@[0] == 'u',
        "udt_name"@.len() == 8,
        "dtd_identifier"@.len() == 14 && "dtd_identifier"@[1] == 't',
        "is_self_referencing"@.len() == 19,
        "is_generated"@.len() == 12 && "is_generated"@[0] == 'i' && "is_generated"@[3] == 'g',
        "generation_expression"@.len() == 21,
        "is_updatable"@.len() == 12 && "is_updatable"@[0] == 'i' && "is_updatable"@[3] == 'u',
        "character_maximum_length"@.len() == 24,
        "character_octet_length"@.len() == 22,
        "is_nullable"@.len() == 11 && "is_nullable"@[0] == 'i',
{
    reveal_strlit("table_catalog");
    reveal_strlit("table_schema");
    reveal_strlit("table_name");
    reveal_strlit("column_name");
    reveal_strlit("ordinal_position");
    reveal_strlit("data_type");
    reveal_strlit("domain_catalog");
    reveal_strlit("domain_schema");
    reveal_strlit("domain_name");
    reveal_strlit("udt_catalog");
    reveal_strlit("udt_schema");
    reveal_strlit("udt_name");
    reveal_strlit("dtd_identifier");
    reveal_strlit("is_self_referencing");
    reveal_strlit("is_generated");
    reveal_strlit("generation_expression");
    reveal_strlit("is_updatable");
    reveal_strlit("character_maximum_length");
    reveal_strlit("character_octet_length");
    reveal_strlit("is_nullable");
}

#[verifier::rlimit(60)]
proof fn lemma_graph_column_cells(table: Seq<char>, c: ColumnInfo, ordinal: i64)
    ensures
        ({
            let row = information_schema::graph_column_row_cells(table, c, ordinal);
            &&& catalog::cell_named(row, "table_catalog"@, 0) == Some(row[0].1)
            &&& catalog::cell_named(row, "table_schema"@, 0) == Some(row[1].1)
            &&& catalog::cell_named(row, "table_name"@, 0) == Some(row[2].1)
            &&& catalog::cell_named(row, "column_name"@, 0) == Some(row[3].1)
            &&& catalog::cell_named(row, "ordinal_position"@, 0) == Some(row[4].1)
            &&& catalog::cell_named(row, "data_type"@, 0) == Some(row[5].1)
            &&& catalog::cell_named(row, "domain_catalog"@, 0) == Some(row[6].1)
            &&& catalog::cell_named(row, "domain_schema"@, 0) == Some(row[7].1)
            &&& catalog::cell_named(row, "domain_name"@, 0) == Some(row[8].1)
            &&& catalog::cell_named(row, "udt_catalog"@, 0) == Some(row[9].1)
            &&& catalog::cell_named(row, "udt_schema"@, 0) == Some(row[10].1)
            &&& catalog::cell_named(row, "udt_name"@, 0) == Some(row[11].1)
            &&& catalog::cell_named(row, "dtd_identifier"@, 0) == Some(row[12].1)
            &&& catalog::cell_named(row, "is_self_referencing"@, 0) == Some(row[13].1)
            &&& catalog::cell_named(row, "is_generated"@, 0) == Some(row[14].1)
            &&& catalog::cell_named(row, "generation_expression"@, 0) == Some(row[15].1)
            &&& catalog::cell_named(row, "is_updatable"@, 0) == Some(row[16].1)
            &&& catalog::cell_named(row, "character_maximum_length"@, 0) == Some(row[17].1)
            &&& catalog::cell_named(row, "character_octet_length"@, 0) == Some(row[18].1)
            &&& catalog::cell_named(row, "is_nullable"@, 0) == Some(row[19].1)
        }),
{
    lemma_graph_column_names();
    reveal_with_fuel(catalog::cell_named, 21);
    let row = information_schema::graph_column_row_cells(table, c, ordinal);
    assert(row[0].0 == "table_catalog"@);
    assert(row[1].0 == "table_schema"@);
    assert(row[2].0 == "table_name"@);
    assert(row[3].0 == "column_name"@);
    assert(row[4].0 == "ordinal_position"@);
    assert(row[5].0 == "data_type"@);
    assert(row[6].0 == "domain_catalog"@);
    assert(row[7].0 == "domain_schema"@);
    assert(row[8].0 == "domain_name"@);
    assert(row[9].0 == "udt_catalog"@);
    assert(row[10].0 == "udt_schema"@);
    assert(row[11].0 == "udt_name"@);
    assert(row[12].0 == "dtd_identifier"@);
    assert(row[13].0 == "is_self_referencing"@);
    assert(row[14].0 == "is_generated"@);
    assert(row[15].0 == "generation_expression"@);
    assert(row[16].0 == "is_updatable"@);
    assert(row[17].0 == "character_maximum_length"@);
    assert(row[18].0 == "character_octet_length"@);
    assert(row[19].0 == "is_nullable"@);
}

#[verifier::rlimit(60)]
proof fn lemma_graph_column_shown(table: Seq<char>, c: ColumnInfo, ordinal: i64)
    ensures
        shows_graph_column(information_schema::graph_column_row_cells(table, c, ordinal), table, c, ordinal as int),
{
    lemma_answers();
    lemma_graph_column_cells(table, c, ordinal);
    let row = information_schema::graph_column_row_cells(table, c, ordinal);
    assert(row[0].1 == CellView::Text("bicdb"@));
    assert(row[1].1 == CellView::Text("public"@));
    assert(row[2].1 == CellView::Text(table));
    assert(row[3].1 == CellView::Text(c.name@));
    assert(row[4].1 == CellView::Int(ordinal));
    assert(row[5].1 == CellView::Text(c.data_type@));
    assert(row[6].1 == CellView::Null);
    assert(row[7].1 == CellView::Null);
    assert(row[8].1 == CellView::Null);
    assert(row[9].1 == CellView::Text("bicdb"@));
    assert(row[10].1 == CellView::Text(c.udt_schema@));
    assert(row[11].1 == CellView::Text(c.udt_name@));
    assert(row[12].1 == CellView::Text(text::signed_decimal(ordinal as int)));
    assert(row[13].1 == CellView::Text("NO"@));
    assert(row[14].1 == CellView::Text("NEVER"@));
    assert(row[15].1 == CellView::Null);
    assert(row[16].1 == CellView::Text("YES"@));
    assert(row[17].1 == catalog::int_or_null(c.maximum_length));
    assert(row[18].1 == catalog::int_or_null(c.octet_length));
    assert(row[19].1 == CellView::Text("YES"@));
}

/// A row shows a column of a relation of that kind.
pub open spec fn shows_column_of(
    row: Row,
    kind: RelationKind,
    relation: Seq<char>,
    c: ColumnInfo,
    ordinal: int,
) -> bool {
    match kind {
        RelationKind::Table => shows_table_column(row, relation, c, ordinal),
        RelationKind::View => shows_view_column(row, relation, c, ordinal),
        RelationKind::Graph => shows_graph_column(row, relation, c, ordinal),
    }
}

proof fn lemma_column_shown(kind: RelationKind, relation: Seq<char>, c: ColumnInfo, ordinal: i64)
    ensures
        shows_column_of(
            information_schema::column_cells(kind, relation, c, ordinal),
            kind,
            relation,
            c,
            ordinal as int,
        ),
{
    match kind {
        RelationKind::Table => {
            lemma_table_column_shown(relation, c, ordinal);
        },
        RelationKind::View => {
            lemma_view_column_shown(relation, c, ordinal);
        },
        RelationKind::Graph => {
            lemma_graph_column_shown(relation, c, ordinal);
        },
    }
}

/// The rows of a relation are those of its columns, in their order and numbered
/// from one.
proof fn lemma_relation_rows(
    kind: RelationKind,
    relation: Seq<char>,
    columns: Seq<ColumnInfo>,
    n: int,
)
    requires
        0 <= n <= columns.len() <= i64::MAX,
    ensures
        information_schema::relation_rows(kind, relation, columns, None, n).len() == n,
        forall|i: int|
            0 <= i < n ==> shows_column_of(
                #[trigger] information_schema::relation_rows(kind, relation, columns, None, n)[i],
                kind,
                relation,
                columns[i],
                i + 1,
            ),
    decreases n,
{
    if n > 0 {
        lemma_relation_rows(kind, relation, columns, n - 1);
        lemma_column_shown(kind, relation, columns[n - 1], n as i64);
        let before = information_schema::relation_rows(kind, relation, columns, None, n - 1);
        let all = information_schema::relation_rows(kind, relation, columns, None, n);
        assert forall|i: int| 0 <= i < n implies shows_column_of(
            #[trigger] all[i],
            kind,
            relation,
            columns[i],
            i + 1,
        ) by {
            if i < n - 1 {
                assert(all[i] == before[i]);
            }
        }
    }
}

/// The columns of a collection can be numbered.
proof fn lemma_collection_numbered(s: ColumnSources, name: Seq<char>)
    requires
        s.numbered(),
    ensures
        information_schema::collection_columns(s, name).len() <= i64::MAX,
{
    lemma_named_numbered(s, name, 0);
    if let Some(columns) = information_schema::columns_named(s.tables@, name, 0) {
        lemma_visible(columns);
    }
}

proof fn lemma_named_numbered(s: ColumnSources, name: Seq<char>, from: int)
    requires
        s.numbered(),
    ensures
        information_schema::columns_named(s.tables@, name, from) is Some
            ==> information_schema::columns_named(s.tables@, name, from)->0.len() <= i64::MAX,
    decreases s.tables@.len() - from,
{
    if 0 <= from < s.tables@.len() {
        assert(s.tables@[from].columns@.len() <= i64::MAX);
        lemma_named_numbered(s, name, from + 1);
    }
}

/// The columns that are not hidden, in their order.
pub open spec fn unhidden(kept: Seq<ColumnInfo>, columns: Seq<ColumnInfo>) -> bool {
    picks::picked(kept, columns, |i: int| !columns[i].hidden)
}

proof fn lemma_visible(columns: Seq<ColumnInfo>)
    ensures
        unhidden(information_schema::visible(columns), columns),
        information_schema::visible(columns).len() <= columns.len(),
    decreases columns.len(),
{
    let wanted = |i: int| !columns[i].hidden;
    if columns.len() == 0 {
        picks::lemma_picked_none(information_schema::visible(columns), columns, wanted);
    } else {
        let rest = columns.drop_last();
        lemma_visible(rest);
        let narrower = |i: int| !rest[i].hidden;
        let kept = information_schema::visible(rest);
        picks::lemma_picked_alike(kept, rest, narrower, wanted);
        picks::lemma_picked_next(kept, columns, wanted);
    }
}

/// A collection shows the columns that are not hidden of the first table that
/// is declared under its name, whatever the case, and those of an undeclared
/// table where there is none.
pub proof fn law_columns_of_collection(s: ColumnSources, name: Seq<char>, i: int)
    ensures
        (0 <= i < s.tables@.len() && text::lower(s.tables@[i].name@) == text::lower(name) && forall|
            k: int,
        |
            0 <= k < i ==> text::lower((#[trigger] s.tables@[k]).name@) != text::lower(name))
            ==> unhidden(information_schema::collection_columns(s, name), s.tables@[i].columns@),
        (forall|k: int|
            0 <= k < s.tables@.len() ==> text::lower((#[trigger] s.tables@[k]).name@)
                != text::lower(name)) ==> information_schema::collection_columns(s, name)
            == s.undeclared@,
{
    if 0 <= i < s.tables@.len() && text::lower(s.tables@[i].name@) == text::lower(name) && forall|
        k: int,
    |
        0 <= k < i ==> text::lower((#[trigger] s.tables@[k]).name@) != text::lower(name) {
        lemma_first_named(s.tables@, name, 0, i);
        lemma_visible(s.tables@[i].columns@);
    }
    if forall|k: int|
        0 <= k < s.tables@.len() ==> text::lower((#[trigger] s.tables@[k]).name@) != text::lower(
            name,
        ) {
        lemma_none_named(s.tables@, name, 0);
    }
}

proof fn lemma_first_named(tables: Seq<TableInfo>, name: Seq<char>, from: int, i: int)
    requires
        0 <= from <= i < tables.len(),
        text::lower(tables[i].name@) == text::lower(name),
        forall|k: int|
            0 <= k < i ==> text::lower((#[trigger] tables[k]).name@) != text::lower(name),
    ensures
        information_schema::columns_named(tables, name, from) == Some(tables[i].columns@),
    decreases i - from,
{
    if from < i {
        assert(text::lower(tables[from].name@) != text::lower(name));
        lemma_first_named(tables, name, from + 1, i);
    }
}

proof fn lemma_none_named(tables: Seq<TableInfo>, name: Seq<char>, from: int)
    requires
        0 <= from,
        forall|k: int|
            0 <= k < tables.len() ==> text::lower((#[trigger] tables[k]).name@) != text::lower(
                name,
            ),
    ensures
        information_schema::columns_named(tables, name, from) is None,
    decreases tables.len() - from,
{
    if from < tables.len() {
        assert(text::lower(tables[from].name@) != text::lower(name));
        lemma_none_named(tables, name, from + 1);
    }
}

/// One of the rows shows a column of a relation.
pub open spec fn lists_column(
    rows: Seq<Row>,
    kind: RelationKind,
    relation: Seq<char>,
    c: ColumnInfo,
    ordinal: int,
) -> bool {
    exists|r: int|
        0 <= r < rows.len() && #[trigger] shows_column_of(rows[r], kind, relation, c, ordinal)
}

proof fn lemma_lists_more(
    a: Seq<Row>,
    b: Seq<Row>,
    kind: RelationKind,
    relation: Seq<char>,
    c: ColumnInfo,
    ordinal: int,
)
    ensures
        lists_column(a, kind, relation, c, ordinal) || lists_column(b, kind, relation, c, ordinal)
            ==> lists_column(a + b, kind, relation, c, ordinal),
{
    if lists_column(a, kind, relation, c, ordinal) {
        let r = choose|r: int|
            0 <= r < a.len() && #[trigger] shows_column_of(a[r], kind, relation, c, ordinal);
        assert((a + b)[r] == a[r]);
    }
    if lists_column(b, kind, relation, c, ordinal) {
        let r = choose|r: int|
            0 <= r < b.len() && #[trigger] shows_column_of(b[r], kind, relation, c, ordinal);
        assert((a + b)[a.len() + r] == b[r]);
    }
}

proof fn lemma_relation_lists(
    kind: RelationKind,
    relation: Seq<char>,
    columns: Seq<ColumnInfo>,
    n: int,
)
    requires
        0 <= n < columns.len() <= i64::MAX,
    ensures
        lists_column(
            information_schema::relation_rows(
                kind,
                relation,
                columns,
                None,
                columns.len() as int,
            ),
            kind,
            relation,
            columns[n],
            n + 1,
        ),
{
    lemma_relation_rows(kind, relation, columns, columns.len() as int);
    let rows = information_schema::relation_rows(
        kind,
        relation,
        columns,
        None,
        columns.len() as int,
    );
    assert(shows_column_of(rows[n], kind, relation, columns[n], n + 1));
}

proof fn lemma_collections_list(s: ColumnSources, upto: int, k: int, n: int)
    requires
        s.numbered(),
        0 <= k < upto <= s.collections@.len(),
        0 <= n < information_schema::collection_columns(s, s.collections@[k]@).len(),
    ensures
        lists_column(
            information_schema::collection_rows(s, None, None, None, upto),
            RelationKind::Table,
            s.collections@[k]@,
            information_schema::collection_columns(s, s.collections@[k]@)[n],
            n + 1,
        ),
    decreases upto,
{
    let name = s.collections@[k]@;
    let last = s.collections@[upto - 1]@;
    let columns = information_schema::collection_columns(s, last);
    let before = information_schema::collection_rows(s, None, None, None, upto - 1);
    let own = information_schema::relation_rows(
        RelationKind::Table,
        last,
        columns,
        None,
        columns.len() as int,
    );
    if k < upto - 1 {
        lemma_collections_list(s, upto - 1, k, n);
    } else {
        lemma_collection_numbered(s, name);
        lemma_relation_lists(RelationKind::Table, name, columns, n);
    }
    lemma_lists_more(
        before,
        own,
        RelationKind::Table,
        name,
        information_schema::collection_columns(s, name)[n],
        n + 1,
    );
}

proof fn lemma_others_list(
    kind: RelationKind,
    relations: Seq<TableInfo>,
    upto: int,
    k: int,
    n: int,
)
    requires
        0 <= k < upto <= relations.len(),
        relations[k].columns@.len() <= i64::MAX,
        0 <= n < relations[k].columns@.len(),
    ensures
        lists_column(
            information_schema::listed_rows(kind, relations, None, None, None, upto),
            kind,
            relations[k].name@,
            relations[k].columns@[n],
            n + 1,
        ),
    decreases upto,
{
    let last = relations[upto - 1];
    let before = information_schema::listed_rows(kind, relations, None, None, None, upto - 1);
    let own = information_schema::relation_rows(
        kind,
        last.name@,
        last.columns@,
        None,
        last.columns@.len() as int,
    );
    if k < upto - 1 {
        lemma_others_list(kind, relations, upto - 1, k, n);
    } else {
        lemma_relation_lists(kind, last.name@, last.columns@, n);
    }
    lemma_lists_more(
        before,
        own,
        kind,
        relations[k].name@,
        relations[k].columns@[n],
        n + 1,
    );
}

/// `information_schema.columns` lists every column that a collection shows, with
/// its place among them: its row says YES under `is_nullable` if and only if the
/// column admits nulls, and NO otherwise.
pub proof fn law_table_columns_listed(s: ColumnSources, k: int, n: int)
    requires
        s.numbered(),
        0 <= k < s.collections@.len(),
        0 <= n < information_schema::collection_columns(s, s.collections@[k]@).len(),
    ensures
        exists|r: int|
            0 <= r < information_schema::filtered_columns(s, None, None, None).len()
                && #[trigger] shows_table_column(
                information_schema::filtered_columns(s, None, None, None)[r],
                s.collections@[k]@,
                information_schema::collection_columns(s, s.collections@[k]@)[n],
                n + 1,
            ),
{
    let a = information_schema::collection_rows(s, None, None, None, s.collections@.len() as int);
    let b = information_schema::listed_rows(
        RelationKind::View,
        s.views@,
        None,
        None,
        None,
        s.views@.len() as int,
    );
    let c = information_schema::listed_rows(
        RelationKind::Graph,
        s.graphs@,
        None,
        None,
        None,
        s.graphs@.len() as int,
    );
    let name = s.collections@[k]@;
    let column = information_schema::collection_columns(s, name)[n];
    lemma_collections_list(s, s.collections@.len() as int, k, n);
    lemma_lists_more(a, b, RelationKind::Table, name, column, n + 1);
    lemma_lists_more(a + b, c, RelationKind::Table, name, column, n + 1);
    let rows = information_schema::filtered_columns(s, None, None, None);
    let r = choose|r: int|
        0 <= r < rows.len() && #[trigger] shows_column_of(
            rows[r],
            RelationKind::Table,
            name,
            column,
            n + 1,
        );
    assert(shows_table_column(rows[r], name, column, n + 1));
}

/// `information_schema.columns` lists every column of every view and of every
/// graph table, with its place.
pub proof fn law_other_columns_listed(s: ColumnSources, k: int, n: int)
    requires
        s.numbered(),
    ensures
        0 <= k < s.views@.len() && 0 <= n < s.views@[k].columns@.len() ==> lists_column(
            information_schema::filtered_columns(s, None, None, None),
            RelationKind::View,
            s.views@[k].name@,
            s.views@[k].columns@[n],
            n + 1,
        ),
        0 <= k < s.graphs@.len() && 0 <= n < s.graphs@[k].columns@.len() ==> lists_column(
            information_schema::filtered_columns(s, None, None, None),
            RelationKind::Graph,
            s.graphs@[k].name@,
            s.graphs@[k].columns@[n],
            n + 1,
        ),
{
    let a = information_schema::collection_rows(s, None, None, None, s.collections@.len() as int);
    let b = information_schema::listed_rows(
        RelationKind::View,
        s.views@,
        None,
        None,
        None,
        s.views@.len() as int,
    );
    let c = information_schema::listed_rows(
        RelationKind::Graph,
        s.graphs@,
        None,
        None,
        None,
        s.graphs@.len() as int,
    );
    if 0 <= k < s.views@.len() && 0 <= n < s.views@[k].columns@.len() {
        let v = s.views@[k];
        lemma_others_list(RelationKind::View, s.views@, s.views@.len() as int, k, n);
        lemma_lists_more(a, b, RelationKind::View, v.name@, v.columns@[n], n + 1);
        lemma_lists_more(a + b, c, RelationKind::View, v.name@, v.columns@[n], n + 1);
    }
    if 0 <= k < s.graphs@.len() && 0 <= n < s.graphs@[k].columns@.len() {
        let g = s.graphs@[k];
        lemma_others_list(RelationKind::Graph, s.graphs@, s.graphs@.len() as int, k, n);
        lemma_lists_more(a + b, c, RelationKind::Graph, g.name@, g.columns@[n], n + 1);
    }
}

/// A row shows a column that one of the relations has.
pub open spec fn shows_some_column(row: Row, s: ColumnSources) -> bool {
    ||| exists|k: int, n: int|
        0 <= k < s.collections@.len() && 0 <= n < information_schema::collection_columns(
            s,
            s.collections@[k]@,
        ).len() && #[trigger] shows_table_column(
            row,
            s.collections@[k]@,
            information_schema::collection_columns(s, s.collections@[k]@)[n],
            n + 1,
        )
    ||| exists|k: int, n: int|
        0 <= k < s.views@.len() && 0 <= n < s.views@[k].columns@.len()
            && #[trigger] shows_view_column(
            row,
            s.views@[k].name@,
            s.views@[k].columns@[n],
            n + 1,
        )
    ||| exists|k: int, n: int|
        0 <= k < s.graphs@.len() && 0 <= n < s.graphs@[k].columns@.len()
            && #[trigger] shows_graph_column(
            row,
            s.graphs@[k].name@,
            s.graphs@[k].columns@[n],
            n + 1,
        )
}

proof fn lemma_collection_row(s: ColumnSources, upto: int, r: int)
    requires
        s.numbered(),
        0 <= upto <= s.collections@.len(),
        0 <= r < information_schema::collection_rows(s, None, None, None, upto).len(),
    ensures
        shows_some_column(information_schema::collection_rows(s, None, None, None, upto)[r], s),
    decreases upto,
{
    if upto > 0 {
        let name = s.collections@[upto - 1]@;
        let columns = information_schema::collection_columns(s, name);
        let before = information_schema::collection_rows(s, None, None, None, upto - 1);
        if r < before.len() {
            lemma_collection_row(s, upto - 1, r);
        } else {
            lemma_collection_numbered(s, name);
            lemma_relation_rows(RelationKind::Table, name, columns, columns.len() as int);
            let own = information_schema::relation_rows(
                RelationKind::Table,
                name,
                columns,
                None,
                columns.len() as int,
            );
            let n = r - before.len();
            assert(shows_column_of(own[n], RelationKind::Table, name, columns[n], n + 1));
            assert(shows_table_column(
                own[n],
                s.collections@[upto - 1]@,
                information_schema::collection_columns(s, s.collections@[upto - 1]@)[n],
                n + 1,
            ));
        }
    }
}

proof fn lemma_other_row(
    kind: RelationKind,
    relations: Seq<TableInfo>,
    upto: int,
    r: int,
) -> (place: (int, int))
    requires
        forall|i: int|
            0 <= i < relations.len() ==> (#[trigger] relations[i]).columns@.len() <= i64::MAX,
        0 <= upto <= relations.len(),
        0 <= r < information_schema::listed_rows(kind, relations, None, None, None, upto).len(),
    ensures
        0 <= place.0 < relations.len(),
        0 <= place.1 < relations[place.0].columns@.len(),
        shows_column_of(
            information_schema::listed_rows(kind, relations, None, None, None, upto)[r],
            kind,
            relations[place.0].name@,
            relations[place.0].columns@[place.1],
            place.1 + 1,
        ),
    decreases upto,
{
    if upto <= 0 {
        (0, 0)
    } else {
        let last = relations[upto - 1];
        let before = information_schema::listed_rows(kind, relations, None, None, None, upto - 1);
        if r < before.len() {
            lemma_other_row(kind, relations, upto - 1, r)
        } else {
            lemma_relation_rows(kind, last.name@, last.columns@, last.columns@.len() as int);
            let own = information_schema::relation_rows(
                kind,
                last.name@,
                last.columns@,
                None,
                last.columns@.len() as int,
            );
            let n = r - before.len();
            assert(shows_column_of(own[n], kind, last.name@, last.columns@[n], n + 1));
            (upto - 1, n)
        }
    }
}

/// Every row of `information_schema.columns` shows a column of a collection, of a
/// view or of a graph table.
pub proof fn law_rows_show_columns(s: ColumnSources, r: int)
    requires
        s.numbered(),
        0 <= r < information_schema::filtered_columns(s, None, None, None).len(),
    ensures
        shows_some_column(information_schema::filtered_columns(s, None, None, None)[r], s),
{
    let a = information_schema::collection_rows(s, None, None, None, s.collections@.len() as int);
    let b = information_schema::listed_rows(
        RelationKind::View,
        s.views@,
        None,
        None,
        None,
        s.views@.len() as int,
    );
    if r < a.len() {
        lemma_collection_row(s, s.collections@.len() as int, r);
    } else if r < a.len() + b.len() {
        let place = lemma_other_row(
            RelationKind::View,
            s.views@,
            s.views@.len() as int,
            r - a.len(),
        );
        assert(shows_view_column(
            b[r - a.len()],
            s.views@[place.0].name@,
            s.views@[place.0].columns@[place.1],
            place.1 + 1,
        ));
    } else {
        let place = lemma_other_row(
            RelationKind::Graph,
            s.graphs@,
            s.graphs@.len() as int,
            r - a.len() - b.len(),
        );
        let c = information_schema::listed_rows(
            RelationKind::Graph,
            s.graphs@,
            None,
            None,
            None,
            s.graphs@.len() as int,
        );
        assert(shows_graph_column(
            c[r - a.len() - b.len()],
            s.graphs@[place.0].name@,
            s.graphs@[place.0].columns@[place.1],
            place.1 + 1,
        ));
    }
}

/// A row of `information_schema.tables` shows a table, or a view.
pub open spec fn shows_table(row: Row, name: Seq<char>, view: bool) -> bool {
    &&& shows(row, "table_catalog"@, "bicdb"@)
    &&& shows(row, "table_schema"@, "public"@)
    &&& shows(row, "table_name"@, name)
    &&& view ==> shows(row, "table_type"@, "VIEW"@)
    &&& !view ==> shows(row, "table_type"@, "BASE TABLE"@)
}

/// A row of `information_schema.domains` shows a domain.
pub open spec fn shows_domain(row: Row, schema: Seq<char>, name: Seq<char>, d: DomainInfo) -> bool {
    &&& shows(row, "domain_catalog"@, "bicdb"@)
    &&& shows(row, "domain_schema"@, schema)
    &&& shows(row, "domain_name"@, name)
    &&& match d.base_user_type {
        Some(base) => shows(row, "data_type"@, base.data_type@) && shows(
            row,
            "udt_schema"@,
            base.udt_schema@,
        ) && shows(row, "udt_name"@, base.udt_name@),
        None => shows(row, "data_type"@, d.built_in_data_type@) && shows(
            row,
            "udt_schema"@,
            "pg_catalog"@,
        ) && shows(row, "udt_name"@, d.base_type@),
    }
    &&& match d.numeric {
        Some((precision, scale)) => shows_int(row, "numeric_precision"@, precision as int)
            && shows_int(row, "numeric_precision_radix"@, 10) && shows_int(
            row,
            "numeric_scale"@,
            scale as int,
        ),
        None => shows_null(row, "numeric_precision"@) && shows_null(
            row,
            "numeric_precision_radix"@,
        ) && shows_null(row, "numeric_scale"@),
    }
    &&& shows_if_any(row, "collation_name"@, d.collation)
    &&& d.collation is Some ==> shows(row, "collation_schema"@, "pg_catalog"@) && shows(
        row,
        "collation_catalog"@,
        "bicdb"@,
    )
    &&& d.collation is None ==> shows_null(row, "collation_schema"@) && shows_null(
        row,
        "collation_catalog"@,
    )
    &&& shows_if_any(row, "domain_default"@, d.default_expr)
    &&& shows(row, "udt_catalog"@, "bicdb"@)
    &&& shows(row, "dtd_identifier"@, "1"@)
    &&& shows_null(row, "character_maximum_length"@)
    &&& shows_null(row, "character_octet_length"@)
    &&& shows_null(row, "datetime_precision"@)
    &&& shows_null(row, "interval_type"@)
    &&& shows_null(row, "maximum_cardinality"@)
}

/// A row of `information_schema.user_defined_types` shows a composite type.
pub open spec fn shows_composite(row: Row, schema: Seq<char>, name: Seq<char>) -> bool {
    &&& shows(row, "user_defined_type_catalog"@, "bicdb"@)
    &&& shows(row, "user_defined_type_schema"@, schema)
    &&& shows(row, "user_defined_type_name"@, name)
    &&& shows(row, "user_defined_type_category"@, "STRUCTURED"@)
    &&& shows_whether(row, "is_instantiable"@, true)
    &&& shows_null(row, "is_final"@)
    &&& shows_null(row, "data_type"@)
    &&& shows_null(row, "reference_type"@)
}

/// A row of `information_schema.element_types` shows the elements of an array
/// column: of a user type where they have one, else of a built-in type.
pub open spec fn shows_elements(row: Row, table: TableInfo, c: ColumnInfo, ordinal: int) -> bool {
    &&& shows(row, "object_catalog"@, "bicdb"@)
    &&& shows(row, "object_schema"@, table.schema_name@)
    &&& shows(row, "object_name"@, table.name@)
    &&& shows(row, "object_type"@, "TABLE"@)
    &&& shows(row, "udt_catalog"@, "bicdb"@)
    &&& shows(row, "collection_type_identifier"@, text::signed_decimal(ordinal))
    &&& shows(row, "dtd_identifier"@, "a"@ + text::signed_decimal(ordinal))
    &&& match c.element_user_type {
        Some((schema, name)) => shows(row, "data_type"@, "USER-DEFINED"@) && shows(
            row,
            "udt_schema"@,
            schema@,
        ) && shows(row, "udt_name"@, name@),
        None => match c.element_built_in {
            Some((data_type, name)) => shows(row, "data_type"@, data_type@) && shows(
                row,
                "udt_schema"@,
                "pg_catalog"@,
            ) && shows(row, "udt_name"@, name@),
            None => false,
        },
    }
}

/// A name with its schema: what stands before its last dot is the schema, and
/// `public` where there is none.
pub open spec fn is_split(whole: Seq<char>, schema: Seq<char>, name: Seq<char>) -> bool {
    &&& !name.contains('.')
    &&& whole == schema + "."@ + name || (whole == name && schema == "public"@)
}

/// A row of `information_schema.routines` shows a routine.
pub open spec fn shows_routine(row: Row, f: RoutineInfo, schema: Seq<char>, name: Seq<char>) -> bool {
    &&& shows(row, "specific_catalog"@, "bicdb"@)
    &&& shows(row, "specific_schema"@, schema)
    &&& shows(row, "specific_name"@, name + "_"@ + f.arguments_hash@)
    &&& shows(row, "routine_catalog"@, "bicdb"@)
    &&& shows(row, "routine_schema"@, schema)
    &&& shows(row, "routine_name"@, name)
    &&& shows(row, "routine_definition"@, f.definition@)
    &&& shows(row, "external_language"@, text::upper(f.language@))
    &&& f.security_definer ==> shows(row, "security_type"@, "DEFINER"@)
    &&& !f.security_definer ==> shows(row, "security_type"@, "INVOKER"@)
    &&& if f.procedure {
        &&& shows(row, "routine_type"@, "PROCEDURE"@)
        &&& shows_null(row, "data_type"@)
        &&& shows_null(row, "type_udt_catalog"@)
        &&& shows_null(row, "type_udt_schema"@)
        &&& shows_null(row, "type_udt_name"@)
        &&& shows_null(row, "dtd_identifier"@)
    } else {
        &&& shows(row, "routine_type"@, "FUNCTION"@)
        &&& shows(row, "data_type"@, f.returns.data_type@)
        &&& shows(row, "type_udt_catalog"@, "bicdb"@)
        &&& shows(row, "type_udt_schema"@, f.returns.udt_schema@)
        &&& shows(row, "type_udt_name"@, f.returns.udt_name@)
        &&& shows(row, "dtd_identifier"@, "0"@)
    }
    &&& shows(row, "routine_body"@, "EXTERNAL"@)
    &&& shows(row, "parameter_style"@, "GENERAL"@)
    &&& shows(row, "sql_data_access"@, "MODIFIES"@)
    &&& shows_whether(row, "is_deterministic"@, false)
    &&& shows_whether(row, "schema_level_routine"@, true)
    &&& shows_whether(row, "is_user_defined_cast"@, false)
    &&& shows_whether(row, "is_implicitly_invocable"@, false)
    &&& shows_int(row, "max_dynamic_result_sets"@, 0)
}

/// A row of `information_schema.parameters` shows a parameter of a routine.
pub open spec fn shows_parameter(
    row: Row,
    f: RoutineInfo,
    schema: Seq<char>,
    name: Seq<char>,
    p: ParameterInfo,
    ordinal: int,
) -> bool {
    &&& shows(row, "specific_catalog"@, "bicdb"@)
    &&& shows(row, "specific_schema"@, schema)
    &&& shows(row, "specific_name"@, name + "_"@ + f.arguments_hash@)
    &&& shows_int(row, "ordinal_position"@, ordinal)
    &&& shows(row, "dtd_identifier"@, text::signed_decimal(ordinal))
    &&& p.mode == ArgumentMode::Input ==> shows(row, "parameter_mode"@, "IN"@)
    &&& p.mode == ArgumentMode::Output ==> shows(row, "parameter_mode"@, "OUT"@)
    &&& p.mode == ArgumentMode::Both ==> shows(row, "parameter_mode"@, "INOUT"@)
    &&& shows_whether(row, "is_result"@, false)
    &&& shows_whether(row, "as_locator"@, false)
    &&& shows_if_any(row, "parameter_name"@, p.name)
    &&& shows(row, "data_type"@, p.declared.data_type@)
    &&& shows(row, "udt_catalog"@, "bicdb"@)
    &&& shows(row, "udt_schema"@, p.declared.udt_schema@)
    &&& shows(row, "udt_name"@, p.declared.udt_name@)
    &&& shows_null(row, "parameter_default"@)
}

proof fn lemma_table_names()
    ensures
        "table_catalog"@.len() == 13,
        "table_schema"@.len() == 12,
        "table_name"@.len() == 10 && "table_name"@[6] == 'n',
        "table_type"@.len() == 10 && "table_type"@[6] == 't',
{
    reveal_strlit("table_catalog");
    reveal_strlit("table_schema");
    reveal_strlit("table_name");
    reveal_strlit("table_type");
}

#[verifier::rlimit(60)]
proof fn lemma_table_cells(t: Seq<char>, view: bool)
    ensures
        ({
            let row = information_schema::table_row_cells(t, view);
            &&& catalog::cell_named(row, "table_catalog"@, 0) == Some(row[0].1)
            &&& catalog::cell_named(row, "table_schema"@, 0) == Some(row[1].1)
            &&& catalog::cell_named(row, "table_name"@, 0) == Some(row[2].1)
            &&& catalog::cell_named(row, "table_type"@, 0) == Some(row[3].1)
        }),
{
    lemma_table_names();
    reveal_with_fuel(catalog::cell_named, 5);
    let row = information_schema::table_row_cells(t, view);
    assert(row[0].0 == "table_catalog"@);
    assert(row[1].0 == "table_schema"@);
    assert(row[2].0 == "table_name"@);
    assert(row[3].0 == "table_type"@);
}

#[verifier::rlimit(60)]
proof fn lemma_table_shown(t: Seq<char>, view: bool)
    ensures
        shows_table(information_schema::table_row_cells(t, view), t, view),
{
    lemma_answers();
    lemma_table_cells(t, view);
    let row = information_schema::table_row_cells(t, view);
    assert(row[0].1 == CellView::Text("bicdb"@));
    assert(row[1].1 == CellView::Text("public"@));
    assert(row[2].1 == CellView::Text(t));
    assert(row[3].1 == CellView::Text(if view { "VIEW"@ } else { "BASE TABLE"@ }));
}

proof fn lemma_domain_names()
    ensures
        "domain_catalog"@.len() == 14 && "domain_catalog"@[0] == 'd' && "domain_catalog"@[7] == 'c',
        "domain_schema"@.len() == 13 && "domain_schema"@[0] == 'd',
        "domain_name"@.len() == 11 && "domain_name"@[0] == 'd',
        "data_type"@.len() == 9,
        "character_maximum_length"@.len() == 24,
        "character_octet_length"@.len() == 22,
        "character_set_catalog"@.len() == 21,
        "character_set_schema"@.len() == 20,
        "character_set_name"@.len() == 18 && "character_set_name"@[0] == 'c',
        "collation_catalog"@.len() == 17 && "collation_catalog"@[0] == 'c',
        "collation_schema"@.len() == 16,
        "collation_name"@.len() == 14 && "collation_name"@[0] == 'c',
        "numeric_precision"@.len() == 17 && "numeric_precision"@[0] == 'n',
        "numeric_precision_radix"@.len() == 23,
        "numeric_scale"@.len() == 13 && "numeric_scale"@[0] == 'n',
        "datetime_precision"@.len() == 18 && "datetime_precision"@[0] == 'd',
        "interval_type"@.len() == 13 && "interval_type"@[0] == 'i',
        "interval_precision"@.len() == 18 && "interval_precision"@[0] == 'i',
        "domain_default"@.len() == 14 && "domain_default"@[0] == 'd' && "domain_default"@[7] == 'd',
        "udt_catalog"@.len() == 11 && "udt_catalog"@[0] == 'u',
        "udt_schema"@.len() == 10 && "udt_schema"@[0] == 'u',
        "udt_name"@.len() == 8,
        "scope_catalog"@.len() == 13 && "scope_catalog"@[0] == 's',
        "scope_schema"@.len() == 12,
        "scope_name"@.len() == 10 && "scope_name"@[0] == 's',
        "maximum_cardinality"@.len() == 19,
        "dtd_identifier"@.len() == 14 && "dtd_identifier"@[0] == 'd' && "dtd_identifier"@[7] == 'n',
{
    reveal_strlit("domain_catalog");
    reveal_strlit("domain_schema");
    reveal_strlit("domain_name");
    reveal_strlit("data_type");
    reveal_strlit("character_maximum_length");
    reveal_strlit("character_octet_length");
    reveal_strlit("character_set_catalog");
    reveal_strlit("character_set_schema");
    reveal_strlit("character_set_name");
    reveal_strlit("collation_catalog");
    reveal_strlit("collation_schema");
    reveal_strlit("collation_name");
    reveal_strlit("numeric_precision");
    reveal_strlit("numeric_precision_radix");
    reveal_strlit("numeric_scale");
    reveal_strlit("datetime_precision");
    reveal_strlit("interval_type");
    reveal_strlit("interval_precision");
    reveal_strlit("domain_default");
    reveal_strlit("udt_catalog");
    reveal_strlit("udt_schema");
    reveal_strlit("udt_name");
    reveal_strlit("scope_catalog");
    reveal_strlit("scope_schema");
    reveal_strlit("scope_name");
    reveal_strlit("maximum_cardinality");
    reveal_strlit("dtd_identifier");
}

#[verifier::rlimit(60)]
proof fn lemma_domain_cells(schema: Seq<char>, name: Seq<char>, d: DomainInfo)
    ensures
        ({
            let row = information_schema::domain_row_cells(schema, name, d);
            &&& catalog::cell_named(row, "domain_catalog"@, 0) == Some(row[0].1)
            &&& catalog::cell_named(row, "domain_schema"@, 0) == Some(row[1].1)
            &&& catalog::cell_named(row, "domain_name"@, 0) == Some(row[2].1)
            &&& catalog::cell_named(row, "data_type"@, 0) == Some(row[3].1)
            &&& catalog::cell_named(row, "character_maximum_length"@, 0) == Some(row[4].1)
            &&& catalog::cell_named(row, "character_octet_length"@, 0) == Some(row[5].1)
            &&& catalog::cell_named(row, "character_set_catalog"@, 0) == Some(row[6].1)
            &&& catalog::cell_named(row, "character_set_schema"@, 0) == Some(row[7].1)
            &&& catalog::cell_named(row, "character_set_name"@, 0) == Some(row[8].1)
            &&& catalog::cell_named(row, "collation_catalog"@, 0) == Some(row[9].1)
            &&& catalog::cell_named(row, "collation_schema"@, 0) == Some(row[10].1)
            &&& catalog::cell_named(row, "collation_name"@, 0) == Some(row[11].1)
            &&& catalog::cell_named(row, "numeric_precision"@, 0) == Some(row[12].1)
            &&& catalog::cell_named(row, "numeric_precision_radix"@, 0) == Some(row[13].1)
            &&& catalog::cell_named(row, "numeric_scale"@, 0) == Some(row[14].1)
            &&& catalog::cell_named(row, "datetime_precision"@, 0) == Some(row[15].1)
            &&& catalog::cell_named(row, "interval_type"@, 0) == Some(row[16].1)
            &&& catalog::cell_named(row, "interval_precision"@, 0) == Some(row[17].1)
            &&& catalog::cell_named(row, "domain_default"@, 0) == Some(row[18].1)
            &&& catalog::cell_named(row, "udt_catalog"@, 0) == Some(row[19].1)
            &&& catalog::cell_named(row, "udt_schema"@, 0) == Some(row[20].1)
            &&& catalog::cell_named(row, "udt_name"@, 0) == Some(row[21].1)
            &&& catalog::cell_named(row, "scope_catalog"@, 0) == Some(row[22].1)
            &&& catalog::cell_named(row, "scope_schema"@, 0) == Some(row[23].1)
            &&& catalog::cell_named(row, "scope_name"@, 0) == Some(row[24].1)
            &&& catalog::cell_named(row, "maximum_cardinality"@, 0) == Some(row[25].1)
            &&& catalog::cell_named(row, "dtd_identifier"@, 0) == Some(row[26].1)
        }),
{
    lemma_domain_names();
    reveal_with_fuel(catalog::cell_named, 28);
    let row = information_schema::domain_row_cells(schema, name, d);
    assert(row[0].0 == "domain_catalog"@);
    assert(row[1].0 == "domain_schema"@);
    assert(row[2].0 == "domain_name"@);
    assert(row[3].0 == "data_type"@);
    assert(row[4].0 == "character_maximum_length"@);
    assert(row[5].0 == "character_octet_length"@);
    assert(row[6].0 == "character_set_catalog"@);
    assert(row[7].0 == "character_set_schema"@);
    assert(row[8].0 == "character_set_name"@);
    assert(row[9].0 == "collation_catalog"@);
    assert(row[10].0 == "collation_schema"@);
    assert(row[11].0 == "collation_name"@);
    assert(row[12].0 == "numeric_precision"@);
    assert(row[13].0 == "numeric_precision_radix"@);
    assert(row[14].0 == "numeric_scale"@);
    assert(row[15].0 == "datetime_precision"@);
    assert(row[16].0 == "interval_type"@);
    assert(row[17].0 == "interval_precision"@);
    assert(row[18].0 == "domain_default"@);
    assert(row[19].0 == "udt_catalog"@);
    assert(row[20].0 == "udt_schema"@);
    assert(row[21].0 == "udt_name"@);
    assert(row[22].0 == "scope_catalog"@);
    assert(row[23].0 == "scope_schema"@);
    assert(row[24].0 == "scope_name"@);
    assert(row[25].0 == "maximum_cardinality"@);
    assert(row[26].0 == "dtd_identifier"@);
}

#[verifier::rlimit(60)]
proof fn lemma_domain_shown(schema: Seq<char>, name: Seq<char>, d: DomainInfo)
    ensures
        shows_domain(information_schema::domain_row_cells(schema, name, d), schema, name, d),
{
    lemma_answers();
    lemma_domain_cells(schema, name, d);
    let row = information_schema::domain_row_cells(schema, name, d);
    assert(row[0].1 == CellView::Text("bicdb"@));
    assert(row[1].1 == CellView::Text(schema));
    assert(row[2].1 == CellView::Text(name));
    assert(row[3].1 == CellView::Text(information_schema::domain_base(d).0));
    assert(row[4].1 == CellView::Null);
    assert(row[5].1 == CellView::Null);
    assert(row[6].1 == CellView::Null);
    assert(row[7].1 == CellView::Null);
    assert(row[8].1 == CellView::Null);
    assert(row[9].1 == catalog::text_or_null(if d.collation is Some { Some("bicdb"@) } else { None }));
    assert(row[10].1 == catalog::text_or_null(if d.collation is Some { Some("pg_catalog"@) } else { None }));
    assert(row[11].1 == catalog::text_or_null(error::view_option(d.collation)));
    assert(row[12].1 == catalog::int_or_null(information_schema::numeric_metadata(d.numeric).0));
    assert(row[13].1 == catalog::int_or_null(information_schema::numeric_metadata(d.numeric).1));
    assert(row[14].1 == catalog::int_or_null(information_schema::numeric_metadata(d.numeric).2));
    assert(row[15].1 == CellView::Null);
    assert(row[16].1 == CellView::Null);
    assert(row[17].1 == CellView::Null);
    assert(row[18].1 == catalog::text_or_null(error::view_option(d.default_expr)));
    assert(row[19].1 == CellView::Text("bicdb"@));
    assert(row[20].1 == CellView::Text(information_schema::domain_base(d).1));
    assert(row[21].1 == CellView::Text(information_schema::domain_base(d).2));
    assert(row[22].1 == CellView::Null);
    assert(row[23].1 == CellView::Null);
    assert(row[24].1 == CellView::Null);
    assert(row[25].1 == CellView::Null);
    assert(row[26].1 == CellView::Text("1"@));
}

proof fn lemma_composite_names()
    ensures
        "user_defined_type_catalog"@.len() == 25,
        "user_defined_type_schema"@.len() == 24 && "user_defined_type_schema"@[0] == 'u',
        "user_defined_type_name"@.len() == 22 && "user_defined_type_name"@[0] == 'u',
        "user_defined_type_category"@.len() == 26,
        "is_instantiable"@.len() == 15,
        "is_final"@.len() == 8,
        "ordering_form"@.len() == 13 && "ordering_form"@[0] == 'o',
        "ordering_category"@.len() == 17 && "ordering_category"@[0] == 'o',
        "ordering_routine_catalog"@.len() == 24 && "ordering_routine_catalog"@[0] == 'o',
        "ordering_routine_schema"@.len() == 23 && "ordering_routine_schema"@[0] == 'o',
        "ordering_routine_name"@.len() == 21 && "ordering_routine_name"@[0] == 'o',
        "reference_type"@.len() == 14,
        "data_type"@.len() == 9,
        "character_maximum_length"@.len() == 24 && "character_maximum_length"@[0] == 'c',
        "character_octet_length"@.len() == 22 && "character_octet_length"@[0] == 'c',
        "numeric_precision"@.len() == 17 && "numeric_precision"@[0] == 'n',
        "numeric_precision_radix"@.len() == 23 && "numeric_precision_radix"@[0] == 'n',
        "numeric_scale"@.len() == 13 && "numeric_scale"@[0] == 'n',
        "datetime_precision"@.len() == 18 && "datetime_precision"@[0] == 'd',
        "interval_type"@.len() == 13 && "interval_type"@[0] == 'i',
        "interval_precision"@.len() == 18 && "interval_precision"@[0] == 'i',
        "source_dtd_identifier"@.len() == 21 && "source_dtd_identifier"@[0] == 's',
        "ref_dtd_identifier"@.len() == 18 && "ref_dtd_identifier"@[0] == 'r',
{
    reveal_strlit("user_defined_type_catalog");
    reveal_strlit("user_defined_type_schema");
    reveal_strlit("user_defined_type_name");
    reveal_strlit("user_defined_type_category");
    reveal_strlit("is_instantiable");
    reveal_strlit("is_final");
    reveal_strlit("ordering_form");
    reveal_strlit("ordering_category");
    reveal_strlit("ordering_routine_catalog");
    reveal_strlit("ordering_routine_schema");
    reveal_strlit("ordering_routine_name");
    reveal_strlit("reference_type");
    reveal_strlit("data_type");
    reveal_strlit("character_maximum_length");
    reveal_strlit("character_octet_length");
    reveal_strlit("numeric_precision");
    reveal_strlit("numeric_precision_radix");
    reveal_strlit("numeric_scale");
    reveal_strlit("datetime_precision");
    reveal_strlit("interval_type");
    reveal_strlit("interval_precision");
    reveal_strlit("source_dtd_identifier");
    reveal_strlit("ref_dtd_identifier");
}

#[verifier::rlimit(60)]
proof fn lemma_composite_cells(schema: Seq<char>, name: Seq<char>)
    ensures
        ({
            let row = information_schema::composite_row_cells(schema, name);
            &&& catalog::cell_named(row, "user_defined_type_catalog"@, 0) == Some(row[0].1)
            &&& catalog::cell_named(row, "user_defined_type_schema"@, 0) == Some(row[1].1)
            &&& catalog::cell_named(row, "user_defined_type_name"@, 0) == Some(row[2].1)
            &&& catalog::cell_named(row, "user_defined_type_category"@, 0) == Some(row[3].1)
            &&& catalog::cell_named(row, "is_instantiable"@, 0) == Some(row[4].1)
            &&& catalog::cell_named(row, "is_final"@, 0) == Some(row[5].1)
            &&& catalog::cell_named(row, "ordering_form"@, 0) == Some(row[6].1)
            &&& catalog::cell_named(row, "ordering_category"@, 0) == Some(row[7].1)
            &&& catalog::cell_named(row, "ordering_routine_catalog"@, 0) == Some(row[8].1)
            &&& catalog::cell_named(row, "ordering_routine_schema"@, 0) == Some(row[9].1)
            &&& catalog::cell_named(row, "ordering_routine_name"@, 0) == Some(row[10].1)
            &&& catalog::cell_named(row, "reference_type"@, 0) == Some(row[11].1)
            &&& catalog::cell_named(row, "data_type"@, 0) == Some(row[12].1)
            &&& catalog::cell_named(row, "character_maximum_length"@, 0) == Some(row[13].1)
            &&& catalog::cell_named(row, "character_octet_length"@, 0) == Some(row[14].1)
            &&& catalog::cell_named(row, "numeric_precision"@, 0) == Some(row[15].1)
            &&& catalog::cell_named(row, "numeric_precision_radix"@, 0) == Some(row[16].1)
            &&& catalog::cell_named(row, "numeric_scale"@, 0) == Some(row[17].1)
            &&& catalog::cell_named(row, "datetime_precision"@, 0) == Some(row[18].1)
            &&& catalog::cell_named(row, "interval_type"@, 0) == Some(row[19].1)
            &&& catalog::cell_named(row, "interval_precision"@, 0) == Some(row[20].1)
            &&& catalog::cell_named(row, "source_dtd_identifier"@, 0) == Some(row[21].1)
            &&& catalog::cell_named(row, "ref_dtd_identifier"@, 0) == Some(row[22].1)
        }),
{
    lemma_composite_names();
    reveal_with_fuel(catalog::cell_named, 24);
    let row = information_schema::composite_row_cells(schema, name);
    assert(row[0].0 == "user_defined_type_catalog"@);
    assert(row[1].0 == "user_defined_type_schema"@);
    assert(row[2].0 == "user_defined_type_name"@);
    assert(row[3].0 == "user_defined_type_category"@);
    assert(row[4].0 == "is_instantiable"@);
    assert(row[5].0 == "is_final"@);
    assert(row[6].0 == "ordering_form"@);
    assert(row[7].0 == "ordering_category"@);
    assert(row[8].0 == "ordering_routine_catalog"@);
    assert(row[9].0 == "ordering_routine_schema"@);
    assert(row[10].0 == "ordering_routine_name"@);
    assert(row[11].0 == "reference_type"@);
    assert(row[12].0 == "data_type"@);
    assert(row[13].0 == "character_maximum_length"@);
    assert(row[14].0 == "character_octet_length"@);
    assert(row[15].0 == "numeric_precision"@);
    assert(row[16].0 == "numeric_precision_radix"@);
    assert(row[17].0 == "numeric_scale"@);
    assert(row[18].0 == "datetime_precision"@);
    assert(row[19].0 == "interval_type"@);
    assert(row[20].0 == "interval_precision"@);
    assert(row[21].0 == "source_dtd_identifier"@);
    assert(row[22].0 == "ref_dtd_identifier"@);
}

#[verifier::rlimit(60)]
proof fn lemma_composite_shown(schema: Seq<char>, name: Seq<char>)
    ensures
        shows_composite(information_schema::composite_row_cells(schema, name), schema, name),
{
    lemma_answers();
    lemma_composite_cells(schema, name);
    let row = information_schema::composite_row_cells(schema, name);
    assert(row[0].1 == CellView::Text("bicdb"@));
    assert(row[1].1 == CellView::Text(schema));
    assert(row[2].1 == CellView::Text(name));
    assert(row[3].1 == CellView::Text("STRUCTURED"@));
    assert(row[4].1 == CellView::Text("YES"@));
    assert(row[5].1 == CellView::Null);
    assert(row[6].1 == CellView::Null);
    assert(row[7].1 == CellView::Null);
    assert(row[8].1 == CellView::Null);
    assert(row[9].1 == CellView::Null);
    assert(row[10].1 == CellView::Null);
    assert(row[11].1 == CellView::Null);
    assert(row[12].1 == CellView::Null);
    assert(row[13].1 == CellView::Null);
    assert(row[14].1 == CellView::Null);
    assert(row[15].1 == CellView::Null);
    assert(row[16].1 == CellView::Null);
    assert(row[17].1 == CellView::Null);
    assert(row[18].1 == CellView::Null);
    assert(row[19].1 == CellView::Null);
    assert(row[20].1 == CellView::Null);
    assert(row[21].1 == CellView::Null);
    assert(row[22].1 == CellView::Null);
}

proof fn lemma_element_names()
    ensures
        "object_catalog"@.len() == 14 && "object_catalog"@[0] == 'o',
        "object_schema"@.len() == 13,
        "object_name"@.len() == 11 && "object_name"@[7] == 'n',
        "object_type"@.len() == 11 && "object_type"@[7] == 't',
        "collection_type_identifier"@.len() == 26,
        "data_type"@.len() == 9,
        "udt_catalog"@.len() == 11 && "udt_catalog"@[7] == 'a',
        "udt_schema"@.len() == 10,
        "udt_name"@.len() == 8,
        "dtd_identifier"@.len() == 14 && "dtd_identifier"@[0] == 'd',
{
    reveal_strlit("object_catalog");
    reveal_strlit("object_schema");
    reveal_strlit("object_name");
    reveal_strlit("object_type");
    reveal_strlit("collection_type_identifier");
    reveal_strlit("data_type");
    reveal_strlit("udt_catalog");
    reveal_strlit("udt_schema");
    reveal_strlit("udt_name");
    reveal_strlit("dtd_identifier");
}

#[verifier::rlimit(60)]
proof fn lemma_element_cells(table: TableInfo, element: (Seq<char>, Seq<char>, Seq<char>), ordinal: i64)
    ensures
        ({
            let row = information_schema::element_row_cells(table, element, ordinal);
            &&& catalog::cell_named(row, "object_catalog"@, 0) == Some(row[0].1)
            &&& catalog::cell_named(row, "object_schema"@, 0) == Some(row[1].1)
            &&& catalog::cell_named(row, "object_name"@, 0) == Some(row[2].1)
            &&& catalog::cell_named(row, "object_type"@, 0) == Some(row[3].1)
            &&& catalog::cell_named(row, "collection_type_identifier"@, 0) == Some(row[4].1)
            &&& catalog::cell_named(row, "data_type"@, 0) == Some(row[5].1)
            &&& catalog::cell_named(row, "udt_catalog"@, 0) == Some(row[6].1)
            &&& catalog::cell_named(row, "udt_schema"@, 0) == Some(row[7].1)
            &&& catalog::cell_named(row, "udt_name"@, 0) == Some(row[8].1)
            &&& catalog::cell_named(row, "dtd_identifier"@, 0) == Some(row[9].1)
        }),
{
    lemma_element_names();
    reveal_with_fuel(catalog::cell_named, 11);
    let row = information_schema::element_row_cells(table, element, ordinal);
    assert(row[0].0 == "object_catalog"@);
    assert(row[1].0 == "object_schema"@);
    assert(row[2].0 == "object_name"@);
    assert(row[3].0 == "object_type"@);
    assert(row[4].0 == "collection_type_identifier"@);
    assert(row[5].0 == "data_type"@);
    assert(row[6].0 == "udt_catalog"@);
    assert(row[7].0 == "udt_schema"@);
    assert(row[8].0 == "udt_name"@);
    assert(row[9].0 == "dtd_identifier"@);
}

#[verifier::rlimit(60)]
proof fn lemma_element_shown(table: TableInfo, element: (Seq<char>, Seq<char>, Seq<char>), ordinal: i64)
    ensures
        forall|c: ColumnInfo| #[trigger] information_schema::element_type(c) == Some(element) ==> shows_elements(information_schema::element_row_cells(table, element, ordinal), table, c, ordinal as int),
{
    lemma_answers();
    lemma_element_cells(table, element, ordinal);
    let row = information_schema::element_row_cells(table, element, ordinal);
    assert(row[0].1 == CellView::Text("bicdb"@));
    assert(row[1].1 == CellView::Text(table.schema_name@));
    assert(row[2].1 == CellView::Text(table.name@));
    assert(row[3].1 == CellView::Text("TABLE"@));
    assert(row[4].1 == CellView::Text(text::signed_decimal(ordinal as int)));
    assert(row[5].1 == CellView::Text(element.0));
    assert(row[6].1 == CellView::Text("bicdb"@));
    assert(row[7].1 == CellView::Text(element.1));
    assert(row[8].1 == CellView::Text(element.2));
    assert(row[9].1 == CellView::Text("a"@ + text::signed_decimal(ordinal as int)));
}

proof fn lemma_routine_names()
    ensures
        "specific_catalog"@.len() == 16 && "specific_catalog"@[0] == 's',
        "specific_schema"@.len() == 15 && "specific_schema"@[0] == 's' && "specific_schema"@[1] == 'p',
        "specific_name"@.len() == 13 && "specific_name"@[0] == 's' && "specific_name"@[1] == 'p',
        "routine_catalog"@.len() == 15 && "routine_catalog"@[0] == 'r',
        "routine_schema"@.len() == 14 && "routine_schema"@[0] == 'r',
        "routine_name"@.len() == 12 && "routine_name"@[8] == 'n',
        "routine_type"@.len() == 12 && "routine_type"@[8] == 't',
        "data_type"@.len() == 9,
        "type_udt_catalog"@.len() == 16 && "type_udt_catalog"@[0] == 't',
        "type_udt_schema"@.len() == 15 && "type_udt_schema"@[0] == 't',
        "type_udt_name"@.len() == 13 && "type_udt_name"@[0] == 't',
        "routine_body"@.len() == 12 && "routine_body"@[8] == 'b',
        "routine_definition"@.len() == 18,
        "external_language"@.len() == 17,
        "parameter_style"@.len() == 15 && "parameter_style"@[0] == 'p',
        "is_deterministic"@.len() == 16 && "is_deterministic"@[0] == 'i',
        "sql_data_access"@.len() == 15 && "sql_data_access"@[0] == 's' && "sql_data_access"@[1] == 'q',
        "security_type"@.len() == 13 && "security_type"@[0] == 's' && "security_type"@[1] == 'e',
        "is_null_call"@.len() == 12 && "is_null_call"@[8] == 'c',
        "sql_path"@.len() == 8,
        "schema_level_routine"@.len() == 20 && "schema_level_routine"@[0] == 's',
        "max_dynamic_result_sets"@.len() == 23 && "max_dynamic_result_sets"@[0] == 'm',
        "is_user_defined_cast"@.len() == 20 && "is_user_defined_cast"@[0] == 'i',
        "is_implicitly_invocable"@.len() == 23 && "is_implicitly_invocable"@[0] == 'i',
        "dtd_identifier"@.len() == 14 && "dtd_identifier"@[0] == 'd',
{
    reveal_strlit("specific_catalog");
    reveal_strlit("specific_schema");
    reveal_strlit("specific_name");
    reveal_strlit("routine_catalog");
    reveal_strlit("routine_schema");
    reveal_strlit("routine_name");
    reveal_strlit("routine_type");
    reveal_strlit("data_type");
    reveal_strlit("type_udt_catalog");
    reveal_strlit("type_udt_schema");
    reveal_strlit("type_udt_name");
    reveal_strlit("routine_body");
    reveal_strlit("routine_definition");
    reveal_strlit("external_language");
    reveal_strlit("parameter_style");
    reveal_strlit("is_deterministic");
    reveal_strlit("sql_data_access");
    reveal_strlit("security_type");
    reveal_strlit("is_null_call");
    reveal_strlit("sql_path");
    reveal_strlit("schema_level_routine");
    reveal_strlit("max_dynamic_result_sets");
    reveal_strlit("is_user_defined_cast");
    reveal_strlit("is_implicitly_invocable");
    reveal_strlit("dtd_identifier");
}

#[verifier::rlimit(60)]
proof fn lemma_routine_cells(f: RoutineInfo)
    ensures
        ({
            let row = information_schema::routine_row_cells(f);
            &&& catalog::cell_named(row, "specific_catalog"@, 0) == Some(row[0].1)
            &&& catalog::cell_named(row, "specific_schema"@, 0) == Some(row[1].1)
            &&& catalog::cell_named(row, "specific_name"@, 0) == Some(row[2].1)
            &&& catalog::cell_named(row, "routine_catalog"@, 0) == Some(row[3].1)
            &&& catalog::cell_named(row, "routine_schema"@, 0) == Some(row[4].1)
            &&& catalog::cell_named(row, "routine_name"@, 0) == Some(row[5].1)
            &&& catalog::cell_named(row, "routine_type"@, 0) == Some(row[6].1)
            &&& catalog::cell_named(row, "data_type"@, 0) == Some(row[7].1)
            &&& catalog::cell_named(row, "type_udt_catalog"@, 0) == Some(row[8].1)
            &&& catalog::cell_named(row, "type_udt_schema"@, 0) == Some(row[9].1)
            &&& catalog::cell_named(row, "type_udt_name"@, 0) == Some(row[10].1)
            &&& catalog::cell_named(row, "routine_body"@, 0) == Some(row[11].1)
            &&& catalog::cell_named(row, "routine_definition"@, 0) == Some(row[12].1)
            &&& catalog::cell_named(row, "external_language"@, 0) == Some(row[13].1)
            &&& catalog::cell_named(row, "parameter_style"@, 0) == Some(row[14].1)
            &&& catalog::cell_named(row, "is_deterministic"@, 0) == Some(row[15].1)
            &&& catalog::cell_named(row, "sql_data_access"@, 0) == Some(row[16].1)
            &&& catalog::cell_named(row, "security_type"@, 0) == Some(row[17].1)
            &&& catalog::cell_named(row, "is_null_call"@, 0) == Some(row[18].1)
            &&& catalog::cell_named(row, "sql_path"@, 0) == Some(row[19].1)
            &&& catalog::cell_named(row, "schema_level_routine"@, 0) == Some(row[20].1)
            &&& catalog::cell_named(row, "max_dynamic_result_sets"@, 0) == Some(row[21].1)
            &&& catalog::cell_named(row, "is_user_defined_cast"@, 0) == Some(row[22].1)
            &&& catalog::cell_named(row, "is_implicitly_invocable"@, 0) == Some(row[23].1)
            &&& catalog::cell_named(row, "dtd_identifier"@, 0) == Some(row[24].1)
        }),
{
    lemma_routine_names();
    reveal_with_fuel(catalog::cell_named, 26);
    let row = information_schema::routine_row_cells(f);
    assert(row[0].0 == "specific_catalog"@);
    assert(row[1].0 == "specific_schema"@);
    assert(row[2].0 == "specific_name"@);
    assert(row[3].0 == "routine_catalog"@);
    assert(row[4].0 == "routine_schema"@);
    assert(row[5].0 == "routine_name"@);
    assert(row[6].0 == "routine_type"@);
    assert(row[7].0 == "data_type"@);
    assert(row[8].0 == "type_udt_catalog"@);
    assert(row[9].0 == "type_udt_schema"@);
    assert(row[10].0 == "type_udt_name"@);
    assert(row[11].0 == "routine_body"@);
    assert(row[12].0 == "routine_definition"@);
    assert(row[13].0 == "external_language"@);
    assert(row[14].0 == "parameter_style"@);
    assert(row[15].0 == "is_deterministic"@);
    assert(row[16].0 == "sql_data_access"@);
    assert(row[17].0 == "security_type"@);
    assert(row[18].0 == "is_null_call"@);
    assert(row[19].0 == "sql_path"@);
    assert(row[20].0 == "schema_level_routine"@);
    assert(row[21].0 == "max_dynamic_result_sets"@);
    assert(row[22].0 == "is_user_defined_cast"@);
    assert(row[23].0 == "is_implicitly_invocable"@);
    assert(row[24].0 == "dtd_identifier"@);
}

#[verifier::rlimit(60)]
proof fn lemma_routine_shown(f: RoutineInfo)
    ensures
        shows_routine(information_schema::routine_row_cells(f), f, information_schema::routine_identity(f).0, information_schema::routine_identity(f).1),
{
    lemma_answers();
    lemma_routine_cells(f);
    let row = information_schema::routine_row_cells(f);
    assert(row[0].1 == CellView::Text("bicdb"@));
    assert(row[1].1 == CellView::Text(information_schema::routine_identity(f).0));
    assert(row[2].1 == CellView::Text(information_schema::routine_identity(f).2));
    assert(row[3].1 == CellView::Text("bicdb"@));
    assert(row[4].1 == CellView::Text(information_schema::routine_identity(f).0));
    assert(row[5].1 == CellView::Text(information_schema::routine_identity(f).1));
    assert(row[6].1 == CellView::Text(if f.procedure { "PROCEDURE"@ } else { "FUNCTION"@ }));
    assert(row[7].1 == catalog::text_or_null(information_schema::unless_procedure(f, f.returns.data_type@)));
    assert(row[8].1 == catalog::text_or_null(information_schema::unless_procedure(f, "bicdb"@)));
    assert(row[9].1 == catalog::text_or_null(information_schema::unless_procedure(f, f.returns.udt_schema@)));
    assert(row[10].1 == catalog::text_or_null(information_schema::unless_procedure(f, f.returns.udt_name@)));
    assert(row[11].1 == CellView::Text("EXTERNAL"@));
    assert(row[12].1 == CellView::Text(f.definition@));
    assert(row[13].1 == CellView::Text(text::upper(f.language@)));
    assert(row[14].1 == CellView::Text("GENERAL"@));
    assert(row[15].1 == CellView::Text("NO"@));
    assert(row[16].1 == CellView::Text("MODIFIES"@));
    assert(row[17].1 == CellView::Text(if f.security_definer { "DEFINER"@ } else { "INVOKER"@ }));
    assert(row[18].1 == CellView::Null);
    assert(row[19].1 == CellView::Null);
    assert(row[20].1 == CellView::Text("YES"@));
    assert(row[21].1 == CellView::Int(0));
    assert(row[22].1 == CellView::Text("NO"@));
    assert(row[23].1 == CellView::Text("NO"@));
    assert(row[24].1 == catalog::text_or_null(information_schema::unless_procedure(f, "0"@)));
}

proof fn lemma_parameter_names()
    ensures
        "specific_catalog"@.len() == 16 && "specific_catalog"@[0] == 's',
        "specific_schema"@.len() == 15,
        "specific_name"@.len() == 13,
        "ordinal_position"@.len() == 16 && "ordinal_position"@[0] == 'o',
        "parameter_mode"@.len() == 14 && "parameter_mode"@[10] == 'm',
        "is_result"@.len() == 9 && "is_result"@[0] == 'i',
        "as_locator"@.len() == 10 && "as_locator"@[0] == 'a',
        "parameter_name"@.len() == 14 && "parameter_name"@[10] == 'n',
        "data_type"@.len() == 9 && "data_type"@[0] == 'd',
        "udt_catalog"@.len() == 11,
        "udt_schema"@.len() == 10 && "udt_schema"@[0] == 'u',
        "udt_name"@.len() == 8,
        "parameter_default"@.len() == 17,
        "dtd_identifier"@.len() == 14 && "dtd_identifier"@[10] == 'f',
{
    reveal_strlit("specific_catalog");
    reveal_strlit("specific_schema");
    reveal_strlit("specific_name");
    reveal_strlit("ordinal_position");
    reveal_strlit("parameter_mode");
    reveal_strlit("is_result");
    reveal_strlit("as_locator");
    reveal_strlit("parameter_name");
    reveal_strlit("data_type");
    reveal_strlit("udt_catalog");
    reveal_strlit("udt_schema");
    reveal_strlit("udt_name");
    reveal_strlit("parameter_default");
    reveal_strlit("dtd_identifier");
}

#[verifier::rlimit(60)]
proof fn lemma_parameter_cells(f: RoutineInfo, p: ParameterInfo, ordinal: i64)
    ensures
        ({
            let row = information_schema::parameter_row_cells(f, p, ordinal);
            &&& catalog::cell_named(row, "specific_catalog"@, 0) == Some(row[0].1)
            &&& catalog::cell_named(row, "specific_schema"@, 0) == Some(row[1].1)
            &&& catalog::cell_named(row, "specific_name"@, 0) == Some(row[2].1)
            &&& catalog::cell_named(row, "ordinal_position"@, 0) == Some(row[3].1)
            &&& catalog::cell_named(row, "parameter_mode"@, 0) == Some(row[4].1)
            &&& catalog::cell_named(row, "is_result"@, 0) == Some(row[5].1)
            &&& catalog::cell_named(row, "as_locator"@, 0) == Some(row[6].1)
            &&& catalog::cell_named(row, "parameter_name"@, 0) == Some(row[7].1)
            &&& catalog::cell_named(row, "data_type"@, 0) == Some(row[8].1)
            &&& catalog::cell_named(row, "udt_catalog"@, 0) == Some(row[9].1)
            &&& catalog::cell_named(row, "udt_schema"@, 0) == Some(row[10].1)
            &&& catalog::cell_named(row, "udt_name"@, 0) == Some(row[11].1)
            &&& catalog::cell_named(row, "parameter_default"@, 0) == Some(row[12].1)
            &&& catalog::cell_named(row, "dtd_identifier"@, 0) == Some(row[13].1)
        }),
{
    lemma_parameter_names();
    reveal_with_fuel(catalog::cell_named, 15);
    let row = information_schema::parameter_row_cells(f, p, ordinal);
    assert(row[0].0 == "specific_catalog"@);
    assert(row[1].0 == "specific_schema"@);
    assert(row[2].0 == "specific_name"@);
    assert(row[3].0 == "ordinal_position"@);
    assert(row[4].0 == "parameter_mode"@);
    assert(row[5].0 == "is_result"@);
    assert(row[6].0 == "as_locator"@);
    assert(row[7].0 == "parameter_name"@);
    assert(row[8].0 == "data_type"@);
    assert(row[9].0 == "udt_catalog"@);
    assert(row[10].0 == "udt_schema"@);
    assert(row[11].0 == "udt_name"@);
    assert(row[12].0 == "parameter_default"@);
    assert(row[13].0 == "dtd_identifier"@);
}

#[verifier::rlimit(60)]
proof fn lemma_parameter_shown(f: RoutineInfo, p: ParameterInfo, ordinal: i64)
    ensures
        shows_parameter(information_schema::parameter_row_cells(f, p, ordinal), f, information_schema::routine_identity(f).0, information_schema::routine_identity(f).1, p, ordinal as int),
{
    lemma_answers();
    lemma_parameter_cells(f, p, ordinal);
    let row = information_schema::parameter_row_cells(f, p, ordinal);
    assert(row[0].1 == CellView::Text("bicdb"@));
    assert(row[1].1 == CellView::Text(information_schema::routine_identity(f).0));
    assert(row[2].1 == CellView::Text(information_schema::routine_identity(f).2));
    assert(row[3].1 == CellView::Int(ordinal));
    assert(row[4].1 == CellView::Text(information_schema::mode_text(p.mode)));
    assert(row[5].1 == CellView::Text("NO"@));
    assert(row[6].1 == CellView::Text("NO"@));
    assert(row[7].1 == catalog::text_or_null(error::view_option(p.name)));
    assert(row[8].1 == CellView::Text(p.declared.data_type@));
    assert(row[9].1 == CellView::Text("bicdb"@));
    assert(row[10].1 == CellView::Text(p.declared.udt_schema@));
    assert(row[11].1 == CellView::Text(p.declared.udt_name@));
    assert(row[12].1 == CellView::Null);
    assert(row[13].1 == CellView::Text(text::signed_decimal(ordinal as int)));
}

proof fn lemma_put_in(list: Seq<EntryView>, e: EntryView)
    ensures
        information_schema::entry_put_in(list, e).to_multiset() == list.to_multiset().insert(e),
        information_schema::entry_put_in(list, e).len() == list.len() + 1,
        in_name_order(list) ==> in_name_order(information_schema::entry_put_in(list, e)),
        list.len() > 0 ==> information_schema::entry_put_in(list, e).last() == list.last()
            || information_schema::entry_put_in(list, e).last() == e,
        list.len() == 0 ==> information_schema::entry_put_in(list, e).last() == e,
        list.len() > 0 && order::precedes(e.name, list.last().name)
            ==> information_schema::entry_put_in(list, e).last() == list.last(),
    decreases list.len(),
{
    broadcast use vstd::seq_lib::group_to_multiset_ensures;

    let all = information_schema::entry_put_in(list, e);
    if list.len() == 0 || !order::precedes(e.name, list.last().name) {
        assert(all == list.push(e));
        if in_name_order(list) {
            assert forall|i: int| 0 <= i && i + 1 < all.len() implies !order::precedes(
                #[trigger] all[i + 1].name,
                all[i].name,
            ) by {
                if i + 1 < list.len() {
                    assert(all[i] == list[i]);
                    assert(all[i + 1] == list[i + 1]);
                }
            }
        }
    } else {
        let rest = list.drop_last();
        lemma_put_in(rest, e);
        let before = information_schema::entry_put_in(rest, e);
        assert(all == before.push(list.last()));
        assert(list =~= rest.push(list.last()));
        assert(all.to_multiset() =~= list.to_multiset().insert(e));
        if in_name_order(list) {
            assert(in_name_order(rest)) by {
                assert forall|i: int| 0 <= i && i + 1 < rest.len() implies !order::precedes(
                    #[trigger] rest[i + 1].name,
                    rest[i].name,
                ) by {
                    assert(rest[i + 1] == list[i + 1]);
                    assert(rest[i] == list[i]);
                }
            }
            assert(!order::precedes(list.last().name, before.last().name)) by {
                if before.last() == e {
                    order::law_total(e.name, list.last().name);
                } else {
                    assert(rest.len() > 0);
                    let k = rest.len() - 1;
                    assert(list[k + 1] == list.last());
                    assert(!order::precedes(list[k + 1].name, list[k].name));
                }
            }
            assert forall|i: int| 0 <= i && i + 1 < all.len() implies !order::precedes(
                #[trigger] all[i + 1].name,
                all[i].name,
            ) by {
                if i + 1 < before.len() {
                    assert(all[i] == before[i]);
                    assert(all[i + 1] == before[i + 1]);
                } else {
                    assert(all[i] == before.last());
                    assert(all[i + 1] == list.last());
                }
            }
        }
    }
}

/// No entry comes before the one in front of it.
pub open spec fn in_name_order(list: Seq<EntryView>) -> bool {
    forall|i: int|
        0 <= i && i + 1 < list.len() ==> !order::precedes(
            (#[trigger] list[i + 1]).name,
            list[i].name,
        )
}

proof fn lemma_entries_sorted(list: Seq<EntryView>)
    ensures
        information_schema::entries_sorted(list).to_multiset() == list.to_multiset(),
        in_name_order(information_schema::entries_sorted(list)),
    decreases list.len(),
{
    broadcast use vstd::seq_lib::group_to_multiset_ensures;

    if list.len() > 0 {
        lemma_entries_sorted(list.drop_last());
        lemma_put_in(information_schema::entries_sorted(list.drop_last()), list.last());
        assert(list =~= list.drop_last().push(list.last()));
    } else {
        assert(list =~= Seq::empty());
    }
}

/// `information_schema.tables` lists the entries that it is given, each as often as
/// it is given, in the order of their names; each row shows its entry, as a base
/// table or as a view.
pub proof fn law_tables_listed(entries: Seq<EntryView>)
    ensures
        ({
            let sorted = information_schema::entries_sorted(entries);
            let rows = information_schema::table_rows(sorted);
            &&& sorted.to_multiset() == entries.to_multiset()
            &&& in_name_order(sorted)
            &&& rows.len() == sorted.len()
            &&& forall|r: int|
                0 <= r < rows.len() ==> shows_table(
                    #[trigger] rows[r],
                    sorted[r].name,
                    sorted[r].view,
                )
        }),
{
    lemma_entries_sorted(entries);
    let sorted = information_schema::entries_sorted(entries);
    let rows = information_schema::table_rows(sorted);
    assert forall|r: int| 0 <= r < rows.len() implies shows_table(
        #[trigger] rows[r],
        sorted[r].name,
        sorted[r].view,
    ) by {
        lemma_table_shown(sorted[r].name, sorted[r].view);
    }
}

/// A row shows the domain that a type is.
pub open spec fn shows_type_as_domain(row: Row, t: TypeInfo) -> bool {
    match t.form {
        TypeForm::Domain(d) => shows_domain(row, t.schema_name@, t.name@, d),
        _ => false,
    }
}

/// `information_schema.domains` lists the domains among the types, one row each
/// and in their order, and no other type.
pub proof fn law_domains_listed(types: Seq<TypeInfo>) -> (places: Seq<int>)
    ensures
        places.len() == information_schema::domain_rows(types).len(),
        forall|r: int|
            0 <= r < places.len() ==> 0 <= #[trigger] places[r] < types.len()
                && shows_type_as_domain(
                information_schema::domain_rows(types)[r],
                types[places[r]],
            ),
        forall|r: int, q: int| 0 <= r < q < places.len() ==> places[r] < places[q],
        forall|i: int|
            0 <= i < types.len() && (#[trigger] types[i]).form is Domain ==> places.contains(i),
    decreases types.len(),
{
    if types.len() == 0 {
        Seq::empty()
    } else {
        let rest = types.drop_last();
        let before = law_domains_listed(rest);
        let t = types.last();
        match t.form {
            TypeForm::Domain(d) => {
                lemma_domain_shown(t.schema_name@, t.name@, d);
                let places = before.push(types.len() - 1);
                lemma_one_place_more(before, types.len() - 1);
                assert forall|i: int|
                    0 <= i < types.len() && (#[trigger] types[i]).form is Domain implies places.contains(
                    i,
                ) by {
                    if i < rest.len() {
                        assert(rest[i].form is Domain);
                    }
                }
                places
            },
            _ => {
                assert forall|i: int|
                    0 <= i < types.len() && (#[trigger] types[i]).form is Domain implies before.contains(
                    i,
                ) by {
                    assert(rest[i].form is Domain);
                }
                before
            },
        }
    }
}

proof fn lemma_one_place_more(places: Seq<int>, at: int)
    ensures
        places.push(at).contains(at),
        forall|i: int| #[trigger] places.contains(i) ==> places.push(at).contains(i),
{
    assert(places.push(at)[places.len() as int] == at);
    assert forall|i: int| #[trigger] places.contains(i) implies places.push(at).contains(i) by {
        let k = choose|k: int| 0 <= k < places.len() && places[k] == i;
        assert(places.push(at)[k] == i);
    }
}

/// `information_schema.user_defined_types` lists the composite types among the
/// types, one row each and in their order, and no other type.
pub proof fn law_composites_listed(types: Seq<TypeInfo>) -> (places: Seq<int>)
    ensures
        places.len() == information_schema::composite_rows(types).len(),
        forall|r: int|
            0 <= r < places.len() ==> 0 <= #[trigger] places[r] < types.len()
                && types[places[r]].form is Composite && shows_composite(
                information_schema::composite_rows(types)[r],
                types[places[r]].schema_name@,
                types[places[r]].name@,
            ),
        forall|r: int, q: int| 0 <= r < q < places.len() ==> places[r] < places[q],
        forall|i: int|
            0 <= i < types.len() && (#[trigger] types[i]).form is Composite ==> places.contains(i),
    decreases types.len(),
{
    if types.len() == 0 {
        Seq::empty()
    } else {
        let rest = types.drop_last();
        let before = law_composites_listed(rest);
        let t = types.last();
        match t.form {
            TypeForm::Composite => {
                lemma_composite_shown(t.schema_name@, t.name@);
                let places = before.push(types.len() - 1);
                lemma_one_place_more(before, types.len() - 1);
                assert forall|i: int|
                    0 <= i < types.len()
                        && (#[trigger] types[i]).form is Composite implies places.contains(i) by {
                    if i < rest.len() {
                        assert(rest[i].form is Composite);
                    }
                }
                places
            },
            _ => {
                assert forall|i: int|
                    0 <= i < types.len()
                        && (#[trigger] types[i]).form is Composite implies before.contains(i) by {
                    assert(rest[i].form is Composite);
                }
                before
            },
        }
    }
}

/// A column is an array whose elements have a type to show.
pub open spec fn has_elements(c: ColumnInfo) -> bool {
    c.array && (c.element_user_type is Some || c.element_built_in is Some)
}

/// `information_schema.element_types` lists the array columns of a table, one row
/// each and in their order, under the place of the column in the table.
pub proof fn law_elements_listed(table: TableInfo, columns: Seq<ColumnInfo>, n: int) -> (places:
    Seq<int>)
    requires
        0 <= n <= columns.len() <= i64::MAX,
    ensures
        places.len() == information_schema::table_element_rows(table, columns, n).len(),
        forall|r: int|
            0 <= r < places.len() ==> 0 <= #[trigger] places[r] < n && has_elements(
                columns[places[r]],
            ) && shows_elements(
                information_schema::table_element_rows(table, columns, n)[r],
                table,
                columns[places[r]],
                places[r] + 1,
            ),
        forall|r: int, q: int| 0 <= r < q < places.len() ==> places[r] < places[q],
        forall|i: int|
            0 <= i < n && has_elements(#[trigger] columns[i]) ==> places.contains(i),
    decreases n,
{
    if n <= 0 {
        Seq::empty()
    } else {
        let before = law_elements_listed(table, columns, n - 1);
        let c = columns[n - 1];
        if has_elements(c) {
            let element = information_schema::element_type(c)->0;
            lemma_element_shown(table, element, n as i64);
            assert(information_schema::element_type(c) == Some(element));
            lemma_one_place_more(before, n - 1);
            before.push(n - 1)
        } else {
            before
        }
    }
}

proof fn lemma_last_dot(s: Seq<char>, n: int)
    requires
        0 <= n <= s.len(),
    ensures
        match information_schema::last_dot(s, n) {
            Some(at) => 0 <= at < n && s[at] == '.' && forall|k: int| at < k < n ==> s[k] != '.',
            None => forall|k: int| 0 <= k < n ==> s[k] != '.',
        },
    decreases n,
{
    if n > 0 {
        lemma_last_dot(s, n - 1);
    }
}

/// The schema and the name that a routine goes by are what stands before and
/// behind the last dot of its name, and `public` and the whole name where there
/// is no dot; the specific name is that name with the hash of the arguments.
pub proof fn law_routine_identity(f: RoutineInfo)
    ensures
        is_split(
            f.name@,
            information_schema::routine_identity(f).0,
            information_schema::routine_identity(f).1,
        ),
        f.name@.contains('.') ==> f.name@ == information_schema::routine_identity(f).0 + "."@
            + information_schema::routine_identity(f).1,
        information_schema::routine_identity(f).2 == information_schema::routine_identity(f).1
            + "_"@ + f.arguments_hash@,
{
    let s = f.name@;
    lemma_last_dot(s, s.len() as int);
    reveal_strlit(".");
    let (schema, name, _) = information_schema::routine_identity(f);
    if let Some(at) = information_schema::last_dot(s, s.len() as int) {
        assert(s =~= schema + "."@ + name);
        assert forall|k: int| 0 <= k < name.len() implies name[k] != '.' by {
            assert(name[k] == s[at + 1 + k]);
        }
    }
}

/// `information_schema.routines` has one row for each routine, in their order: it
/// says whether the routine is a procedure, what it returns, and with whose
/// rights it runs.
pub proof fn law_routines_listed(routines: Seq<RoutineInfo>, i: int)
    requires
        0 <= i < routines.len(),
    ensures
        information_schema::routine_rows(routines).len() == routines.len(),
        exists|schema: Seq<char>, name: Seq<char>| #[trigger]
            is_split(routines[i].name@, schema, name) && shows_routine(
                information_schema::routine_rows(routines)[i],
                routines[i],
                schema,
                name,
            ),
{
    let f = routines[i];
    law_routine_identity(f);
    lemma_routine_shown(f);
    let (schema, name, _) = information_schema::routine_identity(f);
    assert(is_split(f.name@, schema, name));
    assert(information_schema::routine_rows(routines)[i] == information_schema::routine_row_cells(
        f,
    ));
}

proof fn lemma_parameter_rows(f: RoutineInfo, n: int)
    requires
        0 <= n <= f.parameters@.len() <= i64::MAX,
    ensures
        information_schema::routine_parameter_rows(f, n).len() == n,
        forall|i: int|
            0 <= i < n ==> #[trigger] information_schema::routine_parameter_rows(f, n)[i]
                == information_schema::parameter_row_cells(f, f.parameters@[i], (i + 1) as i64),
    decreases n,
{
    if n > 0 {
        lemma_parameter_rows(f, n - 1);
    }
}

/// `information_schema.parameters` has one row for each parameter of a routine, in
/// their order and numbered from one: it says the direction, the name and the
/// type of the parameter.
pub proof fn law_parameters_listed(f: RoutineInfo, i: int)
    requires
        f.parameters@.len() <= i64::MAX,
        0 <= i < f.parameters@.len(),
    ensures
        information_schema::routine_parameter_rows(f, f.parameters@.len() as int).len()
            == f.parameters@.len(),
        exists|schema: Seq<char>, name: Seq<char>| #[trigger]
            is_split(f.name@, schema, name) && shows_parameter(
                information_schema::routine_parameter_rows(f, f.parameters@.len() as int)[i],
                f,
                schema,
                name,
                f.parameters@[i],
                i + 1,
            ),
{
    law_routine_identity(f);
    lemma_parameter_rows(f, f.parameters@.len() as int);
    lemma_parameter_shown(f, f.parameters@[i], (i + 1) as i64);
    let (schema, name, _) = information_schema::routine_identity(f);
    assert(is_split(f.name@, schema, name));
}

/// A type that is declared as an array goes by the name of its elements with an
/// underscore in front, in the schema of the element type; any other goes by its
/// own name. Only a type of the catalog is in `pg_catalog`.
pub proof fn law_declared_type(array: bool, t: information_schema::TypeLookup)
    ensures
        ({
            let (data_type, schema, name) = information_schema::declared_type(array, t);
            match t.user_type {
                Some((own_schema, own_name)) => {
                    &&& schema == own_schema@
                    &&& array ==> data_type == "ARRAY"@ && name.len() == own_name@.len() + 1
                        && name.drop_first() == own_name@ && name[0] == '_'
                    &&& !array ==> data_type == "USER-DEFINED"@ && name == own_name@
                },
                None => {
                    &&& schema == "pg_catalog"@
                    &&& t.element matches Some(element) ==> data_type == "ARRAY"@
                        && name.drop_first() == element@ && name[0] == '_'
                    &&& t.element is None ==> data_type == t.built_in_data_type@ && name
                        == t.canonical@
                },
            }
        }),
{
    reveal_strlit("_");
    let (_, _, name) = information_schema::declared_type(array, t);
    if let Some((_, own_name)) = t.user_type {
        if array {
            assert(name.drop_first() =~= own_name@);
        }
    } else if let Some(element) = t.element {
        assert(name.drop_first() =~= element@);
    }
}

} // verus!
