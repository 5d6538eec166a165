//! The rows of the information schema.
use vstd::prelude::*;
use crate::catalog;
use crate::catalog::{CatalogRow, CellView};
use crate::error;
use crate::filters;
use crate::order;
use crate::sets;
use crate::pseudo_types::ArgumentMode;
use crate::text;

verus! {

/// The sequence behind an identity column.
#[derive(Clone, Copy, Debug)]
pub struct SequenceInfo {
    pub start_value: i64,
    pub increment_by: i64,
    pub max_value: i64,
    pub min_value: i64,
    pub cycle: bool,
}

/// What the information schema shows of a column: its name and whether it is
/// hidden, whether it takes nulls and belongs to the primary key, the kind of
/// its identity, the name and the state of its sequence, the expression that
/// generates it, its collation, its type as the information schema names it,
/// the schema and the name of its domain, and its lengths. For an array,
/// `element_user_type` is the schema and the name of the user type of its
/// elements, `element_built_in` the built-in type of its elements as the
/// information schema names it and by its own name.
#[derive(Debug)]
pub struct ColumnInfo {
    pub name: String,
    pub hidden: bool,
    pub nullable: bool,
    pub primary_key: bool,
    pub identity: Option<String>,
    pub default_sequence: Option<String>,
    pub sequence: Option<SequenceInfo>,
    pub generated_expr: Option<String>,
    pub collation: Option<String>,
    pub data_type: String,
    pub udt_schema: String,
    pub udt_name: String,
    pub domain: Option<(String, String)>,
    pub maximum_length: Option<i64>,
    pub octet_length: Option<i64>,
    pub array: bool,
    pub element_user_type: Option<(String, String)>,
    pub element_built_in: Option<(String, String)>,
}

/// A table, a view or a graph table with its columns.
#[derive(Debug)]
pub struct TableInfo {
    pub schema_name: String,
    pub name: String,
    pub columns: Vec<ColumnInfo>,
}

pub open spec fn first_of(p: Option<(String, String)>) -> Option<Seq<char>> {
    match p {
        Some((a, _)) => Some(a@),
        None => None,
    }
}

pub open spec fn second_of(p: Option<(String, String)>) -> Option<Seq<char>> {
    match p {
        Some((_, b)) => Some(b@),
        None => None,
    }
}

/// The default of a column: the next value of its sequence, unless the column
/// is an identity or generated.
pub open spec fn default_text(c: ColumnInfo) -> Option<Seq<char>> {
    if c.identity is None && c.generated_expr is None {
        match c.default_sequence {
            Some(sequence) => Some("nextval('"@ + sequence@ + "'::regclass)"@),
            None => None,
        }
    } else {
        None
    }
}

fn default_of(c: &ColumnInfo) -> (r: Option<String>)
    ensures
        error::view_option(r) == default_text(*c),
{
    if c.identity.is_none() && c.generated_expr.is_none() {
        match &c.default_sequence {
            Some(sequence) => Some(
                text::concat3("nextval('", sequence.as_str(), "'::regclass)"),
            ),
            None => None,
        }
    } else {
        None
    }
}

/// How the values of an identity column are generated.
pub open spec fn identity_generation(c: ColumnInfo) -> Option<Seq<char>> {
    match c.identity {
        Some(kind) => if kind@ == "a"@ {
            Some("ALWAYS"@)
        } else {
            Some("BY DEFAULT"@)
        },
        None => None,
    }
}

/// A number of the sequence behind an identity column.
pub open spec fn sequence_text(c: ColumnInfo, part: spec_fn(SequenceInfo) -> i64) -> Option<
    Seq<char>,
> {
    if c.identity is Some {
        match c.sequence {
            Some(s) => Some(text::signed_decimal(part(s) as int)),
            None => None,
        }
    } else {
        None
    }
}

/// The row of `information_schema.columns` of a column of a table.
pub open spec fn table_column_row_cells(table: Seq<char>, c: ColumnInfo, ordinal: i64) -> Seq<(Seq<char>, CellView)> {
    seq![
        ("table_catalog"@, CellView::Text("bicdb"@)),
        ("table_schema"@, CellView::Text("public"@)),
        ("table_name"@, CellView::Text(table)),
        ("column_name"@, CellView::Text(c.name@)),
        ("ordinal_position"@, CellView::Int(ordinal)),
        ("data_type"@, CellView::Text(c.data_type@)),
        ("domain_catalog"@, catalog::text_or_null(if c.domain is Some { Some("bicdb"@) } else { None })),
        ("domain_schema"@, catalog::text_or_null(first_of(c.domain))),
        ("domain_name"@, catalog::text_or_null(second_of(c.domain))),
        ("udt_catalog"@, CellView::Text("bicdb"@)),
        ("udt_schema"@, CellView::Text(c.udt_schema@)),
        ("udt_name"@, CellView::Text(c.udt_name@)),
        ("dtd_identifier"@, CellView::Text(text::signed_decimal(ordinal as int))),
        ("is_self_referencing"@, CellView::Text("NO"@)),
        ("is_generated"@, CellView::Text(if c.generated_expr is Some { "ALWAYS"@ } else { "NEVER"@ })),
        ("generation_expression"@, catalog::text_or_null(error::view_option(c.generated_expr))),
        ("is_updatable"@, CellView::Text("YES"@)),
        ("character_maximum_length"@, catalog::int_or_null(c.maximum_length)),
        ("character_octet_length"@, catalog::int_or_null(c.octet_length)),
        ("collation_catalog"@, catalog::text_or_null(if c.collation is Some { Some("bicdb"@) } else { None })),
        ("collation_schema"@, catalog::text_or_null(if c.collation is Some { Some("pg_catalog"@) } else { None })),
        ("collation_name"@, catalog::text_or_null(error::view_option(c.collation))),
        ("is_nullable"@, CellView::Text(if c.nullable { "YES"@ } else { "NO"@ })),
        ("column_default"@, catalog::text_or_null(default_text(c))),
        ("is_identity"@, CellView::Text(if c.identity is Some { "YES"@ } else { "NO"@ })),
        ("identity_generation"@, catalog::text_or_null(identity_generation(c))),
        ("identity_start"@, catalog::text_or_null(sequence_text(c, |s: SequenceInfo| s.start_value))),
        ("identity_increment"@, catalog::text_or_null(sequence_text(c, |s: SequenceInfo| s.increment_by))),
        ("identity_maximum"@, catalog::text_or_null(sequence_text(c, |s: SequenceInfo| s.max_value))),
        ("identity_minimum"@, catalog::text_or_null(sequence_text(c, |s: SequenceInfo| s.min_value))),
        ("identity_cycle"@, CellView::Text(if c.identity is Some && c.sequence is Some && c.sequence->0.cycle { "YES"@ } else { "NO"@ })),
    ]
}

#[verifier::rlimit(40)]
fn table_column_row(table: &str, c: &ColumnInfo, ordinal: i64) -> (r: CatalogRow)
    ensures
        r@ == table_column_row_cells(table@, *c, ordinal),
{
    let identifier = text::signed_text(ordinal);
    let (domain_schema, domain_name) = match &c.domain {
        Some((schema, name)) => (Some(schema.as_str()), Some(name.as_str())),
        None => (None, None),
    };
    let default = default_of(c);
    let generation = match &c.identity {
        Some(kind) => if text::text_eq(kind.as_str(), "a") {
            Some("ALWAYS")
        } else {
            Some("BY DEFAULT")
        },
        None => None,
    };
    let mut start: Option<String> = None;
    let mut increment: Option<String> = None;
    let mut maximum: Option<String> = None;
    let mut minimum: Option<String> = None;
    let mut cycle: &str = "NO";
    if c.identity.is_some() {
        match &c.sequence {
            Some(s) => {
                start = Some(text::signed_text(s.start_value));
                increment = Some(text::signed_text(s.increment_by));
                maximum = Some(text::signed_text(s.max_value));
                minimum = Some(text::signed_text(s.min_value));
                if s.cycle {
                    cycle = "YES";
                }
            },
            None => {},
        }
    }
    let mut row = CatalogRow::new();
    row.put_text("table_catalog", "bicdb");
    row.put_text("table_schema", "public");
    row.put_text("table_name", table);
    row.put_text("column_name", c.name.as_str());
    row.put_int("ordinal_position", ordinal);
    row.put_text("data_type", c.data_type.as_str());
    row.put_optional("domain_catalog", if c.domain.is_some() { Some("bicdb") } else { None });
    row.put_optional("domain_schema", domain_schema);
    row.put_optional("domain_name", domain_name);
    row.put_text("udt_catalog", "bicdb");
    row.put_text("udt_schema", c.udt_schema.as_str());
    row.put_text("udt_name", c.udt_name.as_str());
    row.put_text("dtd_identifier", identifier.as_str());
    row.put_text("is_self_referencing", "NO");
    row.put_text("is_generated", if c.generated_expr.is_some() { "ALWAYS" } else { "NEVER" });
    row.put_optional("generation_expression", catalog::borrowed(&c.generated_expr));
    row.put_text("is_updatable", "YES");
    row.put_optional_int("character_maximum_length", c.maximum_length);
    row.put_optional_int("character_octet_length", c.octet_length);
    row.put_optional("collation_catalog", if c.collation.is_some() { Some("bicdb") } else { None });
    row.put_optional("collation_schema", if c.collation.is_some() { Some("pg_catalog") } else { None });
    row.put_optional("collation_name", catalog::borrowed(&c.collation));
    row.put_text("is_nullable", if c.nullable { "YES" } else { "NO" });
    row.put_optional("column_default", catalog::borrowed(&default));
    row.put_text("is_identity", if c.identity.is_some() { "YES" } else { "NO" });
    row.put_optional("identity_generation", generation);
    row.put_optional("identity_start", catalog::borrowed(&start));
    row.put_optional("identity_increment", catalog::borrowed(&increment));
    row.put_optional("identity_maximum", catalog::borrowed(&maximum));
    row.put_optional("identity_minimum", catalog::borrowed(&minimum));
    row.put_text("identity_cycle", cycle);
    assert(row@ =~= table_column_row_cells(table@, *c, ordinal));
    row
}

/// The row of `information_schema.columns` of a column of a view.
pub open spec fn view_column_row_cells(table: Seq<char>, c: ColumnInfo, ordinal: i64) -> Seq<(Seq<char>, CellView)> {
    seq![
        ("table_catalog"@, CellView::Text("bicdb"@)),
        ("table_schema"@, CellView::Text("public"@)),
        ("table_name"@, CellView::Text(table)),
        ("column_name"@, CellView::Text(c.name@)),
        ("ordinal_position"@, CellView::Int(ordinal)),
        ("data_type"@, CellView::Text(c.data_type@)),
        ("domain_catalog"@, catalog::text_or_null(if c.domain is Some { Some("bicdb"@) } else { None })),
        ("domain_schema"@, catalog::text_or_null(first_of(c.domain))),
        ("domain_name"@, catalog::text_or_null(second_of(c.domain))),
        ("udt_catalog"@, CellView::Text("bicdb"@)),
        ("udt_schema"@, CellView::Text(c.udt_schema@)),
        ("udt_name"@, CellView::Text(c.udt_name@)),
        ("dtd_identifier"@, CellView::Text(text::signed_decimal(ordinal as int))),
        ("is_self_referencing"@, CellView::Text("NO"@)),
        ("is_generated"@, CellView::Text("NEVER"@)),
        ("generation_expression"@, CellView::Null),
        ("is_updatable"@, CellView::Text("YES"@)),
        ("character_maximum_length"@, catalog::int_or_null(c.maximum_length)),
        ("character_octet_length"@, catalog::int_or_null(c.octet_length)),
        ("is_nullable"@, CellView::Text("YES"@)),
        ("column_default"@, CellView::Null),
        ("is_identity"@, CellView::Text("NO"@)),
        ("identity_generation"@, CellView::Null),
        ("identity_start"@, CellView::Null),
        ("identity_increment"@, CellView::Null),
        ("identity_maximum"@, CellView::Null),
        ("identity_minimum"@, CellView::Null),
        ("identity_cycle"@, CellView::Text("NO"@)),
    ]
}

#[verifier::rlimit(40)]
fn view_column_row(table: &str, c: &ColumnInfo, ordinal: i64) -> (r: CatalogRow)
    ensures
        r@ == view_column_row_cells(table@, *c, ordinal),
{
    let identifier = text::signed_text(ordinal);
    let (domain_schema, domain_name) = match &c.domain {
        Some((schema, name)) => (Some(schema.as_str()), Some(name.as_str())),
        None => (None, None),
    };
    let mut row = CatalogRow::new();
    row.put_text("table_catalog", "bicdb");
    row.put_text("table_schema", "public");
    row.put_text("table_name", table);
    row.put_text("column_name", c.name.as_str());
    row.put_int("ordinal_position", ordinal);
    row.put_text("data_type", c.data_type.as_str());
    row.put_optional("domain_catalog", if c.domain.is_some() { Some("bicdb") } else { None });
    row.put_optional("domain_schema", domain_schema);
    row.put_optional("domain_name", domain_name);
    row.put_text("udt_catalog", "bicdb");
    row.put_text("udt_schema", c.udt_schema.as_str());
    row.put_text("udt_name", c.udt_name.as_str());
    row.put_text("dtd_identifier", identifier.as_str());
    row.put_text("is_self_referencing", "NO");
    row.put_text("is_generated", "NEVER");
    row.put_null("generation_expression");
    row.put_text("is_updatable", "YES");
    row.put_optional_int("character_maximum_length", c.maximum_length);
    row.put_optional_int("character_octet_length", c.octet_length);
    row.put_text("is_nullable", "YES");
    row.put_null("column_default");
    row.put_text("is_identity", "NO");
    row.put_null("identity_generation");
    row.put_null("identity_start");
    row.put_null("identity_increment");
    row.put_null("identity_maximum");
    row.put_null("identity_minimum");
    row.put_text("identity_cycle", "NO");
    assert(row@ =~= view_column_row_cells(table@, *c, ordinal));
    row
}

/// The row of `information_schema.columns` of a column of a graph table.
pub open spec fn graph_column_row_cells(table: Seq<char>, c: ColumnInfo, ordinal: i64) -> Seq<(Seq<char>, CellView)> {
    seq![
        ("table_catalog"@, CellView::Text("bicdb"@)),
        ("table_schema"@, CellView::Text("public"@)),
        ("table_name"@, CellView::Text(table)),
        ("column_name"@, CellView::Text(c.name@)),
        ("ordinal_position"@, CellView::Int(ordinal)),
        ("data_type"@, CellView::Text(c.data_type@)),
        ("domain_catalog"@, CellView::Null),
        ("domain_schema"@, CellView::Null),
        ("domain_name"@, CellView::Null),
        ("udt_catalog"@, CellView::Text("bicdb"@)),
        ("udt_schema"@, CellView::Text(c.udt_schema@)),
        ("udt_name"@, CellView::Text(c.udt_name@)),
        ("dtd_identifier"@, CellView::Text(text::signed_decimal(ordinal as int))),
        ("is_self_referencing"@, CellView::Text("NO"@)),
        ("is_generated"@, CellView::Text("NEVER"@)),
        ("generation_expression"@, CellView::Null),
        ("is_updatable"@, CellView::Text("YES"@)),
        ("character_maximum_length"@, catalog::int_or_null(c.maximum_length)),
        ("character_octet_length"@, catalog::int_or_null(c.octet_length)),
        ("is_nullable"@, CellView::Text("YES"@)),
    ]
}

#[verifier::rlimit(40)]
fn graph_column_row(table: &str, c: &ColumnInfo, ordinal: i64) -> (r: CatalogRow)
    ensures
        r@ == graph_column_row_cells(table@, *c, ordinal),
{
    let identifier = text::signed_text(ordinal);
    let mut row = CatalogRow::new();
    row.put_text("table_catalog", "bicdb");
    row.put_text("table_schema", "public");
    row.put_text("table_name", table);
    row.put_text("column_name", c.name.as_str());
    row.put_int("ordinal_position", ordinal);
    row.put_text("data_type", c.data_type.as_str());
    row.put_null("domain_catalog");
    row.put_null("domain_schema");
    row.put_null("domain_name");
    row.put_text("udt_catalog", "bicdb");
    row.put_text("udt_schema", c.udt_schema.as_str());
    row.put_text("udt_name", c.udt_name.as_str());
    row.put_text("dtd_identifier", identifier.as_str());
    row.put_text("is_self_referencing", "NO");
    row.put_text("is_generated", "NEVER");
    row.put_null("generation_expression");
    row.put_text("is_updatable", "YES");
    row.put_optional_int("character_maximum_length", c.maximum_length);
    row.put_optional_int("character_octet_length", c.octet_length);
    row.put_text("is_nullable", "YES");
    assert(row@ =~= graph_column_row_cells(table@, *c, ordinal));
    row
}

/// What the columns belong to.
#[derive(Clone, Copy, Debug, PartialEq, Eq, Structural)]
pub enum RelationKind {
    Table,
    View,
    Graph,
}

pub open spec fn column_cells(
    kind: RelationKind,
    table: Seq<char>,
    c: ColumnInfo,
    ordinal: i64,
) -> Seq<(Seq<char>, CellView)> {
    match kind {
        RelationKind::Table => table_column_row_cells(table, c, ordinal),
        RelationKind::View => view_column_row_cells(table, c, ordinal),
        RelationKind::Graph => graph_column_row_cells(table, c, ordinal),
    }
}

/// The columns that are not hidden.
pub open spec fn visible(columns: Seq<ColumnInfo>) -> Seq<ColumnInfo>
    decreases columns.len(),
{
    if columns.len() == 0 {
        Seq::empty()
    } else if columns.last().hidden {
        visible(columns.drop_last())
    } else {
        visible(columns.drop_last()).push(columns.last())
    }
}

pub open spec fn column_refs(v: Seq<&ColumnInfo>) -> Seq<ColumnInfo> {
    v.map_values(|c: &ColumnInfo| *c)
}

fn visible_columns<'a>(columns: &'a Vec<ColumnInfo>, all: bool) -> (r: Vec<&'a ColumnInfo>)
    ensures
        column_refs(r@) == (if all {
            columns@
        } else {
            visible(columns@)
        }),
{
    let mut out: Vec<&'a ColumnInfo> = Vec::new();
    let mut i: usize = 0;
    assert(columns@.take(0) =~= Seq::<ColumnInfo>::empty());
    assert(column_refs(out@) =~= visible(columns@.take(0)));
    while i < columns.len()
        invariant
            i <= columns.len(),
            column_refs(out@) == (if all {
                columns@.take(i as int)
            } else {
                visible(columns@.take(i as int))
            }),
        decreases columns.len() - i,
    {
        assert(columns@.take(i as int + 1).drop_last() =~= columns@.take(i as int));
        assert(columns@.take(i as int + 1).last() == columns@[i as int]);
        if all || !columns[i].hidden {
            let ghost prior = out@;
            out.push(&columns[i]);
            assert(column_refs(out@) =~= column_refs(prior).push(columns@[i as int]));
            assert(columns@.take(i as int + 1) =~= columns@.take(i as int).push(
                columns@[i as int],
            ));
        }
        i = i + 1;
    }
    assert(columns@.take(columns@.len() as int) =~= columns@);
    out
}

/// The rows of the first columns of a relation, numbered from one, without those
/// that the filter holds back.
pub open spec fn relation_rows(
    kind: RelationKind,
    table: Seq<char>,
    columns: Seq<ColumnInfo>,
    names: Option<Seq<Seq<char>>>,
    n: int,
) -> Seq<Seq<(Seq<char>, CellView)>>
    decreases n,
{
    if n <= 0 || n > columns.len() {
        Seq::empty()
    } else {
        let before = relation_rows(kind, table, columns, names, n - 1);
        if filters::lets_through(names, columns[n - 1].name@) {
            before.push(column_cells(kind, table, columns[n - 1], n as i64))
        } else {
            before
        }
    }
}

fn lets_name_through(names: Option<&Vec<String>>, name: &str) -> (r: bool)
    ensures
        r == filters::lets_through(filter_view(names), name@),
{
    match names {
        Some(list) => sets::holds_text(list, name),
        None => true,
    }
}

pub open spec fn filter_view(names: Option<&Vec<String>>) -> Option<Seq<Seq<char>>> {
    match names {
        Some(list) => Some(text::views(list@)),
        None => None,
    }
}

fn add_relation_rows(
    rows: &mut Vec<CatalogRow>,
    kind: RelationKind,
    table: &str,
    columns: &Vec<&ColumnInfo>,
    names: Option<&Vec<String>>,
)
    requires
        columns@.len() <= i64::MAX,
    ensures
        catalog::row_views(final(rows)@) == catalog::row_views(old(rows)@) + relation_rows(
            kind,
            table@,
            column_refs(columns@),
            filter_view(names),
            columns@.len() as int,
        ),
{
    let ghost start = catalog::row_views(rows@);
    let ghost all = column_refs(columns@);
    let ghost filter = filter_view(names);
    let mut i: usize = 0;
    assert(catalog::row_views(rows@) =~= start + relation_rows(kind, table@, all, filter, 0));
    while i < columns.len()
        invariant
            i <= columns.len(),
            columns@.len() <= i64::MAX,
            all == column_refs(columns@),
            filter == filter_view(names),
            catalog::row_views(rows@) == start + relation_rows(
                kind,
                table@,
                all,
                filter,
                i as int,
            ),
        decreases columns.len() - i,
    {
        let c = columns[i];
        assert(all[i as int] == *c);
        if lets_name_through(names, c.name.as_str()) {
            let ordinal: i64 = (i + 1) as i64;
            let row = match kind {
                RelationKind::Table => table_column_row(table, c, ordinal),
                RelationKind::View => view_column_row(table, c, ordinal),
                RelationKind::Graph => graph_column_row(table, c, ordinal),
            };
            let ghost shown = row@;
            let ghost before = catalog::row_views(rows@);
            catalog::push_row(rows, row);
            assert(before.push(shown) =~= start + relation_rows(
                kind,
                table@,
                all,
                filter,
                i as int,
            ).push(shown));
        }
        i = i + 1;
    }
}

/// The columns of the first table with that name, whatever the case of its
/// letters.
pub open spec fn columns_named(tables: Seq<TableInfo>, name: Seq<char>, from: int) -> Option<
    Seq<ColumnInfo>,
>
    decreases tables.len() - from,
{
    if from < 0 || from >= tables.len() {
        None
    } else if text::same_ignoring_case(tables[from].name@, name) {
        Some(tables[from].columns@)
    } else {
        columns_named(tables, name, from + 1)
    }
}

fn find_columns<'a>(tables: &'a Vec<TableInfo>, name: &str) -> (r: Option<&'a Vec<ColumnInfo>>)
    ensures
        match (r, columns_named(tables@, name@, 0)) {
            (Some(columns), Some(view)) => columns@ == view,
            (None, None) => true,
            _ => false,
        },
{
    let mut i: usize = 0;
    while i < tables.len()
        invariant
            i <= tables.len(),
            columns_named(tables@, name@, 0) == columns_named(tables@, name@, i as int),
        decreases tables.len() - i,
    {
        if text::eq_ignore_case(tables[i].name.as_str(), name) {
            return Some(&tables[i].columns);
        }
        i = i + 1;
    }
    None
}

/// What the information schema lists columns of: the names of the collections,
/// the tables that are declared, the columns of a collection that is not, the
/// views, and the graph tables.
#[derive(Debug)]
pub struct ColumnSources {
    pub collections: Vec<String>,
    pub tables: Vec<TableInfo>,
    pub undeclared: Vec<ColumnInfo>,
    pub views: Vec<TableInfo>,
    pub graphs: Vec<TableInfo>,
}

impl ColumnSources {
    /// Each relation has fewer columns than can be numbered.
    pub open spec fn numbered(self) -> bool {
        &&& self.undeclared@.len() <= i64::MAX
        &&& forall|i: int|
            0 <= i < self.tables@.len() ==> (#[trigger] self.tables@[i]).columns@.len() <= i64::MAX
        &&& forall|i: int|
            0 <= i < self.views@.len() ==> (#[trigger] self.views@[i]).columns@.len() <= i64::MAX
        &&& forall|i: int|
            0 <= i < self.graphs@.len() ==> (#[trigger] self.graphs@[i]).columns@.len() <= i64::MAX
    }
}

/// The columns that a collection shows.
pub open spec fn collection_columns(s: ColumnSources, name: Seq<char>) -> Seq<ColumnInfo> {
    match columns_named(s.tables@, name, 0) {
        Some(columns) => visible(columns),
        None => s.undeclared@,
    }
}

/// The table of a filter lets a relation through.
pub open spec fn lists_relation(
    schemas: Option<Seq<Seq<char>>>,
    tables: Option<Seq<Seq<char>>>,
    name: Seq<char>,
) -> bool {
    filters::lets_through(tables, name) && filters::lets_through(schemas, "public"@)
}

/// The rows of the columns of the first collections.
pub open spec fn collection_rows(
    s: ColumnSources,
    schemas: Option<Seq<Seq<char>>>,
    tables: Option<Seq<Seq<char>>>,
    names: Option<Seq<Seq<char>>>,
    n: int,
) -> Seq<Seq<(Seq<char>, CellView)>>
    decreases n,
{
    if n <= 0 || n > s.collections@.len() {
        Seq::empty()
    } else {
        let name = s.collections@[n - 1]@;
        let columns = collection_columns(s, name);
        let before = collection_rows(s, schemas, tables, names, n - 1);
        if lists_relation(schemas, tables, name) {
            before + relation_rows(
                RelationKind::Table,
                name,
                columns,
                names,
                columns.len() as int,
            )
        } else {
            before
        }
    }
}

/// The rows of the columns of the first of some views or graph tables.
pub open spec fn listed_rows(
    kind: RelationKind,
    relations: Seq<TableInfo>,
    schemas: Option<Seq<Seq<char>>>,
    tables: Option<Seq<Seq<char>>>,
    names: Option<Seq<Seq<char>>>,
    n: int,
) -> Seq<Seq<(Seq<char>, CellView)>>
    decreases n,
{
    if n <= 0 || n > relations.len() {
        Seq::empty()
    } else {
        let relation = relations[n - 1];
        let before = listed_rows(kind, relations, schemas, tables, names, n - 1);
        if lists_relation(schemas, tables, relation.name@) {
            before + relation_rows(
                kind,
                relation.name@,
                relation.columns@,
                names,
                relation.columns@.len() as int,
            )
        } else {
            before
        }
    }
}

fn add_listed_rows(
    rows: &mut Vec<CatalogRow>,
    kind: RelationKind,
    relations: &Vec<TableInfo>,
    schemas: Option<&Vec<String>>,
    tables: Option<&Vec<String>>,
    names: Option<&Vec<String>>,
)
    requires
        forall|i: int|
            0 <= i < relations@.len() ==> (#[trigger] relations@[i]).columns@.len() <= i64::MAX,
    ensures
        catalog::row_views(final(rows)@) == catalog::row_views(old(rows)@) + listed_rows(
            kind,
            relations@,
            filter_view(schemas),
            filter_view(tables),
            filter_view(names),
            relations@.len() as int,
        ),
{
    let ghost start = catalog::row_views(rows@);
    let ghost s = filter_view(schemas);
    let ghost t = filter_view(tables);
    let ghost c = filter_view(names);
    let mut i: usize = 0;
    assert(catalog::row_views(rows@) =~= start + listed_rows(kind, relations@, s, t, c, 0));
    while i < relations.len()
        invariant
            i <= relations.len(),
            forall|i: int|
                0 <= i < relations@.len() ==> (#[trigger] relations@[i]).columns@.len() <= i64::MAX,
            s == filter_view(schemas),
            t == filter_view(tables),
            c == filter_view(names),
            catalog::row_views(rows@) == start + listed_rows(
                kind,
                relations@,
                s,
                t,
                c,
                i as int,
            ),
        decreases relations.len() - i,
    {
        let relation = &relations[i];
        if lets_name_through(tables, relation.name.as_str()) && lets_name_through(
            schemas,
            "public",
        ) {
            let columns = visible_columns(&relation.columns, true);
            assert(column_refs(columns@) == relation.columns@);
            assert(columns@.len() == column_refs(columns@).len());
            let ghost before = catalog::row_views(rows@);
            add_relation_rows(rows, kind, relation.name.as_str(), &columns, names);
            assert(catalog::row_views(rows@) =~= start + (listed_rows(
                kind,
                relations@,
                s,
                t,
                c,
                i as int,
            ) + relation_rows(
                kind,
                relation.name@,
                relation.columns@,
                c,
                relation.columns@.len() as int,
            )));
        }
        i = i + 1;
    }
}

/// The rows of `information_schema.columns` that the filters let through.
pub open spec fn filtered_columns(
    s: ColumnSources,
    schemas: Option<Seq<Seq<char>>>,
    tables: Option<Seq<Seq<char>>>,
    names: Option<Seq<Seq<char>>>,
) -> Seq<Seq<(Seq<char>, CellView)>> {
    collection_rows(s, schemas, tables, names, s.collections@.len() as int) + listed_rows(
        RelationKind::View,
        s.views@,
        schemas,
        tables,
        names,
        s.views@.len() as int,
    ) + listed_rows(
        RelationKind::Graph,
        s.graphs@,
        schemas,
        tables,
        names,
        s.graphs@.len() as int,
    )
}

proof fn lemma_visible_len(columns: Seq<ColumnInfo>)
    ensures
        visible(columns).len() <= columns.len(),
    decreases columns.len(),
{
    if columns.len() > 0 {
        lemma_visible_len(columns.drop_last());
    }
}

proof fn lemma_columns_named(tables: Seq<TableInfo>, name: Seq<char>, from: int)
    requires
        forall|i: int|
            0 <= i < tables.len() ==> (#[trigger] tables[i]).columns@.len() <= i64::MAX,
    ensures
        columns_named(tables, name, from) is Some ==> columns_named(tables, name, from)->0.len()
            <= i64::MAX,
    decreases tables.len() - from,
{
    if 0 <= from < tables.len() {
        assert(tables[from].columns@.len() <= i64::MAX);
        lemma_columns_named(tables, name, from + 1);
    }
}

/// The rows of `information_schema.columns` that the filters let through.
pub fn information_schema_columns_filtered(
    sources: &ColumnSources,
    schema_names: Option<&Vec<String>>,
    table_names: Option<&Vec<String>>,
    column_names: Option<&Vec<String>>,
) -> (r: Vec<CatalogRow>)
    requires
        sources.numbered(),
    ensures
        catalog::row_views(r@) == filtered_columns(
            *sources,
            filter_view(schema_names),
            filter_view(table_names),
            filter_view(column_names),
        ),
{
    let ghost s = filter_view(schema_names);
    let ghost t = filter_view(table_names);
    let ghost c = filter_view(column_names);
    let mut rows: Vec<CatalogRow> = Vec::new();
    let mut i: usize = 0;
    assert(catalog::row_views(rows@) =~= collection_rows(*sources, s, t, c, 0));
    while i < sources.collections.len()
        invariant
            i <= sources.collections.len(),
            sources.numbered(),
            s == filter_view(schema_names),
            t == filter_view(table_names),
            c == filter_view(column_names),
            catalog::row_views(rows@) == collection_rows(*sources, s, t, c, i as int),
        decreases sources.collections.len() - i,
    {
        let name = sources.collections[i].as_str();
        if lets_name_through(table_names, name) && lets_name_through(schema_names, "public") {
            let columns = match find_columns(&sources.tables, name) {
                Some(declared) => {
                    proof {
                        lemma_columns_named(sources.tables@, name@, 0);
                        lemma_visible_len(declared@);
                    }
                    visible_columns(declared, false)
                },
                None => visible_columns(&sources.undeclared, true),
            };
            assert(column_refs(columns@) == collection_columns(*sources, name@));
            assert(columns@.len() == column_refs(columns@).len());
            add_relation_rows(&mut rows, RelationKind::Table, name, &columns, column_names);
        }
        i = i + 1;
    }
    add_listed_rows(
        &mut rows,
        RelationKind::View,
        &sources.views,
        schema_names,
        table_names,
        column_names,
    );
    add_listed_rows(
        &mut rows,
        RelationKind::Graph,
        &sources.graphs,
        schema_names,
        table_names,
        column_names,
    );
    rows
}

/// The rows of `information_schema.columns`.
pub fn information_schema_columns(sources: &ColumnSources) -> (r: Vec<CatalogRow>)
    requires
        sources.numbered(),
    ensures
        catalog::row_views(r@) == filtered_columns(*sources, None, None, None),
{
    information_schema_columns_filtered(sources, None, None, None)
}

/// The row of `information_schema.tables` of a table or a view.
pub open spec fn table_row_cells(t: Seq<char>, view: bool) -> Seq<(Seq<char>, CellView)> {
    seq![
        ("table_catalog"@, CellView::Text("bicdb"@)),
        ("table_schema"@, CellView::Text("public"@)),
        ("table_name"@, CellView::Text(t)),
        ("table_type"@, CellView::Text(if view { "VIEW"@ } else { "BASE TABLE"@ })),
    ]
}

fn table_row(name: &str, view: bool) -> (r: CatalogRow)
    ensures
        r@ == table_row_cells(name@, view),
{
    let mut row = CatalogRow::new();
    row.put_text("table_catalog", "bicdb");
    row.put_text("table_schema", "public");
    row.put_text("table_name", name);
    row.put_text("table_type", if view { "VIEW" } else { "BASE TABLE" });
    assert(row@ =~= table_row_cells(name@, view));
    row
}

/// A listed table: its name, and whether it is a view.
#[derive(Debug)]
pub struct TableEntry {
    pub name: String,
    pub view: bool,
}

#[verifier::ext_equal]
pub struct EntryView {
    pub name: Seq<char>,
    pub view: bool,
}

impl View for TableEntry {
    type V = EntryView;

    open spec fn view(&self) -> EntryView {
        EntryView { name: self.name@, view: self.view }
    }
}

pub open spec fn entry_views(v: Seq<TableEntry>) -> Seq<EntryView> {
    v.map_values(|e: TableEntry| e@)
}

pub open spec fn entries_of(names: Seq<Seq<char>>, view: bool) -> Seq<EntryView> {
    names.map_values(|n: Seq<char>| EntryView { name: n, view })
}

/// Entries in order with one more put in, behind those that do not come after
/// it.
pub open spec fn entry_put_in(list: Seq<EntryView>, e: EntryView) -> Seq<EntryView>
    decreases list.len(),
{
    if list.len() == 0 || !order::precedes(e.name, list.last().name) {
        list.push(e)
    } else {
        entry_put_in(list.drop_last(), e).push(list.last())
    }
}

/// The entries in the order of their names; entries with the same name stay in
/// the order they came in.
pub open spec fn entries_sorted(list: Seq<EntryView>) -> Seq<EntryView>
    decreases list.len(),
{
    if list.len() == 0 {
        Seq::empty()
    } else {
        entry_put_in(entries_sorted(list.drop_last()), list.last())
    }
}

proof fn lemma_entry_put_in(list: Seq<EntryView>, e: EntryView, at: int)
    requires
        0 <= at <= list.len(),
        at == 0 || !order::precedes(e.name, list[at - 1].name),
        forall|k: int| at <= k < list.len() ==> order::precedes(e.name, (#[trigger] list[k]).name),
    ensures
        entry_put_in(list, e) == list.insert(at, e),
    decreases list.len(),
{
    if at == list.len() {
        assert(list.insert(at, e) =~= list.push(e));
        if list.len() > 0 {
            assert(list.last() == list[at - 1]);
        }
    } else {
        let rest = list.drop_last();
        assert(list.last() == list[list.len() - 1]);
        assert forall|k: int| at <= k < rest.len() implies order::precedes(
            e.name,
            (#[trigger] rest[k]).name,
        ) by {
            assert(rest[k] == list[k]);
        }
        lemma_entry_put_in(rest, e, at);
        assert(rest.insert(at, e).push(list.last()) =~= list.insert(at, e));
    }
}

fn put_entry(list: &mut Vec<TableEntry>, e: TableEntry)
    ensures
        entry_views(final(list)@) == entry_put_in(entry_views(old(list)@), e@),
{
    let ghost all = entry_views(list@);
    let mut at: usize = list.len();
    while at > 0 && order::before(e.name.as_str(), list[at - 1].name.as_str())
        invariant
            at <= list.len(),
            all == entry_views(list@),
            all == entry_views(old(list)@),
            forall|k: int|
                at <= k < all.len() ==> order::precedes(e.name@, (#[trigger] all[k]).name),
        decreases at,
    {
        assert(all[at - 1].name == list@[at - 1].name@);
        at = at - 1;
    }
    proof {
        if at > 0 {
            assert(all[at - 1].name == list@[at - 1].name@);
        }
        lemma_entry_put_in(all, e@, at as int);
    }
    let ghost shown = e@;
    list.insert(at, e);
    assert(entry_views(list@) =~= all.insert(at as int, shown));
}

fn put_entries(list: &mut Vec<TableEntry>, names: &Vec<String>, view: bool, given: Ghost<
    Seq<EntryView>,
>)
    requires
        entry_views(old(list)@) == entries_sorted(given@),
    ensures
        entry_views(final(list)@) == entries_sorted(
            given@ + entries_of(text::views(names@), view),
        ),
{
    let ghost all = entries_of(text::views(names@), view);
    let mut i: usize = 0;
    assert(given@ + all.take(0) =~= given@);
    while i < names.len()
        invariant
            i <= names.len(),
            all == entries_of(text::views(names@), view),
            entry_views(list@) == entries_sorted(given@ + all.take(i as int)),
        decreases names.len() - i,
    {
        let e = TableEntry { name: names[i].clone(), view };
        assert(all[i as int] =~= e@);
        assert((given@ + all.take(i as int + 1)).drop_last() =~= given@ + all.take(i as int));
        assert((given@ + all.take(i as int + 1)).last() == all[i as int]);
        put_entry(list, e);
        i = i + 1;
    }
    assert(all.take(all.len() as int) =~= all);
}

pub open spec fn table_rows(entries: Seq<EntryView>) -> Seq<Seq<(Seq<char>, CellView)>> {
    entries.map_values(|e: EntryView| table_row_cells(e.name, e.view))
}

/// The rows of `information_schema.tables`: the collections, the views and the
/// graph tables, in the order of their names.
pub fn information_schema_tables(
    collections: &Vec<String>,
    views: &Vec<String>,
    graphs: &Vec<String>,
) -> (r: Vec<CatalogRow>)
    ensures
        catalog::row_views(r@) == table_rows(
            entries_sorted(
                entries_of(text::views(collections@), false) + entries_of(
                    text::views(views@),
                    true,
                ) + entries_of(text::views(graphs@), true),
            ),
        ),
{
    let ghost a = entries_of(text::views(collections@), false);
    let ghost b = entries_of(text::views(views@), true);
    let ghost c = entries_of(text::views(graphs@), true);
    let mut entries: Vec<TableEntry> = Vec::new();
    assert(entry_views(entries@) =~= entries_sorted(Seq::<EntryView>::empty()));
    put_entries(&mut entries, collections, false, Ghost(Seq::empty()));
    assert(Seq::<EntryView>::empty() + a =~= a);
    put_entries(&mut entries, views, true, Ghost(a));
    put_entries(&mut entries, graphs, true, Ghost(a + b));
    let ghost sorted = entries_sorted(a + b + c);
    let mut rows: Vec<CatalogRow> = Vec::new();
    let mut i: usize = 0;
    assert(catalog::row_views(rows@) =~= table_rows(sorted).take(0));
    while i < entries.len()
        invariant
            i <= entries.len(),
            entry_views(entries@) == sorted,
            catalog::row_views(rows@) == table_rows(sorted).take(i as int),
        decreases entries.len() - i,
    {
        assert(sorted[i as int] == entries@[i as int]@);
        let row = table_row(entries[i].name.as_str(), entries[i].view);
        catalog::push_row(&mut rows, row);
        assert(table_rows(sorted).take(i as int + 1) =~= table_rows(sorted).take(i as int).push(
            table_rows(sorted)[i as int],
        ));
        i = i + 1;
    }
    assert(table_rows(sorted).take(sorted.len() as int) =~= table_rows(sorted));
    rows
}

/// The type under a domain, as a domain is declared over it: how the
/// information schema names it, and the schema and the name of its user type;
/// the precision and the scale of a number, the collation and the default.
#[derive(Debug)]
pub struct DomainInfo {
    pub base_type: String,
    pub built_in_data_type: String,
    pub base_user_type: Option<DeclaredType>,
    pub numeric: Option<(i64, i64)>,
    pub collation: Option<String>,
    pub default_expr: Option<String>,
}

/// A type as the information schema shows it.
#[derive(Debug)]
pub struct DeclaredType {
    pub data_type: String,
    pub udt_schema: String,
    pub udt_name: String,
}

pub open spec fn declared_view(d: DeclaredType) -> (Seq<char>, Seq<char>, Seq<char>) {
    (d.data_type@, d.udt_schema@, d.udt_name@)
}

/// How the information schema shows the type under a domain.
pub open spec fn domain_base(d: DomainInfo) -> (Seq<char>, Seq<char>, Seq<char>) {
    match d.base_user_type {
        Some(user_type) => declared_view(user_type),
        None => (d.built_in_data_type@, "pg_catalog"@, d.base_type@),
    }
}

/// How the information schema shows the type under a domain.
pub fn information_schema_domain_base(d: &DomainInfo) -> (r: (&str, &str, &str))
    ensures
        (r.0@, r.1@, r.2@) == domain_base(*d),
{
    match &d.base_user_type {
        Some(user_type) => (
            user_type.data_type.as_str(),
            user_type.udt_schema.as_str(),
            user_type.udt_name.as_str(),
        ),
        None => (d.built_in_data_type.as_str(), "pg_catalog", d.base_type.as_str()),
    }
}

/// The precision, its radix and the scale of a number.
pub open spec fn numeric_metadata(numeric: Option<(i64, i64)>) -> (
    Option<i64>,
    Option<i64>,
    Option<i64>,
) {
    match numeric {
        Some((precision, scale)) => (Some(precision), Some(10), Some(scale)),
        None => (None, None, None),
    }
}

/// The precision, its radix and the scale of a number.
pub fn information_schema_numeric_metadata(numeric: Option<(i64, i64)>) -> (r: (
    Option<i64>,
    Option<i64>,
    Option<i64>,
))
    ensures
        r == numeric_metadata(numeric),
{
    match numeric {
        Some((precision, scale)) => (Some(precision), Some(10), Some(scale)),
        None => (None, None, None),
    }
}

/// The row of `information_schema.domains` of a domain.
pub open spec fn domain_row_cells(schema: Seq<char>, name: Seq<char>, d: DomainInfo) -> Seq<(Seq<char>, CellView)> {
    seq![
        ("domain_catalog"@, CellView::Text("bicdb"@)),
        ("domain_schema"@, CellView::Text(schema)),
        ("domain_name"@, CellView::Text(name)),
        ("data_type"@, CellView::Text(domain_base(d).0)),
        ("character_maximum_length"@, CellView::Null),
        ("character_octet_length"@, CellView::Null),
        ("character_set_catalog"@, CellView::Null),
        ("character_set_schema"@, CellView::Null),
        ("character_set_name"@, CellView::Null),
        ("collation_catalog"@, catalog::text_or_null(if d.collation is Some { Some("bicdb"@) } else { None })),
        ("collation_schema"@, catalog::text_or_null(if d.collation is Some { Some("pg_catalog"@) } else { None })),
        ("collation_name"@, catalog::text_or_null(error::view_option(d.collation))),
        ("numeric_precision"@, catalog::int_or_null(numeric_metadata(d.numeric).0)),
        ("numeric_precision_radix"@, catalog::int_or_null(numeric_metadata(d.numeric).1)),
        ("numeric_scale"@, catalog::int_or_null(numeric_metadata(d.numeric).2)),
        ("datetime_precision"@, CellView::Null),
        ("interval_type"@, CellView::Null),
        ("interval_precision"@, CellView::Null),
        ("domain_default"@, catalog::text_or_null(error::view_option(d.default_expr))),
        ("udt_catalog"@, CellView::Text("bicdb"@)),
        ("udt_schema"@, CellView::Text(domain_base(d).1)),
        ("udt_name"@, CellView::Text(domain_base(d).2)),
        ("scope_catalog"@, CellView::Null),
        ("scope_schema"@, CellView::Null),
        ("scope_name"@, CellView::Null),
        ("maximum_cardinality"@, CellView::Null),
        ("dtd_identifier"@, CellView::Text("1"@)),
    ]
}

#[verifier::rlimit(40)]
fn domain_row(schema: &str, name: &str, d: &DomainInfo) -> (r: CatalogRow)
    ensures
        r@ == domain_row_cells(schema@, name@, *d),
{
    let (data_type, udt_schema, udt_name) = information_schema_domain_base(d);
    let (precision, radix, scale) = information_schema_numeric_metadata(d.numeric);
    let mut row = CatalogRow::new();
    row.put_text("domain_catalog", "bicdb");
    row.put_text("domain_schema", schema);
    row.put_text("domain_name", name);
    row.put_text("data_type", data_type);
    row.put_null("character_maximum_length");
    row.put_null("character_octet_length");
    row.put_null("character_set_catalog");
    row.put_null("character_set_schema");
    row.put_null("character_set_name");
    row.put_optional("collation_catalog", if d.collation.is_some() { Some("bicdb") } else { None });
    row.put_optional("collation_schema", if d.collation.is_some() { Some("pg_catalog") } else { None });
    row.put_optional("collation_name", catalog::borrowed(&d.collation));
    row.put_optional_int("numeric_precision", precision);
    row.put_optional_int("numeric_precision_radix", radix);
    row.put_optional_int("numeric_scale", scale);
    row.put_null("datetime_precision");
    row.put_null("interval_type");
    row.put_null("interval_precision");
    row.put_optional("domain_default", catalog::borrowed(&d.default_expr));
    row.put_text("udt_catalog", "bicdb");
    row.put_text("udt_schema", udt_schema);
    row.put_text("udt_name", udt_name);
    row.put_null("scope_catalog");
    row.put_null("scope_schema");
    row.put_null("scope_name");
    row.put_null("maximum_cardinality");
    row.put_text("dtd_identifier", "1");
    assert(row@ =~= domain_row_cells(schema@, name@, *d));
    row
}

/// The row of `information_schema.user_defined_types` of a composite type.
pub open spec fn composite_row_cells(schema: Seq<char>, name: Seq<char>) -> Seq<(Seq<char>, CellView)> {
    seq![
        ("user_defined_type_catalog"@, CellView::Text("bicdb"@)),
        ("user_defined_type_schema"@, CellView::Text(schema)),
        ("user_defined_type_name"@, CellView::Text(name)),
        ("user_defined_type_category"@, CellView::Text("STRUCTURED"@)),
        ("is_instantiable"@, CellView::Text("YES"@)),
        ("is_final"@, CellView::Null),
        ("ordering_form"@, CellView::Null),
        ("ordering_category"@, CellView::Null),
        ("ordering_routine_catalog"@, CellView::Null),
        ("ordering_routine_schema"@, CellView::Null),
        ("ordering_routine_name"@, CellView::Null),
        ("reference_type"@, CellView::Null),
        ("data_type"@, CellView::Null),
        ("character_maximum_length"@, CellView::Null),
        ("character_octet_length"@, CellView::Null),
        ("numeric_precision"@, CellView::Null),
        ("numeric_precision_radix"@, CellView::Null),
        ("numeric_scale"@, CellView::Null),
        ("datetime_precision"@, CellView::Null),
        ("interval_type"@, CellView::Null),
        ("interval_precision"@, CellView::Null),
        ("source_dtd_identifier"@, CellView::Null),
        ("ref_dtd_identifier"@, CellView::Null),
    ]
}

fn composite_row(schema: &str, name: &str) -> (r: CatalogRow)
    ensures
        r@ == composite_row_cells(schema@, name@),
{
    let mut row = CatalogRow::new();
    row.put_text("user_defined_type_catalog", "bicdb");
    row.put_text("user_defined_type_schema", schema);
    row.put_text("user_defined_type_name", name);
    row.put_text("user_defined_type_category", "STRUCTURED");
    row.put_text("is_instantiable", "YES");
    row.put_null("is_final");
    row.put_null("ordering_form");
    row.put_null("ordering_category");
    row.put_null("ordering_routine_catalog");
    row.put_null("ordering_routine_schema");
    row.put_null("ordering_routine_name");
    row.put_null("reference_type");
    row.put_null("data_type");
    row.put_null("character_maximum_length");
    row.put_null("character_octet_length");
    row.put_null("numeric_precision");
    row.put_null("numeric_precision_radix");
    row.put_null("numeric_scale");
    row.put_null("datetime_precision");
    row.put_null("interval_type");
    row.put_null("interval_precision");
    row.put_null("source_dtd_identifier");
    row.put_null("ref_dtd_identifier");
    assert(row@ =~= composite_row_cells(schema@, name@));
    row
}

#[derive(Debug)]
pub enum TypeForm {
    Domain(DomainInfo),
    Composite,
    Other,
}

/// A user type.
#[derive(Debug)]
pub struct TypeInfo {
    pub schema_name: String,
    pub name: String,
    pub form: TypeForm,
}

/// The rows of `information_schema.domains`: one for each domain.
pub open spec fn domain_rows(types: Seq<TypeInfo>) -> Seq<Seq<(Seq<char>, CellView)>>
    decreases types.len(),
{
    if types.len() == 0 {
        Seq::empty()
    } else {
        let rows = domain_rows(types.drop_last());
        let t = types.last();
        match t.form {
            TypeForm::Domain(d) => rows.push(domain_row_cells(t.schema_name@, t.name@, d)),
            _ => rows,
        }
    }
}

/// The rows of `information_schema.domains`.
pub fn information_schema_domains(types: &Vec<TypeInfo>) -> (r: Vec<CatalogRow>)
    ensures
        catalog::row_views(r@) == domain_rows(types@),
{
    let mut rows: Vec<CatalogRow> = Vec::new();
    let mut i: usize = 0;
    assert(types@.take(0) =~= Seq::<TypeInfo>::empty());
    assert(catalog::row_views(rows@) =~= domain_rows(types@.take(0)));
    while i < types.len()
        invariant
            i <= types.len(),
            catalog::row_views(rows@) == domain_rows(types@.take(i as int)),
        decreases types.len() - i,
    {
        assert(types@.take(i as int + 1).drop_last() =~= types@.take(i as int));
        assert(types@.take(i as int + 1).last() == types@[i as int]);
        let t = &types[i];
        match &t.form {
            TypeForm::Domain(d) => {
                let row = domain_row(t.schema_name.as_str(), t.name.as_str(), d);
                catalog::push_row(&mut rows, row);
            },
            _ => {},
        }
        i = i + 1;
    }
    assert(types@.take(types@.len() as int) =~= types@);
    rows
}

/// The rows of `information_schema.user_defined_types`: one for each composite
/// type.
pub open spec fn composite_rows(types: Seq<TypeInfo>) -> Seq<Seq<(Seq<char>, CellView)>>
    decreases types.len(),
{
    if types.len() == 0 {
        Seq::empty()
    } else {
        let rows = composite_rows(types.drop_last());
        let t = types.last();
        match t.form {
            TypeForm::Composite => rows.push(composite_row_cells(t.schema_name@, t.name@)),
            _ => rows,
        }
    }
}

/// The rows of `information_schema.user_defined_types`.
pub fn information_schema_user_defined_types(types: &Vec<TypeInfo>) -> (r: Vec<CatalogRow>)
    ensures
        catalog::row_views(r@) == composite_rows(types@),
{
    let mut rows: Vec<CatalogRow> = Vec::new();
    let mut i: usize = 0;
    assert(types@.take(0) =~= Seq::<TypeInfo>::empty());
    assert(catalog::row_views(rows@) =~= composite_rows(types@.take(0)));
    while i < types.len()
        invariant
            i <= types.len(),
            catalog::row_views(rows@) == composite_rows(types@.take(i as int)),
        decreases types.len() - i,
    {
        assert(types@.take(i as int + 1).drop_last() =~= types@.take(i as int));
        assert(types@.take(i as int + 1).last() == types@[i as int]);
        let t = &types[i];
        match &t.form {
            TypeForm::Composite => {
                let row = composite_row(t.schema_name.as_str(), t.name.as_str());
                catalog::push_row(&mut rows, row);
            },
            _ => {},
        }
        i = i + 1;
    }
    assert(types@.take(types@.len() as int) =~= types@);
    rows
}

/// The row of `information_schema.element_types` of an array column.
pub open spec fn element_row_cells(table: TableInfo, element: (Seq<char>, Seq<char>, Seq<char>), ordinal: i64) -> Seq<(Seq<char>, CellView)> {
    seq![
        ("object_catalog"@, CellView::Text("bicdb"@)),
        ("object_schema"@, CellView::Text(table.schema_name@)),
        ("object_name"@, CellView::Text(table.name@)),
        ("object_type"@, CellView::Text("TABLE"@)),
        ("collection_type_identifier"@, CellView::Text(text::signed_decimal(ordinal as int))),
        ("data_type"@, CellView::Text(element.0)),
        ("udt_catalog"@, CellView::Text("bicdb"@)),
        ("udt_schema"@, CellView::Text(element.1)),
        ("udt_name"@, CellView::Text(element.2)),
        ("dtd_identifier"@, CellView::Text("a"@ + text::signed_decimal(ordinal as int))),
    ]
}

fn element_row(table: &TableInfo, element: (&str, &str, &str), ordinal: i64) -> (r: CatalogRow)
    ensures
        r@ == element_row_cells(*table, (element.0@, element.1@, element.2@), ordinal),
{
    let identifier = text::signed_text(ordinal);
    let dtd = text::concat("a", identifier.as_str());
    let mut row = CatalogRow::new();
    row.put_text("object_catalog", "bicdb");
    row.put_text("object_schema", table.schema_name.as_str());
    row.put_text("object_name", table.name.as_str());
    row.put_text("object_type", "TABLE");
    row.put_text("collection_type_identifier", identifier.as_str());
    row.put_text("data_type", element.0);
    row.put_text("udt_catalog", "bicdb");
    row.put_text("udt_schema", element.1);
    row.put_text("udt_name", element.2);
    row.put_text("dtd_identifier", dtd.as_str());
    assert(row@ =~= element_row_cells(*table, (element.0@, element.1@, element.2@), ordinal));
    row
}

/// How the information schema shows the type of the elements of an array
/// column.
pub open spec fn element_type(c: ColumnInfo) -> Option<(Seq<char>, Seq<char>, Seq<char>)> {
    if !c.array {
        None
    } else {
        match c.element_user_type {
            Some((schema, name)) => Some(("USER-DEFINED"@, schema@, name@)),
            None => match c.element_built_in {
                Some((data_type, name)) => Some((data_type@, "pg_catalog"@, name@)),
                None => None,
            },
        }
    }
}

/// The rows of `information_schema.element_types` of the first columns of a
/// table.
pub open spec fn table_element_rows(table: TableInfo, columns: Seq<ColumnInfo>, n: int) -> Seq<
    Seq<(Seq<char>, CellView)>,
>
    decreases n,
{
    if n <= 0 || n > columns.len() {
        Seq::empty()
    } else {
        let before = table_element_rows(table, columns, n - 1);
        match element_type(columns[n - 1]) {
            Some(element) => before.push(element_row_cells(table, element, n as i64)),
            None => before,
        }
    }
}

/// The rows of `information_schema.element_types` of the first tables.
pub open spec fn element_rows(tables: Seq<TableInfo>, n: int) -> Seq<Seq<(Seq<char>, CellView)>>
    decreases n,
{
    if n <= 0 || n > tables.len() {
        Seq::empty()
    } else {
        let columns = visible(tables[n - 1].columns@);
        element_rows(tables, n - 1) + table_element_rows(
            tables[n - 1],
            columns,
            columns.len() as int,
        )
    }
}

fn element_of(c: &ColumnInfo) -> (r: Option<(&str, &str, &str)>)
    ensures
        match (r, element_type(*c)) {
            (Some(e), Some(view)) => (e.0@, e.1@, e.2@) == view,
            (None, None) => true,
            _ => false,
        },
{
    if !c.array {
        return None;
    }
    match &c.element_user_type {
        Some((schema, name)) => Some(("USER-DEFINED", schema.as_str(), name.as_str())),
        None => match &c.element_built_in {
            Some((data_type, name)) => Some((data_type.as_str(), "pg_catalog", name.as_str())),
            None => None,
        },
    }
}

fn add_element_rows(rows: &mut Vec<CatalogRow>, table: &TableInfo)
    requires
        table.columns@.len() <= i64::MAX,
    ensures
        catalog::row_views(final(rows)@) == catalog::row_views(old(rows)@) + table_element_rows(
            *table,
            visible(table.columns@),
            visible(table.columns@).len() as int,
        ),
{
    let ghost start = catalog::row_views(rows@);
    let ghost all = visible(table.columns@);
    proof {
        lemma_visible_len(table.columns@);
    }
    let columns = visible_columns(&table.columns, false);
    assert(columns@.len() == column_refs(columns@).len());
    let mut i: usize = 0;
    assert(catalog::row_views(rows@) =~= start + table_element_rows(*table, all, 0));
    while i < columns.len()
        invariant
            i <= columns.len(),
            columns@.len() <= i64::MAX,
            all == column_refs(columns@),
            catalog::row_views(rows@) == start + table_element_rows(*table, all, i as int),
        decreases columns.len() - i,
    {
        let c = columns[i];
        assert(all[i as int] == *c);
        match element_of(c) {
            Some(element) => {
                let row = element_row(table, element, (i + 1) as i64);
                let ghost shown = row@;
                let ghost before = catalog::row_views(rows@);
                catalog::push_row(rows, row);
                assert(before.push(shown) =~= start + table_element_rows(
                    *table,
                    all,
                    i as int,
                ).push(shown));
            },
            None => {},
        }
        i = i + 1;
    }
}

/// The rows of `information_schema.element_types`.
pub fn information_schema_element_types(tables: &Vec<TableInfo>) -> (r: Vec<CatalogRow>)
    requires
        forall|i: int|
            0 <= i < tables@.len() ==> (#[trigger] tables@[i]).columns@.len() <= i64::MAX,
    ensures
        catalog::row_views(r@) == element_rows(tables@, tables@.len() as int),
{
    let mut rows: Vec<CatalogRow> = Vec::new();
    let mut i: usize = 0;
    assert(catalog::row_views(rows@) =~= element_rows(tables@, 0));
    while i < tables.len()
        invariant
            i <= tables.len(),
            forall|i: int|
                0 <= i < tables@.len() ==> (#[trigger] tables@[i]).columns@.len() <= i64::MAX,
            catalog::row_views(rows@) == element_rows(tables@, i as int),
        decreases tables.len() - i,
    {
        add_element_rows(&mut rows, &tables[i]);
        i = i + 1;
    }
    rows
}

/// A type name without spaces and quotes round it, and what it names: the
/// schema and the name of the type, and whether it is an array of it.
pub open spec fn type_reference(pg_type: Seq<char>) -> (Seq<char>, Seq<char>, bool) {
    let normalized = text::strip(text::trim(pg_type), '"');
    let array = text::ends_with(normalized, "[]"@);
    let base = if array {
        normalized.take(normalized.len() - "[]"@.len())
    } else {
        normalized
    };
    let parts = text::pieces(base, '.');
    if parts.len() == 1 {
        ("public"@, parts[0], array)
    } else if parts.len() == 2 {
        (parts[0], parts[1], array)
    } else {
        ("public"@, base, array)
    }
}

/// What a type name names: the schema and the name of the type, and whether it
/// is an array of it.
pub fn declared_type_reference(pg_type: &str) -> (r: (String, String, bool))
    ensures
        (r.0@, r.1@, r.2) == type_reference(pg_type@),
{
    let trimmed = text::trimmed(pg_type);
    let normalized = text::stripped(trimmed.as_str(), '"');
    let array = text::has_suffix(normalized.as_str(), "[]");
    let base = if array {
        proof {
            reveal_strlit("[]");
        }
        let chars = text::chars_of(normalized.as_str());
        let cut = text::string_range(chars.as_slice(), 0, chars.len() - 2);
        assert(cut@ =~= normalized@.take(normalized@.len() - "[]"@.len()));
        cut
    } else {
        normalized
    };
    let mut parts = text::split_on(base.as_str(), '.');
    let ghost all = text::views(parts@);
    if parts.len() == 1 {
        assert(all[0] == parts@[0]@);
        let name = parts.remove(0);
        ("public".to_owned(), name, array)
    } else if parts.len() == 2 {
        assert(all[0] == parts@[0]@ && all[1] == parts@[1]@);
        let schema = parts.remove(0);
        let name = parts.remove(0);
        (schema, name, array)
    } else {
        ("public".to_owned(), base, array)
    }
}

/// What the catalog knows of a declared type: the user type that it names with
/// its schema, the canonical name of a built-in type, the name of the built-in
/// type of its elements where it is an array, and how the information schema
/// names it.
#[derive(Debug)]
pub struct TypeLookup {
    pub user_type: Option<(String, String)>,
    pub canonical: String,
    pub element: Option<String>,
    pub built_in_data_type: String,
}

/// How the information schema shows a declared type.
pub open spec fn declared_type(array: bool, t: TypeLookup) -> (Seq<char>, Seq<char>, Seq<char>) {
    match t.user_type {
        Some((schema, name)) => if array {
            ("ARRAY"@, schema@, "_"@ + name@)
        } else {
            ("USER-DEFINED"@, schema@, name@)
        },
        None => match t.element {
            Some(element) => ("ARRAY"@, "pg_catalog"@, "_"@ + element@),
            None => (t.built_in_data_type@, "pg_catalog"@, t.canonical@),
        },
    }
}

/// How the information schema shows a declared type.
pub fn information_schema_declared_type(array: bool, t: &TypeLookup) -> (r: DeclaredType)
    ensures
        declared_view(r) == declared_type(array, *t),
{
    match &t.user_type {
        Some((schema, name)) => if array {
            DeclaredType {
                data_type: "ARRAY".to_owned(),
                udt_schema: schema.clone(),
                udt_name: text::concat("_", name.as_str()),
            }
        } else {
            DeclaredType {
                data_type: "USER-DEFINED".to_owned(),
                udt_schema: schema.clone(),
                udt_name: name.clone(),
            }
        },
        None => match &t.element {
            Some(element) => DeclaredType {
                data_type: "ARRAY".to_owned(),
                udt_schema: "pg_catalog".to_owned(),
                udt_name: text::concat("_", element.as_str()),
            },
            None => DeclaredType {
                data_type: t.built_in_data_type.clone(),
                udt_schema: "pg_catalog".to_owned(),
                udt_name: t.canonical.clone(),
            },
        },
    }
}

/// A parameter of a routine.
#[derive(Debug)]
pub struct ParameterInfo {
    pub name: Option<String>,
    pub mode: ArgumentMode,
    pub declared: DeclaredType,
}

/// A routine: its name, the hash of its arguments in decimal, whether it is a
/// procedure, what it returns, and its parameters.
#[derive(Debug)]
pub struct RoutineInfo {
    pub name: String,
    pub arguments_hash: String,
    pub procedure: bool,
    pub returns: DeclaredType,
    pub definition: String,
    pub language: String,
    pub security_definer: bool,
    pub parameters: Vec<ParameterInfo>,
}

/// The position of the last dot before there.
pub open spec fn last_dot(s: Seq<char>, n: int) -> Option<int>
    decreases n,
{
    if n <= 0 || n > s.len() {
        None
    } else if s[n - 1] == '.' {
        Some(n - 1)
    } else {
        last_dot(s, n - 1)
    }
}

/// The schema and the name of a routine, and the name that tells it from those
/// with other arguments.
pub open spec fn routine_identity(f: RoutineInfo) -> (Seq<char>, Seq<char>, Seq<char>) {
    let (schema, name) = match last_dot(f.name@, f.name@.len() as int) {
        Some(at) => (f.name@.take(at), f.name@.skip(at + 1)),
        None => ("public"@, f.name@),
    };
    (schema, name, name + "_"@ + f.arguments_hash@)
}

/// The schema and the name of a routine, and the name that tells it from those
/// with other arguments.
pub fn information_schema_routine_identity(f: &RoutineInfo) -> (r: (String, String, String))
    ensures
        (r.0@, r.1@, r.2@) == routine_identity(*f),
{
    let chars = text::chars_of(f.name.as_str());
    let mut n: usize = chars.len();
    while n > 0 && chars[n - 1] != '.'
        invariant
            n <= chars.len(),
            chars@ == f.name@,
            last_dot(f.name@, f.name@.len() as int) == last_dot(f.name@, n as int),
        decreases n,
    {
        n = n - 1;
    }
    if n > 0 {
        let schema = text::string_range(chars.as_slice(), 0, n - 1);
        let name = text::string_range(chars.as_slice(), n, chars.len());
        assert(schema@ =~= f.name@.take(n - 1));
        assert(name@ =~= f.name@.skip(n as int));
        let specific = text::concat3(name.as_str(), "_", f.arguments_hash.as_str());
        (schema, name, specific)
    } else {
        let specific = text::concat3(f.name.as_str(), "_", f.arguments_hash.as_str());
        ("public".to_owned(), f.name.clone(), specific)
    }
}

/// A text that a procedure does not have.
pub open spec fn unless_procedure(f: RoutineInfo, t: Seq<char>) -> Option<Seq<char>> {
    if f.procedure {
        None
    } else {
        Some(t)
    }
}

pub open spec fn mode_text(mode: ArgumentMode) -> Seq<char> {
    match mode {
        ArgumentMode::Input => "IN"@,
        ArgumentMode::Output => "OUT"@,
        ArgumentMode::Both => "INOUT"@,
    }
}

fn mode_name(mode: ArgumentMode) -> (r: &'static str)
    ensures
        r@ == mode_text(mode),
{
    match mode {
        ArgumentMode::Input => "IN",
        ArgumentMode::Output => "OUT",
        ArgumentMode::Both => "INOUT",
    }
}

/// The row of `information_schema.routines` of a routine.
pub open spec fn routine_row_cells(f: RoutineInfo) -> Seq<(Seq<char>, CellView)> {
    seq![
        ("specific_catalog"@, CellView::Text("bicdb"@)),
        ("specific_schema"@, CellView::Text(routine_identity(f).0)),
        ("specific_name"@, CellView::Text(routine_identity(f).2)),
        ("routine_catalog"@, CellView::Text("bicdb"@)),
        ("routine_schema"@, CellView::Text(routine_identity(f).0)),
        ("routine_name"@, CellView::Text(routine_identity(f).1)),
        ("routine_type"@, CellView::Text(if f.procedure { "PROCEDURE"@ } else { "FUNCTION"@ })),
        ("data_type"@, catalog::text_or_null(unless_procedure(f, f.returns.data_type@))),
        ("type_udt_catalog"@, catalog::text_or_null(unless_procedure(f, "bicdb"@))),
        ("type_udt_schema"@, catalog::text_or_null(unless_procedure(f, f.returns.udt_schema@))),
        ("type_udt_name"@, catalog::text_or_null(unless_procedure(f, f.returns.udt_name@))),
        ("routine_body"@, CellView::Text("EXTERNAL"@)),
        ("routine_definition"@, CellView::Text(f.definition@)),
        ("external_language"@, CellView::Text(text::upper(f.language@))),
        ("parameter_style"@, CellView::Text("GENERAL"@)),
        ("is_deterministic"@, CellView::Text("NO"@)),
        ("sql_data_access"@, CellView::Text("MODIFIES"@)),
        ("security_type"@, CellView::Text(if f.security_definer { "DEFINER"@ } else { "INVOKER"@ })),
        ("is_null_call"@, CellView::Null),
        ("sql_path"@, CellView::Null),
        ("schema_level_routine"@, CellView::Text("YES"@)),
        ("max_dynamic_result_sets"@, CellView::Int(0)),
        ("is_user_defined_cast"@, CellView::Text("NO"@)),
        ("is_implicitly_invocable"@, CellView::Text("NO"@)),
        ("dtd_identifier"@, catalog::text_or_null(unless_procedure(f, "0"@))),
    ]
}

#[verifier::rlimit(40)]
fn routine_row(f: &RoutineInfo) -> (r: CatalogRow)
    ensures
        r@ == routine_row_cells(*f),
{
    let (schema, name, specific) = information_schema_routine_identity(f);
    let language = text::to_upper(f.language.as_str());
    let declared = if f.procedure {
        None
    } else {
        Some(&f.returns)
    };
    let (data_type, udt_schema, udt_name) = match declared {
        Some(d) => (
            Some(d.data_type.as_str()),
            Some(d.udt_schema.as_str()),
            Some(d.udt_name.as_str()),
        ),
        None => (None, None, None),
    };
    let mut row = CatalogRow::new();
    row.put_text("specific_catalog", "bicdb");
    row.put_text("specific_schema", schema.as_str());
    row.put_text("specific_name", specific.as_str());
    row.put_text("routine_catalog", "bicdb");
    row.put_text("routine_schema", schema.as_str());
    row.put_text("routine_name", name.as_str());
    row.put_text("routine_type", if f.procedure { "PROCEDURE" } else { "FUNCTION" });
    row.put_optional("data_type", data_type);
    row.put_optional("type_udt_catalog", if f.procedure { None } else { Some("bicdb") });
    row.put_optional("type_udt_schema", udt_schema);
    row.put_optional("type_udt_name", udt_name);
    row.put_text("routine_body", "EXTERNAL");
    row.put_text("routine_definition", f.definition.as_str());
    row.put_text("external_language", language.as_str());
    row.put_text("parameter_style", "GENERAL");
    row.put_text("is_deterministic", "NO");
    row.put_text("sql_data_access", "MODIFIES");
    row.put_text("security_type", if f.security_definer { "DEFINER" } else { "INVOKER" });
    row.put_null("is_null_call");
    row.put_null("sql_path");
    row.put_text("schema_level_routine", "YES");
    row.put_int("max_dynamic_result_sets", 0);
    row.put_text("is_user_defined_cast", "NO");
    row.put_text("is_implicitly_invocable", "NO");
    row.put_optional("dtd_identifier", if f.procedure { None } else { Some("0") });
    assert(row@ =~= routine_row_cells(*f));
    row
}

/// The row of `information_schema.parameters` of a parameter of a routine.
pub open spec fn parameter_row_cells(f: RoutineInfo, p: ParameterInfo, ordinal: i64) -> Seq<(Seq<char>, CellView)> {
    seq![
        ("specific_catalog"@, CellView::Text("bicdb"@)),
        ("specific_schema"@, CellView::Text(routine_identity(f).0)),
        ("specific_name"@, CellView::Text(routine_identity(f).2)),
        ("ordinal_position"@, CellView::Int(ordinal)),
        ("parameter_mode"@, CellView::Text(mode_text(p.mode))),
        ("is_result"@, CellView::Text("NO"@)),
        ("as_locator"@, CellView::Text("NO"@)),
        ("parameter_name"@, catalog::text_or_null(error::view_option(p.name))),
        ("data_type"@, CellView::Text(p.declared.data_type@)),
        ("udt_catalog"@, CellView::Text("bicdb"@)),
        ("udt_schema"@, CellView::Text(p.declared.udt_schema@)),
        ("udt_name"@, CellView::Text(p.declared.udt_name@)),
        ("parameter_default"@, CellView::Null),
        ("dtd_identifier"@, CellView::Text(text::signed_decimal(ordinal as int))),
    ]
}

fn parameter_row(f: &RoutineInfo, p: &ParameterInfo, ordinal: i64) -> (r: CatalogRow)
    ensures
        r@ == parameter_row_cells(*f, *p, ordinal),
{
    let (schema, _, specific) = information_schema_routine_identity(f);
    let identifier = text::signed_text(ordinal);
    let mut row = CatalogRow::new();
    row.put_text("specific_catalog", "bicdb");
    row.put_text("specific_schema", schema.as_str());
    row.put_text("specific_name", specific.as_str());
    row.put_int("ordinal_position", ordinal);
    row.put_text("parameter_mode", mode_name(p.mode));
    row.put_text("is_result", "NO");
    row.put_text("as_locator", "NO");
    row.put_optional("parameter_name", catalog::borrowed(&p.name));
    row.put_text("data_type", p.declared.data_type.as_str());
    row.put_text("udt_catalog", "bicdb");
    row.put_text("udt_schema", p.declared.udt_schema.as_str());
    row.put_text("udt_name", p.declared.udt_name.as_str());
    row.put_null("parameter_default");
    row.put_text("dtd_identifier", identifier.as_str());
    assert(row@ =~= parameter_row_cells(*f, *p, ordinal));
    row
}

/// The rows of `information_schema.routines`.
pub open spec fn routine_rows(routines: Seq<RoutineInfo>) -> Seq<Seq<(Seq<char>, CellView)>> {
    routines.map_values(|f: RoutineInfo| routine_row_cells(f))
}

/// The rows of `information_schema.routines`.
pub fn information_schema_routines(routines: &Vec<RoutineInfo>) -> (r: Vec<CatalogRow>)
    ensures
        catalog::row_views(r@) == routine_rows(routines@),
{
    let ghost all = routine_rows(routines@);
    let mut rows: Vec<CatalogRow> = Vec::new();
    let mut i: usize = 0;
    assert(catalog::row_views(rows@) =~= all.take(0));
    while i < routines.len()
        invariant
            i <= routines.len(),
            all == routine_rows(routines@),
            catalog::row_views(rows@) == all.take(i as int),
        decreases routines.len() - i,
    {
        let row = routine_row(&routines[i]);
        assert(row@ == all[i as int]);
        catalog::push_row(&mut rows, row);
        assert(all.take(i as int + 1) =~= all.take(i as int).push(all[i as int]));
        i = i + 1;
    }
    assert(all.take(all.len() as int) =~= all);
    rows
}

/// The rows of `information_schema.parameters` of the first parameters of a
/// routine.
pub open spec fn routine_parameter_rows(f: RoutineInfo, n: int) -> Seq<Seq<(Seq<char>, CellView)>>
    decreases n,
{
    if n <= 0 || n > f.parameters@.len() {
        Seq::empty()
    } else {
        routine_parameter_rows(f, n - 1).push(
            parameter_row_cells(f, f.parameters@[n - 1], n as i64),
        )
    }
}

/// The rows of `information_schema.parameters` of the first routines.
pub open spec fn parameter_rows(routines: Seq<RoutineInfo>, n: int) -> Seq<
    Seq<(Seq<char>, CellView)>,
>
    decreases n,
{
    if n <= 0 || n > routines.len() {
        Seq::empty()
    } else {
        let f = routines[n - 1];
        parameter_rows(routines, n - 1) + routine_parameter_rows(f, f.parameters@.len() as int)
    }
}

fn add_parameter_rows(rows: &mut Vec<CatalogRow>, f: &RoutineInfo)
    requires
        f.parameters@.len() <= i64::MAX,
    ensures
        catalog::row_views(final(rows)@) == catalog::row_views(old(rows)@)
            + routine_parameter_rows(*f, f.parameters@.len() as int),
{
    let ghost start = catalog::row_views(rows@);
    let mut i: usize = 0;
    assert(catalog::row_views(rows@) =~= start + routine_parameter_rows(*f, 0));
    while i < f.parameters.len()
        invariant
            i <= f.parameters.len(),
            f.parameters@.len() <= i64::MAX,
            catalog::row_views(rows@) == start + routine_parameter_rows(*f, i as int),
        decreases f.parameters.len() - i,
    {
        let row = parameter_row(f, &f.parameters[i], (i + 1) as i64);
        let ghost shown = row@;
        let ghost before = catalog::row_views(rows@);
        catalog::push_row(rows, row);
        assert(before.push(shown) =~= start + routine_parameter_rows(*f, i as int).push(shown));
        i = i + 1;
    }
}

/// The rows of `information_schema.parameters`.
pub fn information_schema_parameters(routines: &Vec<RoutineInfo>) -> (r: Vec<CatalogRow>)
    requires
        forall|i: int|
            0 <= i < routines@.len() ==> (#[trigger] routines@[i]).parameters@.len() <= i64::MAX,
    ensures
        catalog::row_views(r@) == parameter_rows(routines@, routines@.len() as int),
{
    let mut rows: Vec<CatalogRow> = Vec::new();
    let mut i: usize = 0;
    assert(catalog::row_views(rows@) =~= parameter_rows(routines@, 0));
    while i < routines.len()
        invariant
            i <= routines.len(),
            forall|i: int|
                0 <= i < routines@.len() ==> (#[trigger] routines@[i]).parameters@.len()
                    <= i64::MAX,
            catalog::row_views(rows@) == parameter_rows(routines@, i as int),
        decreases routines.len() - i,
    {
        add_parameter_rows(&mut rows, &routines[i]);
        i = i + 1;
    }
    rows
}

} // verus!
