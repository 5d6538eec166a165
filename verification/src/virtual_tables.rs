//! The virtual tables: which names denote one, and where its rows come from.
use vstd::prelude::*;
use crate::catalog;
use crate::catalog::{CatalogRow, CellView};
use crate::catalog_columns;
use crate::error;
use crate::error::{ErrorView, SqlError};
use crate::filters;
use crate::filters::{FilterExpr, FilterKind};
use crate::oid_filters;
use crate::order;
use crate::text;

verus! {

/// The names of the two tables that show a graph.
#[derive(Debug)]
pub struct GraphTables {
    pub nodes: String,
    pub edges: String,
}

/// The tables of the information schema.
pub open spec fn information_schema_names() -> Seq<Seq<char>> {
    seq![
        "information_schema.tables"@,
        "information_schema.columns"@,
        "information_schema.domains"@,
        "information_schema.element_types"@,
        "information_schema.user_defined_types"@,
        "information_schema.routines"@,
        "information_schema.parameters"@,
        "information_schema.table_constraints"@,
        "information_schema.key_column_usage"@,
        "information_schema.constraint_column_usage"@,
        "information_schema.check_constraints"@,
        "information_schema.sequences"@,
        "information_schema.schemata"@,
        "information_schema.role_table_grants"@,
        "information_schema.table_privileges"@,
    ]
}

/// The tables of the system catalog, with or without its schema in front.
pub open spec fn system_catalog_names() -> Seq<Seq<char>> {
    seq![
        "pg_database"@,
        "pg_default_acl"@,
        "pg_extension"@,
        "pg_namespace"@,
        "pg_class"@,
        "pg_attribute"@,
        "pg_type"@,
        "pg_foreign_data_wrapper"@,
        "pg_foreign_server"@,
        "pg_foreign_table"@,
        "pg_proc"@,
        "pg_language"@,
        "pg_trigger"@,
        "pg_sequence"@,
        "pg_sequences"@,
        "pg_tables"@,
        "pg_index"@,
        "pg_indexes"@,
        "pg_constraint"@,
        "pg_conversion"@,
        "pg_description"@,
        "pg_seclabel"@,
        "pg_shseclabel"@,
        "pg_seclabels"@,
        "pg_attrdef"@,
        "pg_rewrite"@,
        "pg_init_privs"@,
        "pg_cast"@,
        "pg_transform"@,
        "pg_depend"@,
        "pg_db_role_setting"@,
        "pg_inherits"@,
        "pg_largeobject_metadata"@,
        "pg_partitioned_table"@,
        "pg_statistic_ext"@,
        "pg_statistic_ext_data"@,
        "pg_enum"@,
        "pg_event_trigger"@,
        "pg_range"@,
        "pg_collation"@,
        "pg_am"@,
        "pg_amop"@,
        "pg_amproc"@,
        "pg_operator"@,
        "pg_opclass"@,
        "pg_opfamily"@,
        "pg_ts_config"@,
        "pg_ts_config_map"@,
        "pg_ts_dict"@,
        "pg_ts_parser"@,
        "pg_ts_template"@,
        "pg_tablespace"@,
        "pg_auth_members"@,
        "pg_roles"@,
        "pg_user"@,
        "pg_user_mappings"@,
        "pg_policy"@,
        "pg_policies"@,
        "pg_subscription"@,
        "pg_subscription_rel"@,
        "pg_publication"@,
        "pg_publication_rel"@,
        "pg_publication_namespace"@,
        "pg_timezone_names"@,
        "pg_settings"@,
        "pg_stat_database"@,
        "pg_stat_all_tables"@,
        "pg_stat_user_tables"@,
        "pg_stats"@,
        "pg_control_system"@,
        "pg_locks"@,
        "bicdb_notifications"@,
    ]
}

/// The tables that show replication.
pub open spec fn replication_names() -> Seq<Seq<char>> {
    seq![
        "bicdb_replication_status"@,
        "bicdb_replication_lag"@,
        "bicdb_replication_nodes"@,
        "bicdb_replication_errors"@,
        "bicdb_consensus_status"@,
    ]
}

/// The name denotes a virtual table. Projections have a schema of their own, so
/// that none hides a table.
pub open spec fn is_virtual(table: Seq<char>, nodes: Seq<char>, edges: Seq<char>) -> bool {
    ||| text::starts_with(table, "bicdb_projection."@)
    ||| table == "bicdb_projections"@
    ||| information_schema_names().contains(table)
    ||| system_catalog_names().contains(catalog_columns::without_catalog(table))
    ||| replication_names().contains(table)
    ||| table == nodes
    ||| table == edges
}

/// Whether a name denotes a virtual table.
pub fn is_virtual_table(table: &str, graph: &GraphTables) -> (r: bool)
    ensures
        r == is_virtual(table@, graph.nodes@, graph.edges@),
{
    if text::has_prefix(table, "bicdb_projection.") || text::text_eq(table, "bicdb_projections") {
        return true;
    }
    let information = [
        "information_schema.tables",
        "information_schema.columns",
        "information_schema.domains",
        "information_schema.element_types",
        "information_schema.user_defined_types",
        "information_schema.routines",
        "information_schema.parameters",
        "information_schema.table_constraints",
        "information_schema.key_column_usage",
        "information_schema.constraint_column_usage",
        "information_schema.check_constraints",
        "information_schema.sequences",
        "information_schema.schemata",
        "information_schema.role_table_grants",
        "information_schema.table_privileges",
    ];
    assert(text::slice_views(information@) =~= information_schema_names());
    let system = [
        "pg_database",
        "pg_default_acl",
        "pg_extension",
        "pg_namespace",
        "pg_class",
        "pg_attribute",
        "pg_type",
        "pg_foreign_data_wrapper",
        "pg_foreign_server",
        "pg_foreign_table",
        "pg_proc",
        "pg_language",
        "pg_trigger",
        "pg_sequence",
        "pg_sequences",
        "pg_tables",
        "pg_index",
        "pg_indexes",
        "pg_constraint",
        "pg_conversion",
        "pg_description",
        "pg_seclabel",
        "pg_shseclabel",
        "pg_seclabels",
        "pg_attrdef",
        "pg_rewrite",
        "pg_init_privs",
        "pg_cast",
        "pg_transform",
        "pg_depend",
        "pg_db_role_setting",
        "pg_inherits",
        "pg_largeobject_metadata",
        "pg_partitioned_table",
        "pg_statistic_ext",
        "pg_statistic_ext_data",
        "pg_enum",
        "pg_event_trigger",
        "pg_range",
        "pg_collation",
        "pg_am",
        "pg_amop",
        "pg_amproc",
        "pg_operator",
        "pg_opclass",
        "pg_opfamily",
        "pg_ts_config",
        "pg_ts_config_map",
        "pg_ts_dict",
        "pg_ts_parser",
        "pg_ts_template",
        "pg_tablespace",
        "pg_auth_members",
        "pg_roles",
        "pg_user",
        "pg_user_mappings",
        "pg_policy",
        "pg_policies",
        "pg_subscription",
        "pg_subscription_rel",
        "pg_publication",
        "pg_publication_rel",
        "pg_publication_namespace",
        "pg_timezone_names",
        "pg_settings",
        "pg_stat_database",
        "pg_stat_all_tables",
        "pg_stat_user_tables",
        "pg_stats",
        "pg_control_system",
        "pg_locks",
        "bicdb_notifications",
    ];
    assert(text::slice_views(system@) =~= system_catalog_names());
    let replication = [
        "bicdb_replication_status",
        "bicdb_replication_lag",
        "bicdb_replication_nodes",
        "bicdb_replication_errors",
        "bicdb_consensus_status",
    ];
    assert(text::slice_views(replication@) =~= replication_names());
    let name = catalog_columns::strip_catalog(table);
    text::one_of(table, &information) || text::one_of(name.as_str(), &system) || text::one_of(
        table,
        &replication,
    ) || text::text_eq(table, graph.nodes.as_str()) || text::text_eq(table, graph.edges.as_str())
}

/// A table with a fixed list of columns is virtual. The schema of the system
/// catalog in front of a name does not count towards its columns.
pub proof fn law_listed_columns_are_virtual(table: Seq<char>, nodes: Seq<char>, edges: Seq<char>)
    requires
        !text::starts_with(table, "pg_catalog."@),
        catalog_columns::columns_of(table) is Some,
    ensures
        is_virtual(table, nodes, edges),
{
    assert(catalog_columns::without_catalog(table) == table);
    assert(information_schema_names()[1] == "information_schema.columns"@);
    assert(information_schema_names()[2] == "information_schema.domains"@);
    assert(information_schema_names()[3] == "information_schema.element_types"@);
    assert(information_schema_names()[4] == "information_schema.user_defined_types"@);
    assert(information_schema_names()[5] == "information_schema.routines"@);
    assert(information_schema_names()[6] == "information_schema.parameters"@);
    assert(replication_names()[0] == "bicdb_replication_status"@);
    assert(replication_names()[1] == "bicdb_replication_lag"@);
    assert(replication_names()[2] == "bicdb_replication_nodes"@);
    assert(replication_names()[3] == "bicdb_replication_errors"@);
    assert(replication_names()[4] == "bicdb_consensus_status"@);
    assert(system_catalog_names()[26] == "pg_init_privs"@);
    assert(system_catalog_names()[20] == "pg_description"@);
    assert(system_catalog_names()[27] == "pg_cast"@);
    assert(system_catalog_names()[28] == "pg_transform"@);
    assert(system_catalog_names()[25] == "pg_rewrite"@);
    assert(system_catalog_names()[11] == "pg_language"@);
    assert(system_catalog_names()[29] == "pg_depend"@);
    assert(system_catalog_names()[21] == "pg_seclabel"@);
    assert(system_catalog_names()[23] == "pg_seclabels"@);
    assert(system_catalog_names()[22] == "pg_shseclabel"@);
    assert(system_catalog_names()[43] == "pg_operator"@);
    assert(system_catalog_names()[44] == "pg_opclass"@);
    assert(system_catalog_names()[45] == "pg_opfamily"@);
    assert(system_catalog_names()[41] == "pg_amop"@);
    assert(system_catalog_names()[42] == "pg_amproc"@);
    assert(system_catalog_names()[49] == "pg_ts_parser"@);
    assert(system_catalog_names()[48] == "pg_ts_dict"@);
    assert(system_catalog_names()[50] == "pg_ts_template"@);
    assert(system_catalog_names()[46] == "pg_ts_config"@);
    assert(system_catalog_names()[47] == "pg_ts_config_map"@);
    assert(system_catalog_names()[7] == "pg_foreign_data_wrapper"@);
    assert(system_catalog_names()[8] == "pg_foreign_server"@);
    assert(system_catalog_names()[9] == "pg_foreign_table"@);
    assert(system_catalog_names()[55] == "pg_user_mappings"@);
    assert(system_catalog_names()[52] == "pg_auth_members"@);
    assert(system_catalog_names()[58] == "pg_subscription"@);
    assert(system_catalog_names()[59] == "pg_subscription_rel"@);
    assert(system_catalog_names()[60] == "pg_publication"@);
    assert(system_catalog_names()[61] == "pg_publication_rel"@);
    assert(system_catalog_names()[62] == "pg_publication_namespace"@);
    assert(system_catalog_names()[1] == "pg_default_acl"@);
    assert(system_catalog_names()[32] == "pg_largeobject_metadata"@);
    assert(system_catalog_names()[30] == "pg_db_role_setting"@);
    assert(system_catalog_names()[19] == "pg_conversion"@);
    assert(system_catalog_names()[37] == "pg_event_trigger"@);
    assert(system_catalog_names()[34] == "pg_statistic_ext"@);
    assert(system_catalog_names()[35] == "pg_statistic_ext_data"@);
    assert(system_catalog_names()[68] == "pg_stats"@);
    assert(system_catalog_names()[15] == "pg_tables"@);
    assert(system_catalog_names()[31] == "pg_inherits"@);
    assert(system_catalog_names()[33] == "pg_partitioned_table"@);
    assert(system_catalog_names()[70] == "pg_locks"@);
    assert(system_catalog_names()[69] == "pg_control_system"@);
    assert(system_catalog_names()[63] == "pg_timezone_names"@);
    assert(system_catalog_names()[64] == "pg_settings"@);
    assert(system_catalog_names()[66] == "pg_stat_all_tables"@);
    assert(system_catalog_names()[67] == "pg_stat_user_tables"@);
    assert(system_catalog_names()[65] == "pg_stat_database"@);
}

proof fn lemma_first_letters(name: Seq<char>)
    requires
        information_schema_names().contains(name) || replication_names().contains(name)
            || text::starts_with(name, "bicdb_projection."@) || name == "bicdb_projections"@,
    ensures
        name.len() > 0,
        name[0] != 'p',
{
    reveal_strlit("information_schema.tables");
    reveal_strlit("information_schema.columns");
    reveal_strlit("information_schema.domains");
    reveal_strlit("information_schema.element_types");
    reveal_strlit("information_schema.user_defined_types");
    reveal_strlit("information_schema.routines");
    reveal_strlit("information_schema.parameters");
    reveal_strlit("information_schema.table_constraints");
    reveal_strlit("information_schema.key_column_usage");
    reveal_strlit("information_schema.constraint_column_usage");
    reveal_strlit("information_schema.check_constraints");
    reveal_strlit("information_schema.sequences");
    reveal_strlit("information_schema.schemata");
    reveal_strlit("information_schema.role_table_grants");
    reveal_strlit("information_schema.table_privileges");
    reveal_strlit("bicdb_replication_status");
    reveal_strlit("bicdb_replication_lag");
    reveal_strlit("bicdb_replication_nodes");
    reveal_strlit("bicdb_replication_errors");
    reveal_strlit("bicdb_consensus_status");
    reveal_strlit("bicdb_projection.");
    reveal_strlit("bicdb_projections");
    if text::starts_with(name, "bicdb_projection."@) {
        assert(name[0] == "bicdb_projection."@[0]) by {
            assert(name.take("bicdb_projection."@.len() as int)[0] == name[0]);
        }
    }
}

/// The table has the name of a graph table.
pub open spec fn is_graph_name(table: Seq<char>, nodes: Seq<char>, edges: Seq<char>) -> bool {
    table == nodes || table == edges
}

/// A name with the prefix of the system catalogs denotes a virtual table exactly where it
/// does with their schema before it, unless a graph table has just one of the two names
/// and the name is that of no system catalog.
pub proof fn law_catalog_names(name: Seq<char>, nodes: Seq<char>, edges: Seq<char>)
    requires
        text::starts_with(name, "pg_"@),
        !text::starts_with(name, "pg_catalog."@),
        is_graph_name(name, nodes, edges) == is_graph_name("pg_catalog."@ + name, nodes, edges)
            || system_catalog_names().contains(name),
    ensures
        is_virtual("pg_catalog."@ + name, nodes, edges) == is_virtual(name, nodes, edges),
{
    let long = "pg_catalog."@ + name;
    reveal_strlit("pg_catalog.");
    reveal_strlit("pg_");
    assert(long.take("pg_catalog."@.len() as int) =~= "pg_catalog."@);
    assert(long.skip("pg_catalog."@.len() as int) =~= name);
    assert(name[0] == 'p') by {
        assert(name.take("pg_"@.len() as int)[0] == name[0]);
    }
    assert(long[0] == 'p');
    if information_schema_names().contains(name) || replication_names().contains(name)
        || text::starts_with(name, "bicdb_projection."@) || name == "bicdb_projections"@ {
        lemma_first_letters(name);
    }
    if information_schema_names().contains(long) || replication_names().contains(long)
        || text::starts_with(long, "bicdb_projection."@) || long == "bicdb_projections"@ {
        lemma_first_letters(long);
    }
}

/// Every projection is virtual, and so is every table with a fixed list of columns.
pub proof fn law_virtual_names(
    projection: Seq<char>,
    table: Seq<char>,
    nodes: Seq<char>,
    edges: Seq<char>,
)
    requires
        !text::starts_with(table, "pg_catalog."@),
    ensures
        is_virtual("bicdb_projection."@ + projection, nodes, edges),
        catalog_columns::columns_of(table) is Some ==> is_virtual(table, nodes, edges),
{
    let shown = "bicdb_projection."@ + projection;
    assert(shown.take("bicdb_projection."@.len() as int) =~= "bicdb_projection."@);
    if catalog_columns::columns_of(table) is Some {
        law_listed_columns_are_virtual(table, nodes, edges);
    }
}

/// Where the rows of a virtual table come from.
#[derive(Debug)]
pub enum VirtualSource {
    /// The rows themselves.
    Rows(Vec<CatalogRow>),
    /// The schemas of the database.
    Namespaces,
    /// The comments on types.
    Comments,
    /// The rows that the engine lists for that table.
    Listed(String),
}

#[verifier::ext_equal]
pub enum SourceView {
    Rows(Seq<Seq<(Seq<char>, CellView)>>),
    Namespaces,
    Comments,
    Listed(Seq<char>),
}

impl View for VirtualSource {
    type V = SourceView;

    open spec fn view(&self) -> SourceView {
        match *self {
            VirtualSource::Rows(rows) => SourceView::Rows(catalog::row_views(rows@)),
            VirtualSource::Namespaces => SourceView::Namespaces,
            VirtualSource::Comments => SourceView::Comments,
            VirtualSource::Listed(name) => SourceView::Listed(name@),
        }
    }
}

/// The tables that are always empty.
pub open spec fn empty_names() -> Seq<Seq<char>> {
    seq![
        "pg_seclabel"@,
        "pg_shseclabel"@,
        "pg_seclabels"@,
        "pg_conversion"@,
        "pg_init_privs"@,
        "pg_transform"@,
        "pg_db_role_setting"@,
        "pg_largeobject_metadata"@,
        "pg_statistic_ext"@,
        "pg_statistic_ext_data"@,
        "pg_event_trigger"@,
        "pg_operator"@,
        "pg_ts_config"@,
        "pg_ts_config_map"@,
        "pg_ts_dict"@,
        "pg_ts_parser"@,
        "pg_ts_template"@,
        "pg_foreign_data_wrapper"@,
        "pg_foreign_server"@,
        "pg_foreign_table"@,
        "pg_user_mappings"@,
        "pg_subscription"@,
        "pg_subscription_rel"@,
        "pg_publication"@,
        "pg_publication_rel"@,
        "pg_publication_namespace"@,
        "pg_locks"@,
        "bicdb_replication_nodes"@,
        "bicdb_replication_errors"@,
    ]
}

/// The tables whose rows the engine lists under their own name.
pub open spec fn listed_names() -> Seq<Seq<char>> {
    seq![
        "information_schema.tables"@,
        "information_schema.columns"@,
        "information_schema.domains"@,
        "information_schema.element_types"@,
        "information_schema.user_defined_types"@,
        "information_schema.routines"@,
        "information_schema.parameters"@,
        "information_schema.table_constraints"@,
        "information_schema.key_column_usage"@,
        "information_schema.constraint_column_usage"@,
        "information_schema.check_constraints"@,
        "information_schema.sequences"@,
        "pg_database"@,
        "pg_extension"@,
        "pg_class"@,
        "pg_attribute"@,
        "pg_type"@,
        "pg_proc"@,
        "pg_language"@,
        "pg_trigger"@,
        "pg_sequence"@,
        "pg_sequences"@,
        "pg_tables"@,
        "pg_index"@,
        "pg_indexes"@,
        "pg_constraint"@,
        "pg_attrdef"@,
        "pg_rewrite"@,
        "pg_cast"@,
        "pg_depend"@,
        "pg_inherits"@,
        "pg_partitioned_table"@,
        "pg_enum"@,
        "pg_range"@,
        "pg_stats"@,
        "pg_collation"@,
        "pg_am"@,
        "pg_opclass"@,
        "pg_opfamily"@,
        "pg_amop"@,
        "pg_amproc"@,
        "pg_default_acl"@,
        "pg_tablespace"@,
        "pg_auth_members"@,
        "pg_roles"@,
        "pg_user"@,
        "pg_policy"@,
        "pg_policies"@,
        "pg_timezone_names"@,
        "pg_settings"@,
        "pg_stat_database"@,
        "bicdb_notifications"@,
        "bicdb_replication_status"@,
        "bicdb_replication_lag"@,
        "bicdb_consensus_status"@,
    ]
}

pub open spec fn schemata_row() -> Seq<(Seq<char>, CellView)> {
    seq![
        ("catalog_name"@, CellView::Text("bicdb"@)),
        ("schema_name"@, CellView::Text("public"@)),
    ]
}

pub open spec fn control_system_row() -> Seq<(Seq<char>, CellView)> {
    seq![
        ("pg_control_version"@, CellView::Int(1_300)),
        ("catalog_version_no"@, CellView::Int(202_406_221)),
        ("system_identifier"@, CellView::Int(1_802_028_600_100)),
        ("pg_control_last_modified"@, CellView::Text("2026-06-22 00:00:00+00"@)),
    ]
}

/// Where the rows of a virtual table come from.
pub open spec fn source_of(table: Seq<char>, nodes: Seq<char>, edges: Seq<char>) -> Result<
    SourceView,
    ErrorView,
> {
    let name = catalog_columns::without_catalog(table);
    if name == "information_schema.schemata"@ {
        Ok(SourceView::Rows(seq![schemata_row()]))
    } else if name == "information_schema.role_table_grants"@ || name
        == "information_schema.table_privileges"@ {
        Ok(SourceView::Listed("information_schema.role_table_grants"@))
    } else if name == "pg_stat_all_tables"@ || name == "pg_stat_user_tables"@ {
        Ok(SourceView::Listed("pg_stat_all_tables"@))
    } else if name == "pg_namespace"@ {
        Ok(SourceView::Namespaces)
    } else if name == "pg_description"@ {
        Ok(SourceView::Comments)
    } else if name == "pg_control_system"@ {
        Ok(SourceView::Rows(seq![control_system_row()]))
    } else if empty_names().contains(name) {
        Ok(SourceView::Rows(Seq::empty()))
    } else if listed_names().contains(name) || name == nodes || name == edges {
        Ok(SourceView::Listed(name))
    } else {
        Err(error::unsupported_error("virtual table "@ + name + " is not implemented"@))
    }
}

/// Where the rows of a virtual table come from.
pub fn virtual_rows(table: &str, graph: &GraphTables) -> (r: Result<VirtualSource, SqlError>)
    ensures
        match (r, source_of(table@, graph.nodes@, graph.edges@)) {
            (Ok(source), Ok(view)) => source@ == view,
            (Err(e), Err(view)) => e@ == view,
            _ => false,
        },
{
    let name = catalog_columns::strip_catalog(table);
    let table = name.as_str();
    let empty = [
        "pg_seclabel",
        "pg_shseclabel",
        "pg_seclabels",
        "pg_conversion",
        "pg_init_privs",
        "pg_transform",
        "pg_db_role_setting",
        "pg_largeobject_metadata",
        "pg_statistic_ext",
        "pg_statistic_ext_data",
        "pg_event_trigger",
        "pg_operator",
        "pg_ts_config",
        "pg_ts_config_map",
        "pg_ts_dict",
        "pg_ts_parser",
        "pg_ts_template",
        "pg_foreign_data_wrapper",
        "pg_foreign_server",
        "pg_foreign_table",
        "pg_user_mappings",
        "pg_subscription",
        "pg_subscription_rel",
        "pg_publication",
        "pg_publication_rel",
        "pg_publication_namespace",
        "pg_locks",
        "bicdb_replication_nodes",
        "bicdb_replication_errors",
    ];
    assert(text::slice_views(empty@) =~= empty_names());
    let listed = [
        "information_schema.tables",
        "information_schema.columns",
        "information_schema.domains",
        "information_schema.element_types",
        "information_schema.user_defined_types",
        "information_schema.routines",
        "information_schema.parameters",
        "information_schema.table_constraints",
        "information_schema.key_column_usage",
        "information_schema.constraint_column_usage",
        "information_schema.check_constraints",
        "information_schema.sequences",
        "pg_database",
        "pg_extension",
        "pg_class",
        "pg_attribute",
        "pg_type",
        "pg_proc",
        "pg_language",
        "pg_trigger",
        "pg_sequence",
        "pg_sequences",
        "pg_tables",
        "pg_index",
        "pg_indexes",
        "pg_constraint",
        "pg_attrdef",
        "pg_rewrite",
        "pg_cast",
        "pg_depend",
        "pg_inherits",
        "pg_partitioned_table",
        "pg_enum",
        "pg_range",
        "pg_stats",
        "pg_collation",
        "pg_am",
        "pg_opclass",
        "pg_opfamily",
        "pg_amop",
        "pg_amproc",
        "pg_default_acl",
        "pg_tablespace",
        "pg_auth_members",
        "pg_roles",
        "pg_user",
        "pg_policy",
        "pg_policies",
        "pg_timezone_names",
        "pg_settings",
        "pg_stat_database",
        "bicdb_notifications",
        "bicdb_replication_status",
        "bicdb_replication_lag",
        "bicdb_consensus_status",
    ];
    assert(text::slice_views(listed@) =~= listed_names());
    if text::text_eq(table, "information_schema.schemata") {
        let mut row = CatalogRow::new();
        row.put_text("catalog_name", "bicdb");
        row.put_text("schema_name", "public");
        assert(row@ =~= schemata_row());
        let mut rows: Vec<CatalogRow> = Vec::new();
        catalog::push_row(&mut rows, row);
        assert(catalog::row_views(rows@) =~= seq![schemata_row()]);
        Ok(VirtualSource::Rows(rows))
    } else if text::text_eq(table, "information_schema.role_table_grants") || text::text_eq(
        table,
        "information_schema.table_privileges",
    ) {
        Ok(VirtualSource::Listed("information_schema.role_table_grants".to_owned()))
    } else if text::text_eq(table, "pg_stat_all_tables") || text::text_eq(
        table,
        "pg_stat_user_tables",
    ) {
        Ok(VirtualSource::Listed("pg_stat_all_tables".to_owned()))
    } else if text::text_eq(table, "pg_namespace") {
        Ok(VirtualSource::Namespaces)
    } else if text::text_eq(table, "pg_description") {
        Ok(VirtualSource::Comments)
    } else if text::text_eq(table, "pg_control_system") {
        let mut row = CatalogRow::new();
        row.put_int("pg_control_version", 1_300);
        row.put_int("catalog_version_no", 202_406_221);
        row.put_int("system_identifier", 1_802_028_600_100);
        row.put_text("pg_control_last_modified", "2026-06-22 00:00:00+00");
        assert(row@ =~= control_system_row());
        let mut rows: Vec<CatalogRow> = Vec::new();
        catalog::push_row(&mut rows, row);
        assert(catalog::row_views(rows@) =~= seq![control_system_row()]);
        Ok(VirtualSource::Rows(rows))
    } else if text::one_of(table, &empty) {
        let rows: Vec<CatalogRow> = Vec::new();
        assert(catalog::row_views(rows@) =~= Seq::<Seq<(Seq<char>, CellView)>>::empty());
        Ok(VirtualSource::Rows(rows))
    } else if text::one_of(table, &listed) || text::text_eq(table, graph.nodes.as_str())
        || text::text_eq(table, graph.edges.as_str()) {
        Ok(VirtualSource::Listed(table.to_owned()))
    } else {
        Err(
            SqlError::unsupported(
                text::concat3("virtual table ", table, " is not implemented"),
            ),
        )
    }
}

/// The rows of a virtual table: its own, or else those that were listed for it, each
/// with the number of the table where it has one.
pub open spec fn rows_of(
    table: Seq<char>,
    nodes: Seq<char>,
    edges: Seq<char>,
    listed: Seq<Seq<(Seq<char>, CellView)>>,
    oid: Option<i64>,
) -> Result<Seq<Seq<(Seq<char>, CellView)>>, ErrorView> {
    match source_of(table, nodes, edges) {
        Err(e) => Err(e),
        Ok(SourceView::Rows(rows)) => Ok(catalog::with_table_oid(rows, oid)),
        Ok(_) => Ok(catalog::with_table_oid(listed, oid)),
    }
}

/// The rows of a virtual table. `listed` are those that its source lists, where it has
/// no rows of its own, and `oid` is the number of the table in the catalog.
pub fn virtual_table_rows(
    table: &str,
    graph: &GraphTables,
    listed: Vec<CatalogRow>,
    oid: Option<i64>,
) -> (r: Result<Vec<CatalogRow>, SqlError>)
    ensures
        match (
            r,
            rows_of(table@, graph.nodes@, graph.edges@, catalog::row_views(listed@), oid),
        ) {
            (Ok(rows), Ok(views)) => catalog::row_views(rows@) == views,
            (Err(e), Err(view)) => e@ == view,
            _ => false,
        },
{
    match virtual_rows(table, graph) {
        Err(e) => Err(e),
        Ok(VirtualSource::Rows(rows)) => Ok(catalog::fill_table_oid(rows, oid)),
        Ok(_) => Ok(catalog::fill_table_oid(listed, oid)),
    }
}

/// A virtual table has the same rows with and without the schema of the system
/// catalog; where it has a number, every row carries one; and a name that is no
/// virtual table is refused as unsupported.
pub proof fn law_virtual_rows(
    table: Seq<char>,
    nodes: Seq<char>,
    edges: Seq<char>,
    listed: Seq<Seq<(Seq<char>, CellView)>>,
    oid: Option<i64>,
)
    requires
        !text::starts_with(table, "pg_catalog."@),
    ensures
        rows_of("pg_catalog."@ + table, nodes, edges, listed, oid) == rows_of(
            table,
            nodes,
            edges,
            listed,
            oid,
        ),
        match rows_of(table, nodes, edges, listed, oid) {
            Ok(rows) => oid is Some ==> forall|k: int|
                0 <= k < rows.len() ==> catalog::cell_named(
                    #[trigger] rows[k],
                    "tableoid"@,
                    0,
                ) is Some,
            Err(e) => e == error::unsupported_error(
                "virtual table "@ + table + " is not implemented"@,
            ),
        },
{
    let long = "pg_catalog."@ + table;
    assert(long.take("pg_catalog."@.len() as int) =~= "pg_catalog."@);
    assert(long.skip("pg_catalog."@.len() as int) =~= table);
    if let Some(number) = oid {
        if let Ok(source) = source_of(table, nodes, edges) {
            let given = match source {
                SourceView::Rows(rows) => rows,
                _ => listed,
            };
            catalog::lemma_each_has_table_oid(given, number);
        }
    }
}

/// The names of the schemas of a database, in order: the built-in ones, those
/// that were created, and those that tables stand in.
pub open spec fn namespace_names(
    created: Seq<Seq<char>>,
    of_tables: Seq<Seq<char>>,
) -> Seq<Seq<char>> {
    order::put_all(
        order::put_all(
            order::put_all(
                Seq::empty(),
                seq!["public"@, "pg_catalog"@, "information_schema"@],
            ),
            created,
        ),
        of_tables,
    )
}

/// The names of the schemas of a database, in order.
pub fn collect_namespace_names(created: &Vec<String>, of_tables: &Vec<String>) -> (r: Vec<String>)
    ensures
        text::views(r@) == namespace_names(text::views(created@), text::views(of_tables@)),
{
    let mut names: Vec<String> = Vec::new();
    let built_in = text::names(&["public", "pg_catalog", "information_schema"]);
    assert(text::views(built_in@) =~= seq!["public"@, "pg_catalog"@, "information_schema"@]);
    assert(text::views(names@) =~= Seq::<Seq<char>>::empty());
    order::put_each(&mut names, &built_in);
    order::put_each(&mut names, created);
    order::put_each(&mut names, of_tables);
    names
}

/// The listed schemas are in order, and hold the built-in ones, the created ones
/// and those of tables, and no others.
pub proof fn law_namespace_names(created: Seq<Seq<char>>, of_tables: Seq<Seq<char>>)
    ensures
        order::ascending(namespace_names(created, of_tables)),
        forall|x: Seq<char>| #[trigger]
            namespace_names(created, of_tables).contains(x) <==> x == "public"@ || x
                == "pg_catalog"@ || x == "information_schema"@ || created.contains(x)
                || of_tables.contains(x),
{
    let built_in = seq!["public"@, "pg_catalog"@, "information_schema"@];
    let first = order::put_all(Seq::empty(), built_in);
    let second = order::put_all(first, created);
    order::law_put_all(Seq::empty(), built_in);
    order::law_put_all(first, created);
    order::law_put_all(second, of_tables);
    assert forall|x: Seq<char>| built_in.contains(x) <==> x == "public"@ || x == "pg_catalog"@ || x
        == "information_schema"@ by {
        assert(built_in[0] == "public"@);
        assert(built_in[1] == "pg_catalog"@);
        assert(built_in[2] == "information_schema"@);
    }
    assert forall|x: Seq<char>| #[trigger]
        namespace_names(created, of_tables).contains(x) <==> x == "public"@ || x == "pg_catalog"@
            || x == "information_schema"@ || created.contains(x) || of_tables.contains(x) by {
        assert(second.contains(x) <==> first.contains(x) || created.contains(x));
        assert(first.contains(x) <==> built_in.contains(x));
    }
}

/// A schema: its name, its number, the number of its owner, and its access
/// list.
#[derive(Debug)]
pub struct NamespaceInfo {
    pub name: String,
    pub oid: i64,
    pub owner: i64,
    pub acl: Option<String>,
}

/// The row of `pg_namespace` of a schema.
pub open spec fn namespace_row(n: NamespaceInfo) -> Seq<(Seq<char>, CellView)> {
    seq![
        ("oid"@, CellView::Int(n.oid)),
        ("nspname"@, CellView::Text(n.name@)),
        ("nspowner"@, CellView::Int(n.owner)),
        ("nspacl"@, catalog::text_or_null(error::view_option(n.acl))),
    ]
}

/// The row of `pg_namespace` of a schema.
pub fn pg_namespace_row(n: &NamespaceInfo) -> (r: CatalogRow)
    ensures
        r@ == namespace_row(*n),
{
    let mut row = CatalogRow::new();
    row.put_int("oid", n.oid);
    row.put_text("nspname", n.name.as_str());
    row.put_int("nspowner", n.owner);
    row.put_optional("nspacl", catalog::borrowed(&n.acl));
    assert(row@ =~= namespace_row(*n));
    row
}

/// A type and the comment on it.
#[derive(Debug)]
pub struct TypeComment {
    pub oid: i64,
    pub comment: Option<String>,
}

/// The rows of `pg_description`: one for each type that has a comment.
pub open spec fn description_rows(types: Seq<TypeComment>) -> Seq<Seq<(Seq<char>, CellView)>>
    decreases types.len(),
{
    if types.len() == 0 {
        Seq::empty()
    } else {
        let rows = description_rows(types.drop_last());
        match types.last().comment {
            Some(comment) => rows.push(
                seq![
                    ("objoid"@, CellView::Int(types.last().oid)),
                    ("classoid"@, CellView::Int(1247)),
                    ("objsubid"@, CellView::Int(0)),
                    ("description"@, CellView::Text(comment@)),
                ],
            ),
            None => rows,
        }
    }
}

/// The rows of `pg_description`.
pub fn pg_description_rows(types: &Vec<TypeComment>) -> (r: Vec<CatalogRow>)
    ensures
        catalog::row_views(r@) == description_rows(types@),
{
    let mut rows: Vec<CatalogRow> = Vec::new();
    let mut i: usize = 0;
    assert(types@.take(0) =~= Seq::<TypeComment>::empty());
    assert(catalog::row_views(rows@) =~= description_rows(types@.take(0)));
    while i < types.len()
        invariant
            i <= types.len(),
            catalog::row_views(rows@) == description_rows(types@.take(i as int)),
        decreases types.len() - i,
    {
        assert(types@.take(i as int + 1).drop_last() =~= types@.take(i as int));
        assert(types@.take(i as int + 1).last() == types@[i as int]);
        match &types[i].comment {
            Some(comment) => {
                let mut row = CatalogRow::new();
                row.put_int("objoid", types[i].oid);
                row.put_int("classoid", 1247);
                row.put_int("objsubid", 0);
                row.put_text("description", comment.as_str());
                assert(row@ =~= seq![
                    ("objoid"@, CellView::Int(types@[i as int].oid)),
                    ("classoid"@, CellView::Int(1247)),
                    ("objsubid"@, CellView::Int(0)),
                    ("description"@, CellView::Text(comment@)),
                ]);
                catalog::push_row(&mut rows, row);
            },
            None => {},
        }
        i = i + 1;
    }
    assert(types@.take(types@.len() as int) =~= types@);
    rows
}

/// A read of a virtual table, narrowed by what its WHERE clause implies.
#[derive(Debug)]
pub enum VirtualRead {
    Columns {
        schemas: Option<Vec<String>>,
        tables: Option<Vec<String>>,
        columns: Option<Vec<String>>,
    },
    Classes {
        names: Option<Vec<String>>,
        kinds: Option<Vec<String>>,
        oids: Option<Vec<i64>>,
    },
    Attributes(Vec<i64>),
    Defaults(Vec<i64>),
    Indexes {
        primary: Option<bool>,
        tables: Option<Vec<i64>>,
        indexes: Option<Vec<i64>>,
    },
    IndexDefinitions {
        schemas: Option<Vec<String>>,
        tables: Option<Vec<String>>,
        indexes: Option<Vec<String>>,
    },
    Constraints {
        names: Option<Vec<String>>,
        kinds: Option<Vec<String>>,
        tables: Option<Vec<i64>>,
    },
    Triggers {
        names: Option<Vec<String>>,
        tables: Option<Vec<i64>>,
    },
    TableStatistics(Vec<i64>),
    /// All rows.
    All,
}

#[verifier::ext_equal]
pub enum ReadView {
    Columns(Option<Seq<Seq<char>>>, Option<Seq<Seq<char>>>, Option<Seq<Seq<char>>>),
    Classes(Option<Seq<Seq<char>>>, Option<Seq<Seq<char>>>, Option<Seq<i64>>),
    Attributes(Seq<i64>),
    Defaults(Seq<i64>),
    Indexes(Option<bool>, Option<Seq<i64>>, Option<Seq<i64>>),
    IndexDefinitions(Option<Seq<Seq<char>>>, Option<Seq<Seq<char>>>, Option<Seq<Seq<char>>>),
    Constraints(Option<Seq<Seq<char>>>, Option<Seq<Seq<char>>>, Option<Seq<i64>>),
    Triggers(Option<Seq<Seq<char>>>, Option<Seq<i64>>),
    TableStatistics(Seq<i64>),
    All,
}

impl View for VirtualRead {
    type V = ReadView;

    open spec fn view(&self) -> ReadView {
        match *self {
            VirtualRead::Columns { schemas, tables, columns } => ReadView::Columns(
                filters::views_option(schemas),
                filters::views_option(tables),
                filters::views_option(columns),
            ),
            VirtualRead::Classes { names, kinds, oids } => ReadView::Classes(
                filters::views_option(names),
                filters::views_option(kinds),
                oid_filters::view_oids(oids),
            ),
            VirtualRead::Attributes(oids) => ReadView::Attributes(oids@),
            VirtualRead::Defaults(oids) => ReadView::Defaults(oids@),
            VirtualRead::Indexes { primary, tables, indexes } => ReadView::Indexes(
                primary,
                oid_filters::view_oids(tables),
                oid_filters::view_oids(indexes),
            ),
            VirtualRead::IndexDefinitions { schemas, tables, indexes } => ReadView::IndexDefinitions(
                filters::views_option(schemas),
                filters::views_option(tables),
                filters::views_option(indexes),
            ),
            VirtualRead::Constraints { names, kinds, tables } => ReadView::Constraints(
                filters::views_option(names),
                filters::views_option(kinds),
                oid_filters::view_oids(tables),
            ),
            VirtualRead::Triggers { names, tables } => ReadView::Triggers(
                filters::views_option(names),
                oid_filters::view_oids(tables),
            ),
            VirtualRead::TableStatistics(oids) => ReadView::TableStatistics(oids@),
            VirtualRead::All => ReadView::All,
        }
    }
}

/// The WHERE clause of a read: its terms, the alias of the table, and the tables
/// of the database with their numbers.
pub struct Scope<'a> {
    pub terms: &'a Vec<FilterExpr>,
    pub alias: &'a str,
    pub tables: &'a Vec<(String, i64)>,
}

/// The strings that the WHERE clause lets a column have.
pub open spec fn strings_for(s: Scope, table: Seq<char>, field: Seq<char>) -> Result<
    Option<Seq<Seq<char>>>,
    ErrorView,
> {
    filters::implied_constants(s.terms@, s.alias@, table, seq![field], FilterKind::Strings, 0)
}

/// The numbers that the WHERE clause lets a column have.
pub open spec fn oids_for(s: Scope, table: Seq<char>, field: Seq<char>) -> Result<
    Option<Seq<i64>>,
    ErrorView,
> {
    oid_filters::implied_oids(s.terms@, s.alias@, table, seq![field], s.tables@)
}

/// The flag that the WHERE clause asks a column to be.
pub open spec fn flag_for(s: Scope, table: Seq<char>, field: Seq<char>) -> Option<bool> {
    filters::implied_flag(s.terms@, s.alias@, table, field, 0)
}

impl<'a> Scope<'a> {
    fn strings(&self, table: &str, field: &str) -> (r: Result<Option<Vec<String>>, SqlError>)
        ensures
            filters::texts_result(r, strings_for(*self, table@, field@)),
    {
        let fields = [field];
        assert(text::slice_views(fields@) =~= seq![field@]);
        filters::string_filter_values_from_selection(self.terms, self.alias, table, &fields)
    }

    fn oids(&self, table: &str, field: &str) -> (r: Result<Option<Vec<i64>>, SqlError>)
        ensures
            oid_filters::oids_result(r, oids_for(*self, table@, field@)),
    {
        let fields = [field];
        assert(text::slice_views(fields@) =~= seq![field@]);
        oid_filters::relation_oid_filters_from_selection_and_pg_class_join(
            self.terms,
            self.alias,
            table,
            &fields,
            self.tables,
        )
    }

    fn flag(&self, table: &str, field: &str) -> (r: Option<bool>)
        ensures
            r == flag_for(*self, table@, field@),
    {
        filters::boolean_filter_from_selection(self.terms, self.alias, table, field)
    }
}

/// A read and the outcome that it has to be.
pub open spec fn read_result(
    r: Result<VirtualRead, SqlError>,
    v: Result<ReadView, ErrorView>,
) -> bool {
    match (r, v) {
        (Ok(read), Ok(view)) => read@ == view,
        (Err(e), Err(view)) => e@ == view,
        _ => false,
    }
}

/// The read of `information_schema.columns`.
pub open spec fn columns_read(s: Scope) -> Result<ReadView, ErrorView> {
    let table = "information_schema.columns"@;
    match strings_for(s, table, "table_schema"@) {
        Err(e) => Err(e),
        Ok(schemas) => match strings_for(s, table, "table_name"@) {
            Err(e) => Err(e),
            Ok(tables) => match strings_for(s, table, "column_name"@) {
                Err(e) => Err(e),
                Ok(columns) => if schemas is Some || tables is Some || columns is Some {
                    Ok(ReadView::Columns(schemas, tables, columns))
                } else {
                    Ok(ReadView::All)
                },
            },
        },
    }
}

fn read_columns(s: &Scope) -> (r: Result<VirtualRead, SqlError>)
    ensures
        read_result(r, columns_read(*s)),
{
    let table = "information_schema.columns";
    let schemas = match s.strings(table, "table_schema") {
        Err(e) => {
            return Err(e);
        },
        Ok(v) => v,
    };
    let tables = match s.strings(table, "table_name") {
        Err(e) => {
            return Err(e);
        },
        Ok(v) => v,
    };
    let columns = match s.strings(table, "column_name") {
        Err(e) => {
            return Err(e);
        },
        Ok(v) => v,
    };
    if schemas.is_some() || tables.is_some() || columns.is_some() {
        Ok(VirtualRead::Columns { schemas, tables, columns })
    } else {
        Ok(VirtualRead::All)
    }
}

/// The read of `pg_class`. `answers` are those of the reads of `pg_index` that
/// the WHERE clause asks for.
pub open spec fn classes_read(s: Scope, answers: Seq<Seq<i64>>) -> Result<ReadView, ErrorView> {
    let table = "pg_class"@;
    match strings_for(s, table, "relname"@) {
        Err(e) => Err(e),
        Ok(names) => match strings_for(s, table, "relkind"@) {
            Err(e) => Err(e),
            Ok(kinds) => match oids_for(s, table, "oid"@) {
                Err(e) => Err(e),
                Ok(own) => match oid_filters::relid_oids(s.terms@, s.alias@, s.tables@, 0, None) {
                    Err(e) => Err(e),
                    Ok(joined) => {
                        let indexed = oid_filters::merged_answers(answers, 0, None);
                        let oids = filters::both(filters::both(own, indexed), joined);
                        if names is Some || kinds is Some || oids is Some {
                            Ok(ReadView::Classes(names, kinds, oids))
                        } else {
                            Ok(ReadView::All)
                        }
                    },
                },
            },
        },
    }
}

fn read_classes(s: &Scope, answers: Vec<Vec<i64>>) -> (r: Result<VirtualRead, SqlError>)
    ensures
        read_result(r, classes_read(*s, oid_filters::answer_views(answers@))),
{
    let table = "pg_class";
    let names = match s.strings(table, "relname") {
        Err(e) => {
            return Err(e);
        },
        Ok(v) => v,
    };
    let kinds = match s.strings(table, "relkind") {
        Err(e) => {
            return Err(e);
        },
        Ok(v) => v,
    };
    let mut oids = match s.oids(table, "oid") {
        Err(e) => {
            return Err(e);
        },
        Ok(v) => v,
    };
    match oid_filters::pg_class_oid_filters_from_pg_index_join(answers) {
        Some(indexed) => {
            oid_filters::merge_oid_filter(&mut oids, indexed);
        },
        None => {},
    }
    match oid_filters::pg_class_oid_filters_from_joined_relid_filter(s.terms, s.alias, s.tables) {
        Err(e) => {
            return Err(e);
        },
        Ok(Some(joined)) => {
            oid_filters::merge_oid_filter(&mut oids, joined);
        },
        Ok(None) => {},
    }
    if names.is_some() || kinds.is_some() || oids.is_some() {
        Ok(VirtualRead::Classes { names, kinds, oids })
    } else {
        Ok(VirtualRead::All)
    }
}

/// The read of `pg_index`.
pub open spec fn indexes_read(s: Scope) -> Result<ReadView, ErrorView> {
    let table = "pg_index"@;
    let primary = flag_for(s, table, "indisprimary"@);
    match oids_for(s, table, "indrelid"@) {
        Err(e) => Err(e),
        Ok(tables) => match oids_for(s, table, "indexrelid"@) {
            Err(e) => Err(e),
            Ok(indexes) => if primary is Some || tables is Some || indexes is Some {
                Ok(ReadView::Indexes(primary, tables, indexes))
            } else {
                Ok(ReadView::All)
            },
        },
    }
}

fn read_indexes(s: &Scope) -> (r: Result<VirtualRead, SqlError>)
    ensures
        read_result(r, indexes_read(*s)),
{
    let table = "pg_index";
    let primary = s.flag(table, "indisprimary");
    let tables = match s.oids(table, "indrelid") {
        Err(e) => {
            return Err(e);
        },
        Ok(v) => v,
    };
    let indexes = match s.oids(table, "indexrelid") {
        Err(e) => {
            return Err(e);
        },
        Ok(v) => v,
    };
    if primary.is_some() || tables.is_some() || indexes.is_some() {
        Ok(VirtualRead::Indexes { primary, tables, indexes })
    } else {
        Ok(VirtualRead::All)
    }
}

/// The read of `pg_indexes`.
pub open spec fn index_definitions_read(s: Scope) -> Result<ReadView, ErrorView> {
    let table = "pg_indexes"@;
    match strings_for(s, table, "schemaname"@) {
        Err(e) => Err(e),
        Ok(schemas) => match strings_for(s, table, "tablename"@) {
            Err(e) => Err(e),
            Ok(tables) => match strings_for(s, table, "indexname"@) {
                Err(e) => Err(e),
                Ok(indexes) => if schemas is Some || tables is Some || indexes is Some {
                    Ok(ReadView::IndexDefinitions(schemas, tables, indexes))
                } else {
                    Ok(ReadView::All)
                },
            },
        },
    }
}

fn read_index_definitions(s: &Scope) -> (r: Result<VirtualRead, SqlError>)
    ensures
        read_result(r, index_definitions_read(*s)),
{
    let table = "pg_indexes";
    let schemas = match s.strings(table, "schemaname") {
        Err(e) => {
            return Err(e);
        },
        Ok(v) => v,
    };
    let tables = match s.strings(table, "tablename") {
        Err(e) => {
            return Err(e);
        },
        Ok(v) => v,
    };
    let indexes = match s.strings(table, "indexname") {
        Err(e) => {
            return Err(e);
        },
        Ok(v) => v,
    };
    if schemas.is_some() || tables.is_some() || indexes.is_some() {
        Ok(VirtualRead::IndexDefinitions { schemas, tables, indexes })
    } else {
        Ok(VirtualRead::All)
    }
}

/// The read of `pg_constraint`.
pub open spec fn constraints_read(s: Scope) -> Result<ReadView, ErrorView> {
    let table = "pg_constraint"@;
    match strings_for(s, table, "conname"@) {
        Err(e) => Err(e),
        Ok(names) => match strings_for(s, table, "contype"@) {
            Err(e) => Err(e),
            Ok(kinds) => match oids_for(s, table, "conrelid"@) {
                Err(e) => Err(e),
                Ok(tables) => if names is Some || kinds is Some || tables is Some {
                    Ok(ReadView::Constraints(names, kinds, tables))
                } else {
                    Ok(ReadView::All)
                },
            },
        },
    }
}

fn read_constraints(s: &Scope) -> (r: Result<VirtualRead, SqlError>)
    ensures
        read_result(r, constraints_read(*s)),
{
    let table = "pg_constraint";
    let names = match s.strings(table, "conname") {
        Err(e) => {
            return Err(e);
        },
        Ok(v) => v,
    };
    let kinds = match s.strings(table, "contype") {
        Err(e) => {
            return Err(e);
        },
        Ok(v) => v,
    };
    let tables = match s.oids(table, "conrelid") {
        Err(e) => {
            return Err(e);
        },
        Ok(v) => v,
    };
    if names.is_some() || kinds.is_some() || tables.is_some() {
        Ok(VirtualRead::Constraints { names, kinds, tables })
    } else {
        Ok(VirtualRead::All)
    }
}

/// The read of `pg_trigger`.
pub open spec fn triggers_read(s: Scope) -> Result<ReadView, ErrorView> {
    let table = "pg_trigger"@;
    match strings_for(s, table, "tgname"@) {
        Err(e) => Err(e),
        Ok(names) => match oids_for(s, table, "tgrelid"@) {
            Err(e) => Err(e),
            Ok(tables) => if names is Some || tables is Some {
                Ok(ReadView::Triggers(names, tables))
            } else {
                Ok(ReadView::All)
            },
        },
    }
}

fn read_triggers(s: &Scope) -> (r: Result<VirtualRead, SqlError>)
    ensures
        read_result(r, triggers_read(*s)),
{
    let table = "pg_trigger";
    let names = match s.strings(table, "tgname") {
        Err(e) => {
            return Err(e);
        },
        Ok(v) => v,
    };
    let tables = match s.oids(table, "tgrelid") {
        Err(e) => {
            return Err(e);
        },
        Ok(v) => v,
    };
    if names.is_some() || tables.is_some() {
        Ok(VirtualRead::Triggers { names, tables })
    } else {
        Ok(VirtualRead::All)
    }
}

/// A read that numbers alone narrow.
pub open spec fn by_oids(
    found: Result<Option<Seq<i64>>, ErrorView>,
    read: spec_fn(Seq<i64>) -> ReadView,
) -> Result<ReadView, ErrorView> {
    match found {
        Err(e) => Err(e),
        Ok(None) => Ok(ReadView::All),
        Ok(Some(oids)) => Ok(read(oids)),
    }
}

/// The narrowest read of a virtual table that its WHERE clause allows.
pub open spec fn narrowed_read(
    table: Seq<char>,
    s: Scope,
    answers: Seq<Seq<i64>>,
) -> Result<ReadView, ErrorView> {
    let name = catalog_columns::without_catalog(table);
    if name == "information_schema.columns"@ {
        columns_read(s)
    } else if name == "pg_class"@ {
        classes_read(s, answers)
    } else if name == "pg_attribute"@ {
        by_oids(oids_for(s, name, "attrelid"@), |oids: Seq<i64>| ReadView::Attributes(oids))
    } else if name == "pg_attrdef"@ {
        by_oids(oids_for(s, name, "adrelid"@), |oids: Seq<i64>| ReadView::Defaults(oids))
    } else if name == "pg_index"@ {
        indexes_read(s)
    } else if name == "pg_indexes"@ {
        index_definitions_read(s)
    } else if name == "pg_constraint"@ {
        constraints_read(s)
    } else if name == "pg_trigger"@ {
        triggers_read(s)
    } else if name == "pg_stat_all_tables"@ || name == "pg_stat_user_tables"@ {
        by_oids(oids_for(s, name, "relid"@), |oids: Seq<i64>| ReadView::TableStatistics(oids))
    } else {
        Ok(ReadView::All)
    }
}

/// The narrowest read of a virtual table that its WHERE clause allows. For
/// `pg_class`, `answers` are those of the reads of `pg_index` that the WHERE
/// clause asks for.
pub fn virtual_rows_with_selection(table: &str, scope: &Scope, answers: Vec<Vec<i64>>) -> (r: Result<
    VirtualRead,
    SqlError,
>)
    ensures
        read_result(r, narrowed_read(table@, *scope, oid_filters::answer_views(answers@))),
{
    let name = catalog_columns::strip_catalog(table);
    let name = name.as_str();
    if text::text_eq(name, "information_schema.columns") {
        read_columns(scope)
    } else if text::text_eq(name, "pg_class") {
        read_classes(scope, answers)
    } else if text::text_eq(name, "pg_attribute") {
        match scope.oids(name, "attrelid") {
            Err(e) => Err(e),
            Ok(None) => Ok(VirtualRead::All),
            Ok(Some(oids)) => Ok(VirtualRead::Attributes(oids)),
        }
    } else if text::text_eq(name, "pg_attrdef") {
        match scope.oids(name, "adrelid") {
            Err(e) => Err(e),
            Ok(None) => Ok(VirtualRead::All),
            Ok(Some(oids)) => Ok(VirtualRead::Defaults(oids)),
        }
    } else if text::text_eq(name, "pg_index") {
        read_indexes(scope)
    } else if text::text_eq(name, "pg_indexes") {
        read_index_definitions(scope)
    } else if text::text_eq(name, "pg_constraint") {
        read_constraints(scope)
    } else if text::text_eq(name, "pg_trigger") {
        read_triggers(scope)
    } else if text::text_eq(name, "pg_stat_all_tables") || text::text_eq(
        name,
        "pg_stat_user_tables",
    ) {
        match scope.oids(name, "relid") {
            Err(e) => Err(e),
            Ok(None) => Ok(VirtualRead::All),
            Ok(Some(oids)) => Ok(VirtualRead::TableStatistics(oids)),
        }
    } else {
        Ok(VirtualRead::All)
    }
}

} // verus!
