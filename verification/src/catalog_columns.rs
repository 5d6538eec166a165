//! The columns of the virtual tables, table by table.
use vstd::prelude::*;
use crate::text;

verus! {

/// The name of a table without the schema of the system catalog.
pub open spec fn without_catalog(table: Seq<char>) -> Seq<char> {
    if text::starts_with(table, "pg_catalog."@) {
        table.skip("pg_catalog."@.len() as int)
    } else {
        table
    }
}

/// The name of a table without the schema of the system catalog.
pub fn strip_catalog(table: &str) -> (r: String)
    ensures
        r@ == without_catalog(table@),
{
    match text::without_prefix(table, "pg_catalog.") {
        Some(rest) => rest,
        None => table.to_owned(),
    }
}

pub open spec fn list_view(v: Option<Vec<String>>) -> Option<Seq<Seq<char>>> {
    match v {
        Some(list) => Some(text::views(list@)),
        None => None,
    }
}

/// The columns of a table of the information schema.
pub open spec fn information_schema_columns(table: Seq<char>) -> Option<Seq<Seq<char>>> {
    if table == "information_schema.columns"@ {
        Some(
            seq![
                "table_catalog"@,
                "table_schema"@,
                "table_name"@,
                "column_name"@,
                "ordinal_position"@,
                "column_default"@,
                "is_nullable"@,
                "data_type"@,
                "character_maximum_length"@,
                "character_octet_length"@,
                "numeric_precision"@,
                "numeric_precision_radix"@,
                "numeric_scale"@,
                "datetime_precision"@,
                "interval_type"@,
                "interval_precision"@,
                "character_set_catalog"@,
                "character_set_schema"@,
                "character_set_name"@,
                "collation_catalog"@,
                "collation_schema"@,
                "collation_name"@,
                "domain_catalog"@,
                "domain_schema"@,
                "domain_name"@,
                "udt_catalog"@,
                "udt_schema"@,
                "udt_name"@,
                "scope_catalog"@,
                "scope_schema"@,
                "scope_name"@,
                "maximum_cardinality"@,
                "dtd_identifier"@,
                "is_self_referencing"@,
                "is_identity"@,
                "identity_generation"@,
                "identity_start"@,
                "identity_increment"@,
                "identity_maximum"@,
                "identity_minimum"@,
                "identity_cycle"@,
                "is_generated"@,
                "generation_expression"@,
                "is_updatable"@,
            ],
        )
    } else if table == "information_schema.domains"@ {
        Some(
            seq![
                "domain_catalog"@,
                "domain_schema"@,
                "domain_name"@,
                "data_type"@,
                "character_maximum_length"@,
                "character_octet_length"@,
                "character_set_catalog"@,
                "character_set_schema"@,
                "character_set_name"@,
                "collation_catalog"@,
                "collation_schema"@,
                "collation_name"@,
                "numeric_precision"@,
                "numeric_precision_radix"@,
                "numeric_scale"@,
                "datetime_precision"@,
                "interval_type"@,
                "interval_precision"@,
                "domain_default"@,
                "udt_catalog"@,
                "udt_schema"@,
                "udt_name"@,
                "scope_catalog"@,
                "scope_schema"@,
                "scope_name"@,
                "maximum_cardinality"@,
                "dtd_identifier"@,
            ],
        )
    } else if table == "information_schema.element_types"@ {
        Some(
            seq![
                "object_catalog"@,
                "object_schema"@,
                "object_name"@,
                "object_type"@,
                "collection_type_identifier"@,
                "data_type"@,
                "character_maximum_length"@,
                "character_octet_length"@,
                "character_set_catalog"@,
                "character_set_schema"@,
                "character_set_name"@,
                "collation_catalog"@,
                "collation_schema"@,
                "collation_name"@,
                "numeric_precision"@,
                "numeric_precision_radix"@,
                "numeric_scale"@,
                "datetime_precision"@,
                "interval_type"@,
                "interval_precision"@,
                "udt_catalog"@,
                "udt_schema"@,
                "udt_name"@,
                "scope_catalog"@,
                "scope_schema"@,
                "scope_name"@,
                "maximum_cardinality"@,
                "dtd_identifier"@,
            ],
        )
    } else if table == "information_schema.user_defined_types"@ {
        Some(
            seq![
                "user_defined_type_catalog"@,
                "user_defined_type_schema"@,
                "user_defined_type_name"@,
                "user_defined_type_category"@,
                "is_instantiable"@,
                "is_final"@,
                "ordering_form"@,
                "ordering_category"@,
                "ordering_routine_catalog"@,
                "ordering_routine_schema"@,
                "ordering_routine_name"@,
                "reference_type"@,
                "data_type"@,
                "character_maximum_length"@,
                "character_octet_length"@,
                "character_set_catalog"@,
                "character_set_schema"@,
                "character_set_name"@,
                "collation_catalog"@,
                "collation_schema"@,
                "collation_name"@,
                "numeric_precision"@,
                "numeric_precision_radix"@,
                "numeric_scale"@,
                "datetime_precision"@,
                "interval_type"@,
                "interval_precision"@,
                "source_dtd_identifier"@,
                "ref_dtd_identifier"@,
            ],
        )
    } else if table == "information_schema.routines"@ {
        Some(
            seq![
                "specific_catalog"@,
                "specific_schema"@,
                "specific_name"@,
                "routine_catalog"@,
                "routine_schema"@,
                "routine_name"@,
                "routine_type"@,
                "module_catalog"@,
                "module_schema"@,
                "module_name"@,
                "udt_catalog"@,
                "udt_schema"@,
                "udt_name"@,
                "data_type"@,
                "character_maximum_length"@,
                "character_octet_length"@,
                "character_set_catalog"@,
                "character_set_schema"@,
                "character_set_name"@,
                "collation_catalog"@,
                "collation_schema"@,
                "collation_name"@,
                "numeric_precision"@,
                "numeric_precision_radix"@,
                "numeric_scale"@,
                "datetime_precision"@,
                "interval_type"@,
                "interval_precision"@,
                "type_udt_catalog"@,
                "type_udt_schema"@,
                "type_udt_name"@,
                "scope_catalog"@,
                "scope_schema"@,
                "scope_name"@,
                "maximum_cardinality"@,
                "dtd_identifier"@,
                "routine_body"@,
                "routine_definition"@,
                "external_name"@,
                "external_language"@,
                "parameter_style"@,
                "is_deterministic"@,
                "sql_data_access"@,
                "is_null_call"@,
                "sql_path"@,
                "schema_level_routine"@,
                "max_dynamic_result_sets"@,
                "is_user_defined_cast"@,
                "is_implicitly_invocable"@,
                "security_type"@,
                "to_sql_specific_catalog"@,
                "to_sql_specific_schema"@,
                "to_sql_specific_name"@,
                "as_locator"@,
                "created"@,
                "last_altered"@,
                "new_savepoint_level"@,
                "is_udt_dependent"@,
                "result_cast_from_data_type"@,
                "result_cast_as_locator"@,
                "result_cast_char_max_length"@,
                "result_cast_char_octet_length"@,
                "result_cast_char_set_catalog"@,
                "result_cast_char_set_schema"@,
                "result_cast_char_set_name"@,
                "result_cast_collation_catalog"@,
                "result_cast_collation_schema"@,
                "result_cast_collation_name"@,
                "result_cast_numeric_precision"@,
                "result_cast_numeric_precision_radix"@,
                "result_cast_numeric_scale"@,
                "result_cast_datetime_precision"@,
                "result_cast_interval_type"@,
                "result_cast_interval_precision"@,
                "result_cast_type_udt_catalog"@,
                "result_cast_type_udt_schema"@,
                "result_cast_type_udt_name"@,
                "result_cast_scope_catalog"@,
                "result_cast_scope_schema"@,
                "result_cast_scope_name"@,
                "result_cast_maximum_cardinality"@,
                "result_cast_dtd_identifier"@,
            ],
        )
    } else if table == "information_schema.parameters"@ {
        Some(
            seq![
                "specific_catalog"@,
                "specific_schema"@,
                "specific_name"@,
                "ordinal_position"@,
                "parameter_mode"@,
                "is_result"@,
                "as_locator"@,
                "parameter_name"@,
                "data_type"@,
                "character_maximum_length"@,
                "character_octet_length"@,
                "character_set_catalog"@,
                "character_set_schema"@,
                "character_set_name"@,
                "collation_catalog"@,
                "collation_schema"@,
                "collation_name"@,
                "numeric_precision"@,
                "numeric_precision_radix"@,
                "numeric_scale"@,
                "datetime_precision"@,
                "interval_type"@,
                "interval_precision"@,
                "udt_catalog"@,
                "udt_schema"@,
                "udt_name"@,
                "scope_catalog"@,
                "scope_schema"@,
                "scope_name"@,
                "maximum_cardinality"@,
                "dtd_identifier"@,
                "parameter_default"@,
            ],
        )
    } else {
        None
    }
}

fn information_schema_table(table: &str) -> (r: Option<Vec<String>>)
    ensures
        list_view(r) == information_schema_columns(table@),
{
    if text::text_eq(table, "information_schema.columns") {
        let columns = text::names(
            &[
                "table_catalog",
                "table_schema",
                "table_name",
                "column_name",
                "ordinal_position",
                "column_default",
                "is_nullable",
                "data_type",
                "character_maximum_length",
                "character_octet_length",
                "numeric_precision",
                "numeric_precision_radix",
                "numeric_scale",
                "datetime_precision",
                "interval_type",
                "interval_precision",
                "character_set_catalog",
                "character_set_schema",
                "character_set_name",
                "collation_catalog",
                "collation_schema",
                "collation_name",
                "domain_catalog",
                "domain_schema",
                "domain_name",
                "udt_catalog",
                "udt_schema",
                "udt_name",
                "scope_catalog",
                "scope_schema",
                "scope_name",
                "maximum_cardinality",
                "dtd_identifier",
                "is_self_referencing",
                "is_identity",
                "identity_generation",
                "identity_start",
                "identity_increment",
                "identity_maximum",
                "identity_minimum",
                "identity_cycle",
                "is_generated",
                "generation_expression",
                "is_updatable",
            ],
        );
        assert(text::views(columns@) =~= seq![
            "table_catalog"@,
            "table_schema"@,
            "table_name"@,
            "column_name"@,
            "ordinal_position"@,
            "column_default"@,
            "is_nullable"@,
            "data_type"@,
            "character_maximum_length"@,
            "character_octet_length"@,
            "numeric_precision"@,
            "numeric_precision_radix"@,
            "numeric_scale"@,
            "datetime_precision"@,
            "interval_type"@,
            "interval_precision"@,
            "character_set_catalog"@,
            "character_set_schema"@,
            "character_set_name"@,
            "collation_catalog"@,
            "collation_schema"@,
            "collation_name"@,
            "domain_catalog"@,
            "domain_schema"@,
            "domain_name"@,
            "udt_catalog"@,
            "udt_schema"@,
            "udt_name"@,
            "scope_catalog"@,
            "scope_schema"@,
            "scope_name"@,
            "maximum_cardinality"@,
            "dtd_identifier"@,
            "is_self_referencing"@,
            "is_identity"@,
            "identity_generation"@,
            "identity_start"@,
            "identity_increment"@,
            "identity_maximum"@,
            "identity_minimum"@,
            "identity_cycle"@,
            "is_generated"@,
            "generation_expression"@,
            "is_updatable"@,
        ]);
        Some(columns)
    } else if text::text_eq(table, "information_schema.domains") {
        let columns = text::names(
            &[
                "domain_catalog",
                "domain_schema",
                "domain_name",
                "data_type",
                "character_maximum_length",
                "character_octet_length",
                "character_set_catalog",
                "character_set_schema",
                "character_set_name",
                "collation_catalog",
                "collation_schema",
                "collation_name",
                "numeric_precision",
                "numeric_precision_radix",
                "numeric_scale",
                "datetime_precision",
                "interval_type",
                "interval_precision",
                "domain_default",
                "udt_catalog",
                "udt_schema",
                "udt_name",
                "scope_catalog",
                "scope_schema",
                "scope_name",
                "maximum_cardinality",
                "dtd_identifier",
            ],
        );
        assert(text::views(columns@) =~= seq![
            "domain_catalog"@,
            "domain_schema"@,
            "domain_name"@,
            "data_type"@,
            "character_maximum_length"@,
            "character_octet_length"@,
            "character_set_catalog"@,
            "character_set_schema"@,
            "character_set_name"@,
            "collation_catalog"@,
            "collation_schema"@,
            "collation_name"@,
            "numeric_precision"@,
            "numeric_precision_radix"@,
            "numeric_scale"@,
            "datetime_precision"@,
            "interval_type"@,
            "interval_precision"@,
            "domain_default"@,
            "udt_catalog"@,
            "udt_schema"@,
            "udt_name"@,
            "scope_catalog"@,
            "scope_schema"@,
            "scope_name"@,
            "maximum_cardinality"@,
            "dtd_identifier"@,
        ]);
        Some(columns)
    } else if text::text_eq(table, "information_schema.element_types") {
        let columns = text::names(
            &[
                "object_catalog",
                "object_schema",
                "object_name",
                "object_type",
                "collection_type_identifier",
                "data_type",
                "character_maximum_length",
                "character_octet_length",
                "character_set_catalog",
                "character_set_schema",
                "character_set_name",
                "collation_catalog",
                "collation_schema",
                "collation_name",
                "numeric_precision",
                "numeric_precision_radix",
                "numeric_scale",
                "datetime_precision",
                "interval_type",
                "interval_precision",
                "udt_catalog",
                "udt_schema",
                "udt_name",
                "scope_catalog",
                "scope_schema",
                "scope_name",
                "maximum_cardinality",
                "dtd_identifier",
            ],
        );
        assert(text::views(columns@) =~= seq![
            "object_catalog"@,
            "object_schema"@,
            "object_name"@,
            "object_type"@,
            "collection_type_identifier"@,
            "data_type"@,
            "character_maximum_length"@,
            "character_octet_length"@,
            "character_set_catalog"@,
            "character_set_schema"@,
            "character_set_name"@,
            "collation_catalog"@,
            "collation_schema"@,
            "collation_name"@,
            "numeric_precision"@,
            "numeric_precision_radix"@,
            "numeric_scale"@,
            "datetime_precision"@,
            "interval_type"@,
            "interval_precision"@,
            "udt_catalog"@,
            "udt_schema"@,
            "udt_name"@,
            "scope_catalog"@,
            "scope_schema"@,
            "scope_name"@,
            "maximum_cardinality"@,
            "dtd_identifier"@,
        ]);
        Some(columns)
    } else if text::text_eq(table, "information_schema.user_defined_types") {
        let columns = text::names(
            &[
                "user_defined_type_catalog",
                "user_defined_type_schema",
                "user_defined_type_name",
                "user_defined_type_category",
                "is_instantiable",
                "is_final",
                "ordering_form",
                "ordering_category",
                "ordering_routine_catalog",
                "ordering_routine_schema",
                "ordering_routine_name",
                "reference_type",
                "data_type",
                "character_maximum_length",
                "character_octet_length",
                "character_set_catalog",
                "character_set_schema",
                "character_set_name",
                "collation_catalog",
                "collation_schema",
                "collation_name",
                "numeric_precision",
                "numeric_precision_radix",
                "numeric_scale",
                "datetime_precision",
                "interval_type",
                "interval_precision",
                "source_dtd_identifier",
                "ref_dtd_identifier",
            ],
        );
        assert(text::views(columns@) =~= seq![
            "user_defined_type_catalog"@,
            "user_defined_type_schema"@,
            "user_defined_type_name"@,
            "user_defined_type_category"@,
            "is_instantiable"@,
            "is_final"@,
            "ordering_form"@,
            "ordering_category"@,
            "ordering_routine_catalog"@,
            "ordering_routine_schema"@,
            "ordering_routine_name"@,
            "reference_type"@,
            "data_type"@,
            "character_maximum_length"@,
            "character_octet_length"@,
            "character_set_catalog"@,
            "character_set_schema"@,
            "character_set_name"@,
            "collation_catalog"@,
            "collation_schema"@,
            "collation_name"@,
            "numeric_precision"@,
            "numeric_precision_radix"@,
            "numeric_scale"@,
            "datetime_precision"@,
            "interval_type"@,
            "interval_precision"@,
            "source_dtd_identifier"@,
            "ref_dtd_identifier"@,
        ]);
        Some(columns)
    } else if text::text_eq(table, "information_schema.routines") {
        let columns = text::names(
            &[
                "specific_catalog",
                "specific_schema",
                "specific_name",
                "routine_catalog",
                "routine_schema",
                "routine_name",
                "routine_type",
                "module_catalog",
                "module_schema",
                "module_name",
                "udt_catalog",
                "udt_schema",
                "udt_name",
                "data_type",
                "character_maximum_length",
                "character_octet_length",
                "character_set_catalog",
                "character_set_schema",
                "character_set_name",
                "collation_catalog",
                "collation_schema",
                "collation_name",
                "numeric_precision",
                "numeric_precision_radix",
                "numeric_scale",
                "datetime_precision",
                "interval_type",
                "interval_precision",
                "type_udt_catalog",
                "type_udt_schema",
                "type_udt_name",
                "scope_catalog",
                "scope_schema",
                "scope_name",
                "maximum_cardinality",
                "dtd_identifier",
                "routine_body",
                "routine_definition",
                "external_name",
                "external_language",
                "parameter_style",
                "is_deterministic",
                "sql_data_access",
                "is_null_call",
                "sql_path",
                "schema_level_routine",
                "max_dynamic_result_sets",
                "is_user_defined_cast",
                "is_implicitly_invocable",
                "security_type",
                "to_sql_specific_catalog",
                "to_sql_specific_schema",
                "to_sql_specific_name",
                "as_locator",
                "created",
                "last_altered",
                "new_savepoint_level",
                "is_udt_dependent",
                "result_cast_from_data_type",
                "result_cast_as_locator",
                "result_cast_char_max_length",
                "result_cast_char_octet_length",
                "result_cast_char_set_catalog",
                "result_cast_char_set_schema",
                "result_cast_char_set_name",
                "result_cast_collation_catalog",
                "result_cast_collation_schema",
                "result_cast_collation_name",
                "result_cast_numeric_precision",
                "result_cast_numeric_precision_radix",
                "result_cast_numeric_scale",
                "result_cast_datetime_precision",
                "result_cast_interval_type",
                "result_cast_interval_precision",
                "result_cast_type_udt_catalog",
                "result_cast_type_udt_schema",
                "result_cast_type_udt_name",
                "result_cast_scope_catalog",
                "result_cast_scope_schema",
                "result_cast_scope_name",
                "result_cast_maximum_cardinality",
                "result_cast_dtd_identifier",
            ],
        );
        assert(text::views(columns@) =~= seq![
            "specific_catalog"@,
            "specific_schema"@,
            "specific_name"@,
            "routine_catalog"@,
            "routine_schema"@,
            "routine_name"@,
            "routine_type"@,
            "module_catalog"@,
            "module_schema"@,
            "module_name"@,
            "udt_catalog"@,
            "udt_schema"@,
            "udt_name"@,
            "data_type"@,
            "character_maximum_length"@,
            "character_octet_length"@,
            "character_set_catalog"@,
            "character_set_schema"@,
            "character_set_name"@,
            "collation_catalog"@,
            "collation_schema"@,
            "collation_name"@,
            "numeric_precision"@,
            "numeric_precision_radix"@,
            "numeric_scale"@,
            "datetime_precision"@,
            "interval_type"@,
            "interval_precision"@,
            "type_udt_catalog"@,
            "type_udt_schema"@,
            "type_udt_name"@,
            "scope_catalog"@,
            "scope_schema"@,
            "scope_name"@,
            "maximum_cardinality"@,
            "dtd_identifier"@,
            "routine_body"@,
            "routine_definition"@,
            "external_name"@,
            "external_language"@,
            "parameter_style"@,
            "is_deterministic"@,
            "sql_data_access"@,
            "is_null_call"@,
            "sql_path"@,
            "schema_level_routine"@,
            "max_dynamic_result_sets"@,
            "is_user_defined_cast"@,
            "is_implicitly_invocable"@,
            "security_type"@,
            "to_sql_specific_catalog"@,
            "to_sql_specific_schema"@,
            "to_sql_specific_name"@,
            "as_locator"@,
            "created"@,
            "last_altered"@,
            "new_savepoint_level"@,
            "is_udt_dependent"@,
            "result_cast_from_data_type"@,
            "result_cast_as_locator"@,
            "result_cast_char_max_length"@,
            "result_cast_char_octet_length"@,
            "result_cast_char_set_catalog"@,
            "result_cast_char_set_schema"@,
            "result_cast_char_set_name"@,
            "result_cast_collation_catalog"@,
            "result_cast_collation_schema"@,
            "result_cast_collation_name"@,
            "result_cast_numeric_precision"@,
            "result_cast_numeric_precision_radix"@,
            "result_cast_numeric_scale"@,
            "result_cast_datetime_precision"@,
            "result_cast_interval_type"@,
            "result_cast_interval_precision"@,
            "result_cast_type_udt_catalog"@,
            "result_cast_type_udt_schema"@,
            "result_cast_type_udt_name"@,
            "result_cast_scope_catalog"@,
            "result_cast_scope_schema"@,
            "result_cast_scope_name"@,
            "result_cast_maximum_cardinality"@,
            "result_cast_dtd_identifier"@,
        ]);
        Some(columns)
    } else if text::text_eq(table, "information_schema.parameters") {
        let columns = text::names(
            &[
                "specific_catalog",
                "specific_schema",
                "specific_name",
                "ordinal_position",
                "parameter_mode",
                "is_result",
                "as_locator",
                "parameter_name",
                "data_type",
                "character_maximum_length",
                "character_octet_length",
                "character_set_catalog",
                "character_set_schema",
                "character_set_name",
                "collation_catalog",
                "collation_schema",
                "collation_name",
                "numeric_precision",
                "numeric_precision_radix",
                "numeric_scale",
                "datetime_precision",
                "interval_type",
                "interval_precision",
                "udt_catalog",
                "udt_schema",
                "udt_name",
                "scope_catalog",
                "scope_schema",
                "scope_name",
                "maximum_cardinality",
                "dtd_identifier",
                "parameter_default",
            ],
        );
        assert(text::views(columns@) =~= seq![
            "specific_catalog"@,
            "specific_schema"@,
            "specific_name"@,
            "ordinal_position"@,
            "parameter_mode"@,
            "is_result"@,
            "as_locator"@,
            "parameter_name"@,
            "data_type"@,
            "character_maximum_length"@,
            "character_octet_length"@,
            "character_set_catalog"@,
            "character_set_schema"@,
            "character_set_name"@,
            "collation_catalog"@,
            "collation_schema"@,
            "collation_name"@,
            "numeric_precision"@,
            "numeric_precision_radix"@,
            "numeric_scale"@,
            "datetime_precision"@,
            "interval_type"@,
            "interval_precision"@,
            "udt_catalog"@,
            "udt_schema"@,
            "udt_name"@,
            "scope_catalog"@,
            "scope_schema"@,
            "scope_name"@,
            "maximum_cardinality"@,
            "dtd_identifier"@,
            "parameter_default"@,
        ]);
        Some(columns)
    } else {
        None
    }
}

/// The columns of a table of replication.
pub open spec fn replication_columns(table: Seq<char>) -> Option<Seq<Seq<char>>> {
    if table == "bicdb_replication_status"@ {
        Some(
            seq![
                "cluster_id"@,
                "source_node_id"@,
                "stream_id"@,
                "current_commit_seq"@,
                "last_applied_commit_seq"@,
                "oldest_available_commit_seq"@,
                "newest_available_commit_seq"@,
                "retained_commits"@,
                "retained_bytes"@,
                "last_applied_at"@,
                "last_error"@,
            ],
        )
    } else if table == "bicdb_replication_lag"@ {
        Some(
            seq!["source_commit_seq"@, "last_applied_commit_seq"@, "lag_commits"@],
        )
    } else if table == "bicdb_replication_nodes"@ {
        Some(
            seq!["node_id"@, "role"@, "connected"@, "last_seen_at"@],
        )
    } else if table == "bicdb_replication_errors"@ {
        Some(
            seq!["occurred_at"@, "node_id"@, "code"@, "message"@],
        )
    } else if table == "bicdb_consensus_status"@ {
        Some(
            seq![
                "cluster_id"@,
                "node_id"@,
                "role"@,
                "current_term"@,
                "leader_id"@,
                "commit_index"@,
                "last_applied"@,
                "last_log_index"@,
                "voter_count"@,
            ],
        )
    } else {
        None
    }
}

fn replication_table(table: &str) -> (r: Option<Vec<String>>)
    ensures
        list_view(r) == replication_columns(table@),
{
    if text::text_eq(table, "bicdb_replication_status") {
        let columns = text::names(
            &[
                "cluster_id",
                "source_node_id",
                "stream_id",
                "current_commit_seq",
                "last_applied_commit_seq",
                "oldest_available_commit_seq",
                "newest_available_commit_seq",
                "retained_commits",
                "retained_bytes",
                "last_applied_at",
                "last_error",
            ],
        );
        assert(text::views(columns@) =~= seq![
            "cluster_id"@,
            "source_node_id"@,
            "stream_id"@,
            "current_commit_seq"@,
            "last_applied_commit_seq"@,
            "oldest_available_commit_seq"@,
            "newest_available_commit_seq"@,
            "retained_commits"@,
            "retained_bytes"@,
            "last_applied_at"@,
            "last_error"@,
        ]);
        Some(columns)
    } else if text::text_eq(table, "bicdb_replication_lag") {
        let columns = text::names(
            &["source_commit_seq", "last_applied_commit_seq", "lag_commits"],
        );
        assert(text::views(columns@) =~= seq!["source_commit_seq"@, "last_applied_commit_seq"@, "lag_commits"@]);
        Some(columns)
    } else if text::text_eq(table, "bicdb_replication_nodes") {
        let columns = text::names(
            &["node_id", "role", "connected", "last_seen_at"],
        );
        assert(text::views(columns@) =~= seq!["node_id"@, "role"@, "connected"@, "last_seen_at"@]);
        Some(columns)
    } else if text::text_eq(table, "bicdb_replication_errors") {
        let columns = text::names(
            &["occurred_at", "node_id", "code", "message"],
        );
        assert(text::views(columns@) =~= seq!["occurred_at"@, "node_id"@, "code"@, "message"@]);
        Some(columns)
    } else if text::text_eq(table, "bicdb_consensus_status") {
        let columns = text::names(
            &[
                "cluster_id",
                "node_id",
                "role",
                "current_term",
                "leader_id",
                "commit_index",
                "last_applied",
                "last_log_index",
                "voter_count",
            ],
        );
        assert(text::views(columns@) =~= seq![
            "cluster_id"@,
            "node_id"@,
            "role"@,
            "current_term"@,
            "leader_id"@,
            "commit_index"@,
            "last_applied"@,
            "last_log_index"@,
            "voter_count"@,
        ]);
        Some(columns)
    } else {
        None
    }
}

/// The columns of a table of objects and their dependencies.
pub open spec fn object_columns(table: Seq<char>) -> Option<Seq<Seq<char>>> {
    if table == "pg_init_privs"@ {
        Some(
            seq!["objoid"@, "classoid"@, "objsubid"@, "privtype"@, "initprivs"@],
        )
    } else if table == "pg_description"@ {
        Some(
            seq!["objoid"@, "classoid"@, "objsubid"@, "description"@],
        )
    } else if table == "pg_cast"@ {
        Some(
            seq![
                "oid"@,
                "castsource"@,
                "casttarget"@,
                "castfunc"@,
                "castcontext"@,
                "castmethod"@,
            ],
        )
    } else if table == "pg_transform"@ {
        Some(
            seq!["oid"@, "trftype"@, "trflang"@, "trffromsql"@, "trftosql"@],
        )
    } else if table == "pg_rewrite"@ {
        Some(
            seq![
                "oid"@,
                "rulename"@,
                "ev_class"@,
                "ev_type"@,
                "ev_enabled"@,
                "is_instead"@,
                "ev_qual"@,
                "ev_action"@,
            ],
        )
    } else if table == "pg_language"@ {
        Some(
            seq![
                "oid"@,
                "lanname"@,
                "lanowner"@,
                "lanispl"@,
                "lanpltrusted"@,
                "lanplcallfoid"@,
                "laninline"@,
                "lanvalidator"@,
                "lanacl"@,
            ],
        )
    } else if table == "pg_depend"@ {
        Some(
            seq![
                "classid"@,
                "objid"@,
                "objsubid"@,
                "refclassid"@,
                "refobjid"@,
                "refobjsubid"@,
                "deptype"@,
            ],
        )
    } else if table == "pg_seclabel"@ || table == "pg_seclabels"@ {
        Some(
            seq!["objoid"@, "classoid"@, "objsubid"@, "provider"@, "label"@],
        )
    } else if table == "pg_shseclabel"@ {
        Some(
            seq!["objoid"@, "classoid"@, "provider"@, "label"@],
        )
    } else if table == "pg_default_acl"@ {
        Some(
            seq![
                "oid"@,
                "defaclrole"@,
                "defaclnamespace"@,
                "defaclobjtype"@,
                "defaclacl"@,
            ],
        )
    } else if table == "pg_largeobject_metadata"@ {
        Some(
            seq!["oid"@, "lomowner"@, "lomacl"@],
        )
    } else if table == "pg_db_role_setting"@ {
        Some(
            seq!["setdatabase"@, "setrole"@, "setconfig"@],
        )
    } else if table == "pg_conversion"@ {
        Some(
            seq![
                "oid"@,
                "conname"@,
                "connamespace"@,
                "conowner"@,
                "conforencoding"@,
                "contoencoding"@,
                "conproc"@,
                "condefault"@,
            ],
        )
    } else if table == "pg_event_trigger"@ {
        Some(
            seq![
                "oid"@,
                "evtname"@,
                "evtevent"@,
                "evtowner"@,
                "evtfoid"@,
                "evtenabled"@,
                "evttags"@,
            ],
        )
    } else {
        None
    }
}

fn object_table(table: &str) -> (r: Option<Vec<String>>)
    ensures
        list_view(r) == object_columns(table@),
{
    if text::text_eq(table, "pg_init_privs") {
        let columns = text::names(
            &["objoid", "classoid", "objsubid", "privtype", "initprivs"],
        );
        assert(text::views(columns@) =~= seq!["objoid"@, "classoid"@, "objsubid"@, "privtype"@, "initprivs"@]);
        Some(columns)
    } else if text::text_eq(table, "pg_description") {
        let columns = text::names(
            &["objoid", "classoid", "objsubid", "description"],
        );
        assert(text::views(columns@) =~= seq!["objoid"@, "classoid"@, "objsubid"@, "description"@]);
        Some(columns)
    } else if text::text_eq(table, "pg_cast") {
        let columns = text::names(
            &["oid", "castsource", "casttarget", "castfunc", "castcontext", "castmethod"],
        );
        assert(text::views(columns@) =~= seq![
            "oid"@,
            "castsource"@,
            "casttarget"@,
            "castfunc"@,
            "castcontext"@,
            "castmethod"@,
        ]);
        Some(columns)
    } else if text::text_eq(table, "pg_transform") {
        let columns = text::names(
            &["oid", "trftype", "trflang", "trffromsql", "trftosql"],
        );
        assert(text::views(columns@) =~= seq!["oid"@, "trftype"@, "trflang"@, "trffromsql"@, "trftosql"@]);
        Some(columns)
    } else if text::text_eq(table, "pg_rewrite") {
        let columns = text::names(
            &[
                "oid",
                "rulename",
                "ev_class",
                "ev_type",
                "ev_enabled",
                "is_instead",
                "ev_qual",
                "ev_action",
            ],
        );
        assert(text::views(columns@) =~= seq![
            "oid"@,
            "rulename"@,
            "ev_class"@,
            "ev_type"@,
            "ev_enabled"@,
            "is_instead"@,
            "ev_qual"@,
            "ev_action"@,
        ]);
        Some(columns)
    } else if text::text_eq(table, "pg_language") {
        let columns = text::names(
            &[
                "oid",
                "lanname",
                "lanowner",
                "lanispl",
                "lanpltrusted",
                "lanplcallfoid",
                "laninline",
                "lanvalidator",
                "lanacl",
            ],
        );
        assert(text::views(columns@) =~= seq![
            "oid"@,
            "lanname"@,
            "lanowner"@,
            "lanispl"@,
            "lanpltrusted"@,
            "lanplcallfoid"@,
            "laninline"@,
            "lanvalidator"@,
            "lanacl"@,
        ]);
        Some(columns)
    } else if text::text_eq(table, "pg_depend") {
        let columns = text::names(
            &[
                "classid",
                "objid",
                "objsubid",
                "refclassid",
                "refobjid",
                "refobjsubid",
                "deptype",
            ],
        );
        assert(text::views(columns@) =~= seq![
            "classid"@,
            "objid"@,
            "objsubid"@,
            "refclassid"@,
            "refobjid"@,
            "refobjsubid"@,
            "deptype"@,
        ]);
        Some(columns)
    } else if text::text_eq(table, "pg_seclabel") || text::text_eq(table, "pg_seclabels") {
        let columns = text::names(
            &["objoid", "classoid", "objsubid", "provider", "label"],
        );
        assert(text::views(columns@) =~= seq!["objoid"@, "classoid"@, "objsubid"@, "provider"@, "label"@]);
        Some(columns)
    } else if text::text_eq(table, "pg_shseclabel") {
        let columns = text::names(
            &["objoid", "classoid", "provider", "label"],
        );
        assert(text::views(columns@) =~= seq!["objoid"@, "classoid"@, "provider"@, "label"@]);
        Some(columns)
    } else if text::text_eq(table, "pg_default_acl") {
        let columns = text::names(
            &["oid", "defaclrole", "defaclnamespace", "defaclobjtype", "defaclacl"],
        );
        assert(text::views(columns@) =~= seq!["oid"@, "defaclrole"@, "defaclnamespace"@, "defaclobjtype"@, "defaclacl"@]);
        Some(columns)
    } else if text::text_eq(table, "pg_largeobject_metadata") {
        let columns = text::names(
            &["oid", "lomowner", "lomacl"],
        );
        assert(text::views(columns@) =~= seq!["oid"@, "lomowner"@, "lomacl"@]);
        Some(columns)
    } else if text::text_eq(table, "pg_db_role_setting") {
        let columns = text::names(
            &["setdatabase", "setrole", "setconfig"],
        );
        assert(text::views(columns@) =~= seq!["setdatabase"@, "setrole"@, "setconfig"@]);
        Some(columns)
    } else if text::text_eq(table, "pg_conversion") {
        let columns = text::names(
            &[
                "oid",
                "conname",
                "connamespace",
                "conowner",
                "conforencoding",
                "contoencoding",
                "conproc",
                "condefault",
            ],
        );
        assert(text::views(columns@) =~= seq![
            "oid"@,
            "conname"@,
            "connamespace"@,
            "conowner"@,
            "conforencoding"@,
            "contoencoding"@,
            "conproc"@,
            "condefault"@,
        ]);
        Some(columns)
    } else if text::text_eq(table, "pg_event_trigger") {
        let columns = text::names(
            &[
                "oid",
                "evtname",
                "evtevent",
                "evtowner",
                "evtfoid",
                "evtenabled",
                "evttags",
            ],
        );
        assert(text::views(columns@) =~= seq![
            "oid"@,
            "evtname"@,
            "evtevent"@,
            "evtowner"@,
            "evtfoid"@,
            "evtenabled"@,
            "evttags"@,
        ]);
        Some(columns)
    } else {
        None
    }
}

/// The columns of a table of operators and access methods.
pub open spec fn operator_columns(table: Seq<char>) -> Option<Seq<Seq<char>>> {
    if table == "pg_operator"@ {
        Some(
            seq![
                "oid"@,
                "oprname"@,
                "oprnamespace"@,
                "oprowner"@,
                "oprkind"@,
                "oprcanmerge"@,
                "oprcanhash"@,
                "oprleft"@,
                "oprright"@,
                "oprresult"@,
                "oprcom"@,
                "oprnegate"@,
                "oprcode"@,
                "oprrest"@,
                "oprjoin"@,
            ],
        )
    } else if table == "pg_opclass"@ {
        Some(
            seq![
                "oid"@,
                "opcmethod"@,
                "opcname"@,
                "opcnamespace"@,
                "opcowner"@,
                "opcfamily"@,
                "opcintype"@,
                "opcdefault"@,
                "opckeytype"@,
            ],
        )
    } else if table == "pg_opfamily"@ {
        Some(
            seq!["oid"@, "opfmethod"@, "opfname"@, "opfnamespace"@, "opfowner"@],
        )
    } else if table == "pg_amop"@ {
        Some(
            seq![
                "oid"@,
                "amopfamily"@,
                "amoplefttype"@,
                "amoprighttype"@,
                "amopstrategy"@,
                "amoppurpose"@,
                "amopopr"@,
                "amopmethod"@,
                "amopsortfamily"@,
            ],
        )
    } else if table == "pg_amproc"@ {
        Some(
            seq![
                "oid"@,
                "amprocfamily"@,
                "amproclefttype"@,
                "amprocrighttype"@,
                "amprocnum"@,
                "amproc"@,
            ],
        )
    } else {
        None
    }
}

fn operator_table(table: &str) -> (r: Option<Vec<String>>)
    ensures
        list_view(r) == operator_columns(table@),
{
    if text::text_eq(table, "pg_operator") {
        let columns = text::names(
            &[
                "oid",
                "oprname",
                "oprnamespace",
                "oprowner",
                "oprkind",
                "oprcanmerge",
                "oprcanhash",
                "oprleft",
                "oprright",
                "oprresult",
                "oprcom",
                "oprnegate",
                "oprcode",
                "oprrest",
                "oprjoin",
            ],
        );
        assert(text::views(columns@) =~= seq![
            "oid"@,
            "oprname"@,
            "oprnamespace"@,
            "oprowner"@,
            "oprkind"@,
            "oprcanmerge"@,
            "oprcanhash"@,
            "oprleft"@,
            "oprright"@,
            "oprresult"@,
            "oprcom"@,
            "oprnegate"@,
            "oprcode"@,
            "oprrest"@,
            "oprjoin"@,
        ]);
        Some(columns)
    } else if text::text_eq(table, "pg_opclass") {
        let columns = text::names(
            &[
                "oid",
                "opcmethod",
                "opcname",
                "opcnamespace",
                "opcowner",
                "opcfamily",
                "opcintype",
                "opcdefault",
                "opckeytype",
            ],
        );
        assert(text::views(columns@) =~= seq![
            "oid"@,
            "opcmethod"@,
            "opcname"@,
            "opcnamespace"@,
            "opcowner"@,
            "opcfamily"@,
            "opcintype"@,
            "opcdefault"@,
            "opckeytype"@,
        ]);
        Some(columns)
    } else if text::text_eq(table, "pg_opfamily") {
        let columns = text::names(
            &["oid", "opfmethod", "opfname", "opfnamespace", "opfowner"],
        );
        assert(text::views(columns@) =~= seq!["oid"@, "opfmethod"@, "opfname"@, "opfnamespace"@, "opfowner"@]);
        Some(columns)
    } else if text::text_eq(table, "pg_amop") {
        let columns = text::names(
            &[
                "oid",
                "amopfamily",
                "amoplefttype",
                "amoprighttype",
                "amopstrategy",
                "amoppurpose",
                "amopopr",
                "amopmethod",
                "amopsortfamily",
            ],
        );
        assert(text::views(columns@) =~= seq![
            "oid"@,
            "amopfamily"@,
            "amoplefttype"@,
            "amoprighttype"@,
            "amopstrategy"@,
            "amoppurpose"@,
            "amopopr"@,
            "amopmethod"@,
            "amopsortfamily"@,
        ]);
        Some(columns)
    } else if text::text_eq(table, "pg_amproc") {
        let columns = text::names(
            &[
                "oid",
                "amprocfamily",
                "amproclefttype",
                "amprocrighttype",
                "amprocnum",
                "amproc",
            ],
        );
        assert(text::views(columns@) =~= seq![
            "oid"@,
            "amprocfamily"@,
            "amproclefttype"@,
            "amprocrighttype"@,
            "amprocnum"@,
            "amproc"@,
        ]);
        Some(columns)
    } else {
        None
    }
}

/// The columns of a table of text search.
pub open spec fn text_search_columns(table: Seq<char>) -> Option<Seq<Seq<char>>> {
    if table == "pg_ts_parser"@ {
        Some(
            seq![
                "oid"@,
                "prsname"@,
                "prsnamespace"@,
                "prsstart"@,
                "prstoken"@,
                "prsend"@,
                "prsheadline"@,
                "prslextype"@,
            ],
        )
    } else if table == "pg_ts_dict"@ {
        Some(
            seq![
                "oid"@,
                "dictname"@,
                "dictnamespace"@,
                "dictowner"@,
                "dicttemplate"@,
                "dictinitoption"@,
            ],
        )
    } else if table == "pg_ts_template"@ {
        Some(
            seq!["oid"@, "tmplname"@, "tmplnamespace"@, "tmplinit"@, "tmpllexize"@],
        )
    } else if table == "pg_ts_config"@ {
        Some(
            seq!["oid"@, "cfgname"@, "cfgnamespace"@, "cfgowner"@, "cfgparser"@],
        )
    } else if table == "pg_ts_config_map"@ {
        Some(
            seq!["mapcfg"@, "maptokentype"@, "mapseqno"@, "mapdict"@],
        )
    } else {
        None
    }
}

fn text_search_table(table: &str) -> (r: Option<Vec<String>>)
    ensures
        list_view(r) == text_search_columns(table@),
{
    if text::text_eq(table, "pg_ts_parser") {
        let columns = text::names(
            &[
                "oid",
                "prsname",
                "prsnamespace",
                "prsstart",
                "prstoken",
                "prsend",
                "prsheadline",
                "prslextype",
            ],
        );
        assert(text::views(columns@) =~= seq![
            "oid"@,
            "prsname"@,
            "prsnamespace"@,
            "prsstart"@,
            "prstoken"@,
            "prsend"@,
            "prsheadline"@,
            "prslextype"@,
        ]);
        Some(columns)
    } else if text::text_eq(table, "pg_ts_dict") {
        let columns = text::names(
            &[
                "oid",
                "dictname",
                "dictnamespace",
                "dictowner",
                "dicttemplate",
                "dictinitoption",
            ],
        );
        assert(text::views(columns@) =~= seq![
            "oid"@,
            "dictname"@,
            "dictnamespace"@,
            "dictowner"@,
            "dicttemplate"@,
            "dictinitoption"@,
        ]);
        Some(columns)
    } else if text::text_eq(table, "pg_ts_template") {
        let columns = text::names(
            &["oid", "tmplname", "tmplnamespace", "tmplinit", "tmpllexize"],
        );
        assert(text::views(columns@) =~= seq!["oid"@, "tmplname"@, "tmplnamespace"@, "tmplinit"@, "tmpllexize"@]);
        Some(columns)
    } else if text::text_eq(table, "pg_ts_config") {
        let columns = text::names(
            &["oid", "cfgname", "cfgnamespace", "cfgowner", "cfgparser"],
        );
        assert(text::views(columns@) =~= seq!["oid"@, "cfgname"@, "cfgnamespace"@, "cfgowner"@, "cfgparser"@]);
        Some(columns)
    } else if text::text_eq(table, "pg_ts_config_map") {
        let columns = text::names(
            &["mapcfg", "maptokentype", "mapseqno", "mapdict"],
        );
        assert(text::views(columns@) =~= seq!["mapcfg"@, "maptokentype"@, "mapseqno"@, "mapdict"@]);
        Some(columns)
    } else {
        None
    }
}

/// The columns of a table of foreign data and roles.
pub open spec fn foreign_columns(table: Seq<char>) -> Option<Seq<Seq<char>>> {
    if table == "pg_foreign_data_wrapper"@ {
        Some(
            seq![
                "oid"@,
                "fdwname"@,
                "fdwowner"@,
                "fdwhandler"@,
                "fdwvalidator"@,
                "fdwacl"@,
                "fdwoptions"@,
            ],
        )
    } else if table == "pg_foreign_server"@ {
        Some(
            seq![
                "oid"@,
                "srvname"@,
                "srvowner"@,
                "srvfdw"@,
                "srvtype"@,
                "srvversion"@,
                "srvacl"@,
                "srvoptions"@,
            ],
        )
    } else if table == "pg_foreign_table"@ {
        Some(
            seq!["ftrelid"@, "ftserver"@, "ftoptions"@],
        )
    } else if table == "pg_user_mappings"@ {
        Some(
            seq!["umid"@, "srvid"@, "srvname"@, "umuser"@, "usename"@, "umoptions"@],
        )
    } else if table == "pg_auth_members"@ {
        Some(
            seq![
                "roleid"@,
                "member"@,
                "grantor"@,
                "admin_option"@,
                "inherit_option"@,
                "set_option"@,
            ],
        )
    } else {
        None
    }
}

fn foreign_table(table: &str) -> (r: Option<Vec<String>>)
    ensures
        list_view(r) == foreign_columns(table@),
{
    if text::text_eq(table, "pg_foreign_data_wrapper") {
        let columns = text::names(
            &[
                "oid",
                "fdwname",
                "fdwowner",
                "fdwhandler",
                "fdwvalidator",
                "fdwacl",
                "fdwoptions",
            ],
        );
        assert(text::views(columns@) =~= seq![
            "oid"@,
            "fdwname"@,
            "fdwowner"@,
            "fdwhandler"@,
            "fdwvalidator"@,
            "fdwacl"@,
            "fdwoptions"@,
        ]);
        Some(columns)
    } else if text::text_eq(table, "pg_foreign_server") {
        let columns = text::names(
            &[
                "oid",
                "srvname",
                "srvowner",
                "srvfdw",
                "srvtype",
                "srvversion",
                "srvacl",
                "srvoptions",
            ],
        );
        assert(text::views(columns@) =~= seq![
            "oid"@,
            "srvname"@,
            "srvowner"@,
            "srvfdw"@,
            "srvtype"@,
            "srvversion"@,
            "srvacl"@,
            "srvoptions"@,
        ]);
        Some(columns)
    } else if text::text_eq(table, "pg_foreign_table") {
        let columns = text::names(
            &["ftrelid", "ftserver", "ftoptions"],
        );
        assert(text::views(columns@) =~= seq!["ftrelid"@, "ftserver"@, "ftoptions"@]);
        Some(columns)
    } else if text::text_eq(table, "pg_user_mappings") {
        let columns = text::names(
            &["umid", "srvid", "srvname", "umuser", "usename", "umoptions"],
        );
        assert(text::views(columns@) =~= seq!["umid"@, "srvid"@, "srvname"@, "umuser"@, "usename"@, "umoptions"@]);
        Some(columns)
    } else if text::text_eq(table, "pg_auth_members") {
        let columns = text::names(
            &[
                "roleid",
                "member",
                "grantor",
                "admin_option",
                "inherit_option",
                "set_option",
            ],
        );
        assert(text::views(columns@) =~= seq![
            "roleid"@,
            "member"@,
            "grantor"@,
            "admin_option"@,
            "inherit_option"@,
            "set_option"@,
        ]);
        Some(columns)
    } else {
        None
    }
}

/// The columns of a table of publications and subscriptions.
pub open spec fn publication_columns(table: Seq<char>) -> Option<Seq<Seq<char>>> {
    if table == "pg_subscription"@ {
        Some(
            seq![
                "oid"@,
                "subdbid"@,
                "subskiplsn"@,
                "subname"@,
                "subowner"@,
                "subenabled"@,
                "subbinary"@,
                "substream"@,
                "subtwophasestate"@,
                "subdisableonerr"@,
                "subpasswordrequired"@,
                "subrunasowner"@,
                "subfailover"@,
                "subconninfo"@,
                "subslotname"@,
                "subsynccommit"@,
                "subpublications"@,
                "suborigin"@,
            ],
        )
    } else if table == "pg_subscription_rel"@ {
        Some(
            seq!["srsubid"@, "srrelid"@, "srsubstate"@, "srsublsn"@],
        )
    } else if table == "pg_publication"@ {
        Some(
            seq![
                "oid"@,
                "pubname"@,
                "pubowner"@,
                "puballtables"@,
                "pubinsert"@,
                "pubupdate"@,
                "pubdelete"@,
                "pubtruncate"@,
                "pubviaroot"@,
                "pubgencols"@,
            ],
        )
    } else if table == "pg_publication_rel"@ {
        Some(
            seq!["oid"@, "prpubid"@, "prrelid"@, "prqual"@, "prattrs"@],
        )
    } else if table == "pg_publication_namespace"@ {
        Some(
            seq!["oid"@, "pnpubid"@, "pnnspid"@],
        )
    } else {
        None
    }
}

fn publication_table(table: &str) -> (r: Option<Vec<String>>)
    ensures
        list_view(r) == publication_columns(table@),
{
    if text::text_eq(table, "pg_subscription") {
        let columns = text::names(
            &[
                "oid",
                "subdbid",
                "subskiplsn",
                "subname",
                "subowner",
                "subenabled",
                "subbinary",
                "substream",
                "subtwophasestate",
                "subdisableonerr",
                "subpasswordrequired",
                "subrunasowner",
                "subfailover",
                "subconninfo",
                "subslotname",
                "subsynccommit",
                "subpublications",
                "suborigin",
            ],
        );
        assert(text::views(columns@) =~= seq![
            "oid"@,
            "subdbid"@,
            "subskiplsn"@,
            "subname"@,
            "subowner"@,
            "subenabled"@,
            "subbinary"@,
            "substream"@,
            "subtwophasestate"@,
            "subdisableonerr"@,
            "subpasswordrequired"@,
            "subrunasowner"@,
            "subfailover"@,
            "subconninfo"@,
            "subslotname"@,
            "subsynccommit"@,
            "subpublications"@,
            "suborigin"@,
        ]);
        Some(columns)
    } else if text::text_eq(table, "pg_subscription_rel") {
        let columns = text::names(
            &["srsubid", "srrelid", "srsubstate", "srsublsn"],
        );
        assert(text::views(columns@) =~= seq!["srsubid"@, "srrelid"@, "srsubstate"@, "srsublsn"@]);
        Some(columns)
    } else if text::text_eq(table, "pg_publication") {
        let columns = text::names(
            &[
                "oid",
                "pubname",
                "pubowner",
                "puballtables",
                "pubinsert",
                "pubupdate",
                "pubdelete",
                "pubtruncate",
                "pubviaroot",
                "pubgencols",
            ],
        );
        assert(text::views(columns@) =~= seq![
            "oid"@,
            "pubname"@,
            "pubowner"@,
            "puballtables"@,
            "pubinsert"@,
            "pubupdate"@,
            "pubdelete"@,
            "pubtruncate"@,
            "pubviaroot"@,
            "pubgencols"@,
        ]);
        Some(columns)
    } else if text::text_eq(table, "pg_publication_rel") {
        let columns = text::names(
            &["oid", "prpubid", "prrelid", "prqual", "prattrs"],
        );
        assert(text::views(columns@) =~= seq!["oid"@, "prpubid"@, "prrelid"@, "prqual"@, "prattrs"@]);
        Some(columns)
    } else if text::text_eq(table, "pg_publication_namespace") {
        let columns = text::names(
            &["oid", "pnpubid", "pnnspid"],
        );
        assert(text::views(columns@) =~= seq!["oid"@, "pnpubid"@, "pnnspid"@]);
        Some(columns)
    } else {
        None
    }
}

/// The columns of a table of tables and statistics.
pub open spec fn storage_columns(table: Seq<char>) -> Option<Seq<Seq<char>>> {
    if table == "pg_statistic_ext"@ {
        Some(
            seq![
                "oid"@,
                "stxrelid"@,
                "stxname"@,
                "stxnamespace"@,
                "stxowner"@,
                "stxstattarget"@,
                "stxkeys"@,
                "stxkind"@,
                "stxexprs"@,
            ],
        )
    } else if table == "pg_statistic_ext_data"@ {
        Some(
            seq![
                "stxoid"@,
                "stxdinherit"@,
                "stxdndistinct"@,
                "stxddependencies"@,
                "stxdmcv"@,
                "stxdexpr"@,
            ],
        )
    } else if table == "pg_stats"@ {
        Some(
            seq![
                "schemaname"@,
                "tablename"@,
                "attname"@,
                "inherited"@,
                "null_frac"@,
                "avg_width"@,
                "n_distinct"@,
                "most_common_vals"@,
                "most_common_freqs"@,
                "histogram_bounds"@,
                "correlation"@,
                "most_common_elems"@,
                "most_common_elem_freqs"@,
                "elem_count_histogram"@,
                "range_length_histogram"@,
                "range_empty_frac"@,
                "range_bounds_histogram"@,
            ],
        )
    } else if table == "pg_tables"@ {
        Some(
            seq![
                "schemaname"@,
                "tablename"@,
                "tableowner"@,
                "tablespace"@,
                "hasindexes"@,
                "hasrules"@,
                "hastriggers"@,
                "rowsecurity"@,
            ],
        )
    } else if table == "pg_inherits"@ {
        Some(
            seq!["inhrelid"@, "inhparent"@, "inhseqno"@, "inhdetachpending"@],
        )
    } else if table == "pg_partitioned_table"@ {
        Some(
            seq![
                "partrelid"@,
                "partstrat"@,
                "partnatts"@,
                "partdefid"@,
                "partattrs"@,
                "partclass"@,
                "partcollation"@,
                "partexprs"@,
            ],
        )
    } else {
        None
    }
}

fn storage_table(table: &str) -> (r: Option<Vec<String>>)
    ensures
        list_view(r) == storage_columns(table@),
{
    if text::text_eq(table, "pg_statistic_ext") {
        let columns = text::names(
            &[
                "oid",
                "stxrelid",
                "stxname",
                "stxnamespace",
                "stxowner",
                "stxstattarget",
                "stxkeys",
                "stxkind",
                "stxexprs",
            ],
        );
        assert(text::views(columns@) =~= seq![
            "oid"@,
            "stxrelid"@,
            "stxname"@,
            "stxnamespace"@,
            "stxowner"@,
            "stxstattarget"@,
            "stxkeys"@,
            "stxkind"@,
            "stxexprs"@,
        ]);
        Some(columns)
    } else if text::text_eq(table, "pg_statistic_ext_data") {
        let columns = text::names(
            &[
                "stxoid",
                "stxdinherit",
                "stxdndistinct",
                "stxddependencies",
                "stxdmcv",
                "stxdexpr",
            ],
        );
        assert(text::views(columns@) =~= seq![
            "stxoid"@,
            "stxdinherit"@,
            "stxdndistinct"@,
            "stxddependencies"@,
            "stxdmcv"@,
            "stxdexpr"@,
        ]);
        Some(columns)
    } else if text::text_eq(table, "pg_stats") {
        let columns = text::names(
            &[
                "schemaname",
                "tablename",
                "attname",
                "inherited",
                "null_frac",
                "avg_width",
                "n_distinct",
                "most_common_vals",
                "most_common_freqs",
                "histogram_bounds",
                "correlation",
                "most_common_elems",
                "most_common_elem_freqs",
                "elem_count_histogram",
                "range_length_histogram",
                "range_empty_frac",
                "range_bounds_histogram",
            ],
        );
        assert(text::views(columns@) =~= seq![
            "schemaname"@,
            "tablename"@,
            "attname"@,
            "inherited"@,
            "null_frac"@,
            "avg_width"@,
            "n_distinct"@,
            "most_common_vals"@,
            "most_common_freqs"@,
            "histogram_bounds"@,
            "correlation"@,
            "most_common_elems"@,
            "most_common_elem_freqs"@,
            "elem_count_histogram"@,
            "range_length_histogram"@,
            "range_empty_frac"@,
            "range_bounds_histogram"@,
        ]);
        Some(columns)
    } else if text::text_eq(table, "pg_tables") {
        let columns = text::names(
            &[
                "schemaname",
                "tablename",
                "tableowner",
                "tablespace",
                "hasindexes",
                "hasrules",
                "hastriggers",
                "rowsecurity",
            ],
        );
        assert(text::views(columns@) =~= seq![
            "schemaname"@,
            "tablename"@,
            "tableowner"@,
            "tablespace"@,
            "hasindexes"@,
            "hasrules"@,
            "hastriggers"@,
            "rowsecurity"@,
        ]);
        Some(columns)
    } else if text::text_eq(table, "pg_inherits") {
        let columns = text::names(
            &["inhrelid", "inhparent", "inhseqno", "inhdetachpending"],
        );
        assert(text::views(columns@) =~= seq!["inhrelid"@, "inhparent"@, "inhseqno"@, "inhdetachpending"@]);
        Some(columns)
    } else if text::text_eq(table, "pg_partitioned_table") {
        let columns = text::names(
            &[
                "partrelid",
                "partstrat",
                "partnatts",
                "partdefid",
                "partattrs",
                "partclass",
                "partcollation",
                "partexprs",
            ],
        );
        assert(text::views(columns@) =~= seq![
            "partrelid"@,
            "partstrat"@,
            "partnatts"@,
            "partdefid"@,
            "partattrs"@,
            "partclass"@,
            "partcollation"@,
            "partexprs"@,
        ]);
        Some(columns)
    } else {
        None
    }
}

/// The columns of a table of the server and its activity.
pub open spec fn server_columns(table: Seq<char>) -> Option<Seq<Seq<char>>> {
    if table == "pg_locks"@ {
        Some(
            seq![
                "locktype"@,
                "database"@,
                "relation"@,
                "page"@,
                "tuple"@,
                "virtualxid"@,
                "transactionid"@,
                "classid"@,
                "objid"@,
                "objsubid"@,
                "virtualtransaction"@,
                "pid"@,
                "mode"@,
                "granted"@,
                "fastpath"@,
                "waitstart"@,
            ],
        )
    } else if table == "pg_control_system"@ {
        Some(
            seq![
                "pg_control_version"@,
                "catalog_version_no"@,
                "system_identifier"@,
                "pg_control_last_modified"@,
            ],
        )
    } else if table == "pg_timezone_names"@ {
        Some(
            seq!["name"@, "abbrev"@, "utc_offset"@, "is_dst"@],
        )
    } else if table == "pg_settings"@ {
        Some(
            seq![
                "name"@,
                "setting"@,
                "unit"@,
                "category"@,
                "short_desc"@,
                "extra_desc"@,
                "context"@,
                "vartype"@,
                "source"@,
                "min_val"@,
                "max_val"@,
                "enumvals"@,
                "boot_val"@,
                "reset_val"@,
                "sourcefile"@,
                "sourceline"@,
                "pending_restart"@,
            ],
        )
    } else if table == "pg_stat_all_tables"@ || table == "pg_stat_user_tables"@ {
        Some(
            seq![
                "relid"@,
                "schemaname"@,
                "relname"@,
                "seq_scan"@,
                "seq_tup_read"@,
                "idx_scan"@,
                "idx_tup_fetch"@,
                "n_tup_ins"@,
                "n_tup_upd"@,
                "n_tup_del"@,
                "n_tup_hot_upd"@,
                "n_tup_newpage_upd"@,
                "n_live_tup"@,
                "n_dead_tup"@,
                "n_mod_since_analyze"@,
                "n_ins_since_vacuum"@,
                "last_vacuum"@,
                "last_autovacuum"@,
                "last_analyze"@,
                "last_autoanalyze"@,
                "vacuum_count"@,
                "autovacuum_count"@,
                "analyze_count"@,
                "autoanalyze_count"@,
            ],
        )
    } else if table == "pg_stat_database"@ {
        Some(
            seq![
                "datid"@,
                "datname"@,
                "numbackends"@,
                "xact_commit"@,
                "xact_rollback"@,
                "blks_read"@,
                "blks_hit"@,
                "tup_returned"@,
                "tup_fetched"@,
                "tup_inserted"@,
                "tup_updated"@,
                "tup_deleted"@,
                "conflicts"@,
                "temp_files"@,
                "temp_bytes"@,
                "deadlocks"@,
                "checksum_failures"@,
                "checksum_last_failure"@,
                "blk_read_time"@,
                "blk_write_time"@,
                "session_time"@,
                "active_time"@,
                "idle_in_transaction_time"@,
                "sessions"@,
                "sessions_abandoned"@,
                "sessions_fatal"@,
                "sessions_killed"@,
                "stats_reset"@,
            ],
        )
    } else {
        None
    }
}

fn server_table(table: &str) -> (r: Option<Vec<String>>)
    ensures
        list_view(r) == server_columns(table@),
{
    if text::text_eq(table, "pg_locks") {
        let columns = text::names(
            &[
                "locktype",
                "database",
                "relation",
                "page",
                "tuple",
                "virtualxid",
                "transactionid",
                "classid",
                "objid",
                "objsubid",
                "virtualtransaction",
                "pid",
                "mode",
                "granted",
                "fastpath",
                "waitstart",
            ],
        );
        assert(text::views(columns@) =~= seq![
            "locktype"@,
            "database"@,
            "relation"@,
            "page"@,
            "tuple"@,
            "virtualxid"@,
            "transactionid"@,
            "classid"@,
            "objid"@,
            "objsubid"@,
            "virtualtransaction"@,
            "pid"@,
            "mode"@,
            "granted"@,
            "fastpath"@,
            "waitstart"@,
        ]);
        Some(columns)
    } else if text::text_eq(table, "pg_control_system") {
        let columns = text::names(
            &[
                "pg_control_version",
                "catalog_version_no",
                "system_identifier",
                "pg_control_last_modified",
            ],
        );
        assert(text::views(columns@) =~= seq![
            "pg_control_version"@,
            "catalog_version_no"@,
            "system_identifier"@,
            "pg_control_last_modified"@,
        ]);
        Some(columns)
    } else if text::text_eq(table, "pg_timezone_names") {
        let columns = text::names(
            &["name", "abbrev", "utc_offset", "is_dst"],
        );
        assert(text::views(columns@) =~= seq!["name"@, "abbrev"@, "utc_offset"@, "is_dst"@]);
        Some(columns)
    } else if text::text_eq(table, "pg_settings") {
        let columns = text::names(
            &[
                "name",
                "setting",
                "unit",
                "category",
                "short_desc",
                "extra_desc",
                "context",
                "vartype",
                "source",
                "min_val",
                "max_val",
                "enumvals",
                "boot_val",
                "reset_val",
                "sourcefile",
                "sourceline",
                "pending_restart",
            ],
        );
        assert(text::views(columns@) =~= seq![
            "name"@,
            "setting"@,
            "unit"@,
            "category"@,
            "short_desc"@,
            "extra_desc"@,
            "context"@,
            "vartype"@,
            "source"@,
            "min_val"@,
            "max_val"@,
            "enumvals"@,
            "boot_val"@,
            "reset_val"@,
            "sourcefile"@,
            "sourceline"@,
            "pending_restart"@,
        ]);
        Some(columns)
    } else if text::text_eq(table, "pg_stat_all_tables") || text::text_eq(table, "pg_stat_user_tables") {
        let columns = text::names(
            &[
                "relid",
                "schemaname",
                "relname",
                "seq_scan",
                "seq_tup_read",
                "idx_scan",
                "idx_tup_fetch",
                "n_tup_ins",
                "n_tup_upd",
                "n_tup_del",
                "n_tup_hot_upd",
                "n_tup_newpage_upd",
                "n_live_tup",
                "n_dead_tup",
                "n_mod_since_analyze",
                "n_ins_since_vacuum",
                "last_vacuum",
                "last_autovacuum",
                "last_analyze",
                "last_autoanalyze",
                "vacuum_count",
                "autovacuum_count",
                "analyze_count",
                "autoanalyze_count",
            ],
        );
        assert(text::views(columns@) =~= seq![
            "relid"@,
            "schemaname"@,
            "relname"@,
            "seq_scan"@,
            "seq_tup_read"@,
            "idx_scan"@,
            "idx_tup_fetch"@,
            "n_tup_ins"@,
            "n_tup_upd"@,
            "n_tup_del"@,
            "n_tup_hot_upd"@,
            "n_tup_newpage_upd"@,
            "n_live_tup"@,
            "n_dead_tup"@,
            "n_mod_since_analyze"@,
            "n_ins_since_vacuum"@,
            "last_vacuum"@,
            "last_autovacuum"@,
            "last_analyze"@,
            "last_autoanalyze"@,
            "vacuum_count"@,
            "autovacuum_count"@,
            "analyze_count"@,
            "autoanalyze_count"@,
        ]);
        Some(columns)
    } else if text::text_eq(table, "pg_stat_database") {
        let columns = text::names(
            &[
                "datid",
                "datname",
                "numbackends",
                "xact_commit",
                "xact_rollback",
                "blks_read",
                "blks_hit",
                "tup_returned",
                "tup_fetched",
                "tup_inserted",
                "tup_updated",
                "tup_deleted",
                "conflicts",
                "temp_files",
                "temp_bytes",
                "deadlocks",
                "checksum_failures",
                "checksum_last_failure",
                "blk_read_time",
                "blk_write_time",
                "session_time",
                "active_time",
                "idle_in_transaction_time",
                "sessions",
                "sessions_abandoned",
                "sessions_fatal",
                "sessions_killed",
                "stats_reset",
            ],
        );
        assert(text::views(columns@) =~= seq![
            "datid"@,
            "datname"@,
            "numbackends"@,
            "xact_commit"@,
            "xact_rollback"@,
            "blks_read"@,
            "blks_hit"@,
            "tup_returned"@,
            "tup_fetched"@,
            "tup_inserted"@,
            "tup_updated"@,
            "tup_deleted"@,
            "conflicts"@,
            "temp_files"@,
            "temp_bytes"@,
            "deadlocks"@,
            "checksum_failures"@,
            "checksum_last_failure"@,
            "blk_read_time"@,
            "blk_write_time"@,
            "session_time"@,
            "active_time"@,
            "idle_in_transaction_time"@,
            "sessions"@,
            "sessions_abandoned"@,
            "sessions_fatal"@,
            "sessions_killed"@,
            "stats_reset"@,
        ]);
        Some(columns)
    } else {
        None
    }
}

/// The columns of a virtual table, for those that have a fixed list.
pub open spec fn columns_of(table: Seq<char>) -> Option<Seq<Seq<char>>> {
    let name = without_catalog(table);
    if information_schema_columns(name) is Some {
        information_schema_columns(name)
    } else if replication_columns(name) is Some {
        replication_columns(name)
    } else if object_columns(name) is Some {
        object_columns(name)
    } else if operator_columns(name) is Some {
        operator_columns(name)
    } else if text_search_columns(name) is Some {
        text_search_columns(name)
    } else if foreign_columns(name) is Some {
        foreign_columns(name)
    } else if publication_columns(name) is Some {
        publication_columns(name)
    } else if storage_columns(name) is Some {
        storage_columns(name)
    } else {
        server_columns(name)
    }
}

/// The columns of a virtual table, for those that have a fixed list.
pub fn virtual_table_columns(table: &str) -> (r: Option<Vec<String>>)
    ensures
        list_view(r) == columns_of(table@),
{
    let name = strip_catalog(table);
    let found = information_schema_table(name.as_str());
    if found.is_some() {
        return found;
    }
    let found = replication_table(name.as_str());
    if found.is_some() {
        return found;
    }
    let found = object_table(name.as_str());
    if found.is_some() {
        return found;
    }
    let found = operator_table(name.as_str());
    if found.is_some() {
        return found;
    }
    let found = text_search_table(name.as_str());
    if found.is_some() {
        return found;
    }
    let found = foreign_table(name.as_str());
    if found.is_some() {
        return found;
    }
    let found = publication_table(name.as_str());
    if found.is_some() {
        return found;
    }
    let found = storage_table(name.as_str());
    if found.is_some() {
        return found;
    }
    server_table(name.as_str())
}

} // verus!
