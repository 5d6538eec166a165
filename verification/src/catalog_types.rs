//! The types of the columns of the virtual tables that have declared ones.
use vstd::prelude::*;
use crate::catalog_columns;
use crate::error;
use crate::text;

verus! {

pub open spec fn pair_views(v: Seq<(&str, &str)>) -> Seq<(Seq<char>, Seq<char>)> {
    v.map_values(|p: (&str, &str)| (p.0@, p.1@))
}

/// Columns with their types.
pub open spec fn typed_views(v: Seq<(String, Option<String>)>) -> Seq<
    (Seq<char>, Option<Seq<char>>),
> {
    v.map_values(|p: (String, Option<String>)| (p.0@, error::view_option(p.1)))
}

/// Columns each of which has a type.
pub open spec fn all_typed(v: Seq<(Seq<char>, Seq<char>)>) -> Seq<(Seq<char>, Option<Seq<char>>)> {
    v.map_values(|p: (Seq<char>, Seq<char>)| (p.0, Some(p.1)))
}

fn typed(list: &[(&str, &str)]) -> (r: Vec<(String, Option<String>)>)
    ensures
        typed_views(r@) == all_typed(pair_views(list@)),
{
    let ghost all = all_typed(pair_views(list@));
    let mut out: Vec<(String, Option<String>)> = Vec::new();
    let mut i: usize = 0;
    while i < list.len()
        invariant
            i <= list.len(),
            all == all_typed(pair_views(list@)),
            typed_views(out@) == all.take(i as int),
        decreases list.len() - i,
    {
        let ghost prior = out@;
        out.push((list[i].0.to_owned(), Some(list[i].1.to_owned())));
        assert(typed_views(out@) =~= typed_views(prior).push(all[i as int]));
        assert(all.take(i as int + 1) =~= all.take(i as int).push(all[i as int]));
        i = i + 1;
    }
    assert(all.take(all.len() as int) =~= all);
    out
}

pub open spec fn typed_list(v: Option<Vec<(String, Option<String>)>>) -> Option<
    Seq<(Seq<char>, Option<Seq<char>>)>,
> {
    match v {
        Some(list) => Some(typed_views(list@)),
        None => None,
    }
}

pub open spec fn typed_option(v: Option<Seq<(Seq<char>, Seq<char>)>>) -> Option<
    Seq<(Seq<char>, Option<Seq<char>>)>,
> {
    match v {
        Some(list) => Some(all_typed(list)),
        None => None,
    }
}

/// The column types of a table of the information schema.
pub open spec fn information_schema_types(table: Seq<char>) -> Option<Seq<(Seq<char>, Seq<char>)>> {
    if table == "information_schema.domains"@ {
        Some(
            seq![
                ("domain_catalog"@, "name"@),
                ("domain_schema"@, "name"@),
                ("domain_name"@, "name"@),
                ("data_type"@, "varchar"@),
                ("domain_default"@, "varchar"@),
                ("udt_schema"@, "name"@),
                ("udt_name"@, "name"@),
                ("numeric_precision"@, "int4"@),
                ("numeric_scale"@, "int4"@),
                ("dtd_identifier"@, "name"@),
            ],
        )
    } else if table == "information_schema.columns"@ {
        Some(
            seq![
                ("table_catalog"@, "name"@),
                ("table_schema"@, "name"@),
                ("table_name"@, "name"@),
                ("column_name"@, "name"@),
                ("ordinal_position"@, "int4"@),
                ("column_default"@, "varchar"@),
                ("is_nullable"@, "varchar"@),
                ("data_type"@, "varchar"@),
                ("domain_schema"@, "name"@),
                ("domain_name"@, "name"@),
                ("udt_catalog"@, "name"@),
                ("udt_schema"@, "name"@),
                ("udt_name"@, "name"@),
                ("character_maximum_length"@, "int4"@),
                ("character_octet_length"@, "int4"@),
                ("collation_catalog"@, "name"@),
                ("collation_schema"@, "name"@),
                ("collation_name"@, "name"@),
                ("is_identity"@, "varchar"@),
                ("identity_generation"@, "varchar"@),
                ("identity_start"@, "varchar"@),
                ("identity_increment"@, "varchar"@),
                ("identity_maximum"@, "varchar"@),
                ("identity_minimum"@, "varchar"@),
                ("identity_cycle"@, "varchar"@),
                ("dtd_identifier"@, "name"@),
            ],
        )
    } else if table == "information_schema.element_types"@ {
        Some(
            seq![
                ("object_catalog"@, "name"@),
                ("object_schema"@, "name"@),
                ("object_name"@, "name"@),
                ("object_type"@, "varchar"@),
                ("collection_type_identifier"@, "name"@),
                ("data_type"@, "varchar"@),
                ("udt_schema"@, "name"@),
                ("udt_name"@, "name"@),
                ("dtd_identifier"@, "name"@),
            ],
        )
    } else if table == "information_schema.user_defined_types"@ {
        Some(
            seq![
                ("user_defined_type_catalog"@, "name"@),
                ("user_defined_type_schema"@, "name"@),
                ("user_defined_type_name"@, "name"@),
                ("user_defined_type_category"@, "varchar"@),
                ("is_instantiable"@, "varchar"@),
                ("is_final"@, "varchar"@),
                ("ordering_form"@, "varchar"@),
            ],
        )
    } else if table == "information_schema.routines"@ {
        Some(
            seq![
                ("specific_catalog"@, "name"@),
                ("specific_schema"@, "name"@),
                ("specific_name"@, "name"@),
                ("routine_catalog"@, "name"@),
                ("routine_schema"@, "name"@),
                ("routine_name"@, "name"@),
                ("routine_type"@, "varchar"@),
                ("data_type"@, "varchar"@),
                ("type_udt_schema"@, "name"@),
                ("type_udt_name"@, "name"@),
                ("routine_body"@, "varchar"@),
                ("external_language"@, "varchar"@),
                ("parameter_style"@, "varchar"@),
                ("is_deterministic"@, "varchar"@),
                ("sql_data_access"@, "varchar"@),
                ("security_type"@, "varchar"@),
                ("dtd_identifier"@, "name"@),
            ],
        )
    } else if table == "information_schema.parameters"@ {
        Some(
            seq![
                ("specific_catalog"@, "name"@),
                ("specific_schema"@, "name"@),
                ("specific_name"@, "name"@),
                ("ordinal_position"@, "int4"@),
                ("parameter_mode"@, "varchar"@),
                ("is_result"@, "varchar"@),
                ("as_locator"@, "varchar"@),
                ("parameter_name"@, "name"@),
                ("data_type"@, "varchar"@),
                ("udt_schema"@, "name"@),
                ("udt_name"@, "name"@),
                ("dtd_identifier"@, "name"@),
            ],
        )
    } else {
        None
    }
}

fn information_schema_table(table: &str) -> (r: Option<Vec<(String, Option<String>)>>)
    ensures
        typed_list(r) == typed_option(information_schema_types(table@)),
{
    if text::text_eq(table, "information_schema.domains") {
        let columns = [
            ("domain_catalog", "name"),
            ("domain_schema", "name"),
            ("domain_name", "name"),
            ("data_type", "varchar"),
            ("domain_default", "varchar"),
            ("udt_schema", "name"),
            ("udt_name", "name"),
            ("numeric_precision", "int4"),
            ("numeric_scale", "int4"),
            ("dtd_identifier", "name"),
        ];
        assert(pair_views(columns@) =~= seq![
            ("domain_catalog"@, "name"@),
            ("domain_schema"@, "name"@),
            ("domain_name"@, "name"@),
            ("data_type"@, "varchar"@),
            ("domain_default"@, "varchar"@),
            ("udt_schema"@, "name"@),
            ("udt_name"@, "name"@),
            ("numeric_precision"@, "int4"@),
            ("numeric_scale"@, "int4"@),
            ("dtd_identifier"@, "name"@),
        ]);
        Some(typed(&columns))
    } else if text::text_eq(table, "information_schema.columns") {
        let columns = [
            ("table_catalog", "name"),
            ("table_schema", "name"),
            ("table_name", "name"),
            ("column_name", "name"),
            ("ordinal_position", "int4"),
            ("column_default", "varchar"),
            ("is_nullable", "varchar"),
            ("data_type", "varchar"),
            ("domain_schema", "name"),
            ("domain_name", "name"),
            ("udt_catalog", "name"),
            ("udt_schema", "name"),
            ("udt_name", "name"),
            ("character_maximum_length", "int4"),
            ("character_octet_length", "int4"),
            ("collation_catalog", "name"),
            ("collation_schema", "name"),
            ("collation_name", "name"),
            ("is_identity", "varchar"),
            ("identity_generation", "varchar"),
            ("identity_start", "varchar"),
            ("identity_increment", "varchar"),
            ("identity_maximum", "varchar"),
            ("identity_minimum", "varchar"),
            ("identity_cycle", "varchar"),
            ("dtd_identifier", "name"),
        ];
        assert(pair_views(columns@) =~= seq![
            ("table_catalog"@, "name"@),
            ("table_schema"@, "name"@),
            ("table_name"@, "name"@),
            ("column_name"@, "name"@),
            ("ordinal_position"@, "int4"@),
            ("column_default"@, "varchar"@),
            ("is_nullable"@, "varchar"@),
            ("data_type"@, "varchar"@),
            ("domain_schema"@, "name"@),
            ("domain_name"@, "name"@),
            ("udt_catalog"@, "name"@),
            ("udt_schema"@, "name"@),
            ("udt_name"@, "name"@),
            ("character_maximum_length"@, "int4"@),
            ("character_octet_length"@, "int4"@),
            ("collation_catalog"@, "name"@),
            ("collation_schema"@, "name"@),
            ("collation_name"@, "name"@),
            ("is_identity"@, "varchar"@),
            ("identity_generation"@, "varchar"@),
            ("identity_start"@, "varchar"@),
            ("identity_increment"@, "varchar"@),
            ("identity_maximum"@, "varchar"@),
            ("identity_minimum"@, "varchar"@),
            ("identity_cycle"@, "varchar"@),
            ("dtd_identifier"@, "name"@),
        ]);
        Some(typed(&columns))
    } else if text::text_eq(table, "information_schema.element_types") {
        let columns = [
            ("object_catalog", "name"),
            ("object_schema", "name"),
            ("object_name", "name"),
            ("object_type", "varchar"),
            ("collection_type_identifier", "name"),
            ("data_type", "varchar"),
            ("udt_schema", "name"),
            ("udt_name", "name"),
            ("dtd_identifier", "name"),
        ];
        assert(pair_views(columns@) =~= seq![
            ("object_catalog"@, "name"@),
            ("object_schema"@, "name"@),
            ("object_name"@, "name"@),
            ("object_type"@, "varchar"@),
            ("collection_type_identifier"@, "name"@),
            ("data_type"@, "varchar"@),
            ("udt_schema"@, "name"@),
            ("udt_name"@, "name"@),
            ("dtd_identifier"@, "name"@),
        ]);
        Some(typed(&columns))
    } else if text::text_eq(table, "information_schema.user_defined_types") {
        let columns = [
            ("user_defined_type_catalog", "name"),
            ("user_defined_type_schema", "name"),
            ("user_defined_type_name", "name"),
            ("user_defined_type_category", "varchar"),
            ("is_instantiable", "varchar"),
            ("is_final", "varchar"),
            ("ordering_form", "varchar"),
        ];
        assert(pair_views(columns@) =~= seq![
            ("user_defined_type_catalog"@, "name"@),
            ("user_defined_type_schema"@, "name"@),
            ("user_defined_type_name"@, "name"@),
            ("user_defined_type_category"@, "varchar"@),
            ("is_instantiable"@, "varchar"@),
            ("is_final"@, "varchar"@),
            ("ordering_form"@, "varchar"@),
        ]);
        Some(typed(&columns))
    } else if text::text_eq(table, "information_schema.routines") {
        let columns = [
            ("specific_catalog", "name"),
            ("specific_schema", "name"),
            ("specific_name", "name"),
            ("routine_catalog", "name"),
            ("routine_schema", "name"),
            ("routine_name", "name"),
            ("routine_type", "varchar"),
            ("data_type", "varchar"),
            ("type_udt_schema", "name"),
            ("type_udt_name", "name"),
            ("routine_body", "varchar"),
            ("external_language", "varchar"),
            ("parameter_style", "varchar"),
            ("is_deterministic", "varchar"),
            ("sql_data_access", "varchar"),
            ("security_type", "varchar"),
            ("dtd_identifier", "name"),
        ];
        assert(pair_views(columns@) =~= seq![
            ("specific_catalog"@, "name"@),
            ("specific_schema"@, "name"@),
            ("specific_name"@, "name"@),
            ("routine_catalog"@, "name"@),
            ("routine_schema"@, "name"@),
            ("routine_name"@, "name"@),
            ("routine_type"@, "varchar"@),
            ("data_type"@, "varchar"@),
            ("type_udt_schema"@, "name"@),
            ("type_udt_name"@, "name"@),
            ("routine_body"@, "varchar"@),
            ("external_language"@, "varchar"@),
            ("parameter_style"@, "varchar"@),
            ("is_deterministic"@, "varchar"@),
            ("sql_data_access"@, "varchar"@),
            ("security_type"@, "varchar"@),
            ("dtd_identifier"@, "name"@),
        ]);
        Some(typed(&columns))
    } else if text::text_eq(table, "information_schema.parameters") {
        let columns = [
            ("specific_catalog", "name"),
            ("specific_schema", "name"),
            ("specific_name", "name"),
            ("ordinal_position", "int4"),
            ("parameter_mode", "varchar"),
            ("is_result", "varchar"),
            ("as_locator", "varchar"),
            ("parameter_name", "name"),
            ("data_type", "varchar"),
            ("udt_schema", "name"),
            ("udt_name", "name"),
            ("dtd_identifier", "name"),
        ];
        assert(pair_views(columns@) =~= seq![
            ("specific_catalog"@, "name"@),
            ("specific_schema"@, "name"@),
            ("specific_name"@, "name"@),
            ("ordinal_position"@, "int4"@),
            ("parameter_mode"@, "varchar"@),
            ("is_result"@, "varchar"@),
            ("as_locator"@, "varchar"@),
            ("parameter_name"@, "name"@),
            ("data_type"@, "varchar"@),
            ("udt_schema"@, "name"@),
            ("udt_name"@, "name"@),
            ("dtd_identifier"@, "name"@),
        ]);
        Some(typed(&columns))
    } else {
        None
    }
}

/// The column types of a table of relations and their columns.
pub open spec fn relation_types(table: Seq<char>) -> Option<Seq<(Seq<char>, Seq<char>)>> {
    if table == "pg_namespace"@ {
        Some(
            seq![
                ("oid"@, "oid"@),
                ("nspname"@, "name"@),
                ("nspowner"@, "oid"@),
                ("nspacl"@, "text[]"@),
            ],
        )
    } else if table == "pg_stats"@ {
        Some(
            seq![
                ("schemaname"@, "name"@),
                ("tablename"@, "name"@),
                ("attname"@, "name"@),
                ("inherited"@, "bool"@),
                ("null_frac"@, "float4"@),
                ("avg_width"@, "int4"@),
                ("n_distinct"@, "float4"@),
                ("most_common_vals"@, "anyarray"@),
                ("most_common_freqs"@, "float4[]"@),
                ("histogram_bounds"@, "anyarray"@),
                ("correlation"@, "float4"@),
                ("most_common_elems"@, "anyarray"@),
                ("most_common_elem_freqs"@, "float4[]"@),
                ("elem_count_histogram"@, "float4[]"@),
                ("range_length_histogram"@, "anyarray"@),
                ("range_empty_frac"@, "float4"@),
                ("range_bounds_histogram"@, "anyarray"@),
            ],
        )
    } else if table == "pg_attribute"@ {
        Some(
            seq![
                ("attrelid"@, "oid"@),
                ("attname"@, "name"@),
                ("atttypid"@, "oid"@),
                ("attstattarget"@, "int2"@),
                ("attlen"@, "int2"@),
                ("attnum"@, "int2"@),
                ("attndims"@, "int2"@),
                ("attcacheoff"@, "int4"@),
                ("atttypmod"@, "int4"@),
                ("attbyval"@, "bool"@),
                ("attalign"@, "char"@),
                ("attstorage"@, "char"@),
                ("attcompression"@, "char"@),
                ("attnotnull"@, "bool"@),
                ("atthasdef"@, "bool"@),
                ("atthasmissing"@, "bool"@),
                ("attidentity"@, "char"@),
                ("attgenerated"@, "char"@),
                ("attisdropped"@, "bool"@),
                ("attislocal"@, "bool"@),
                ("attinhcount"@, "int2"@),
                ("attcollation"@, "oid"@),
                ("attacl"@, "aclitem[]"@),
                ("attoptions"@, "text[]"@),
                ("attfdwoptions"@, "text[]"@),
                ("attmissingval"@, "anyarray"@),
            ],
        )
    } else if table == "pg_class"@ {
        Some(
            seq![
                ("oid"@, "oid"@),
                ("relname"@, "name"@),
                ("relnamespace"@, "oid"@),
                ("reltype"@, "oid"@),
                ("reloftype"@, "oid"@),
                ("relowner"@, "oid"@),
                ("relam"@, "oid"@),
                ("relfilenode"@, "oid"@),
                ("reltablespace"@, "oid"@),
                ("relpages"@, "int4"@),
                ("reltuples"@, "float4"@),
                ("relallvisible"@, "int4"@),
                ("relallfrozen"@, "int4"@),
                ("reltoastrelid"@, "oid"@),
                ("relhasindex"@, "bool"@),
                ("relisshared"@, "bool"@),
                ("relpersistence"@, "char"@),
                ("relkind"@, "char"@),
                ("relnatts"@, "int2"@),
                ("relchecks"@, "int2"@),
                ("relhasrules"@, "bool"@),
                ("relhastriggers"@, "bool"@),
                ("relhassubclass"@, "bool"@),
                ("relrowsecurity"@, "bool"@),
                ("relforcerowsecurity"@, "bool"@),
                ("relispopulated"@, "bool"@),
                ("relreplident"@, "char"@),
                ("relispartition"@, "bool"@),
                ("relrewrite"@, "oid"@),
                ("relfrozenxid"@, "xid"@),
                ("relminmxid"@, "xid"@),
                ("relacl"@, "aclitem[]"@),
                ("reloptions"@, "text[]"@),
                ("relpartbound"@, "pg_node_tree"@),
            ],
        )
    } else if table == "pg_index"@ {
        Some(
            seq![
                ("indexrelid"@, "oid"@),
                ("indrelid"@, "oid"@),
                ("indnatts"@, "int2"@),
                ("indnkeyatts"@, "int2"@),
                ("indisunique"@, "bool"@),
                ("indnullsnotdistinct"@, "bool"@),
                ("indisprimary"@, "bool"@),
                ("indisexclusion"@, "bool"@),
                ("indimmediate"@, "bool"@),
                ("indisclustered"@, "bool"@),
                ("indisvalid"@, "bool"@),
                ("indcheckxmin"@, "bool"@),
                ("indisready"@, "bool"@),
                ("indislive"@, "bool"@),
                ("indisreplident"@, "bool"@),
                ("indkey"@, "int2vector"@),
                ("indcollation"@, "oidvector"@),
                ("indclass"@, "oidvector"@),
                ("indoption"@, "int2vector"@),
                ("indexprs"@, "pg_node_tree"@),
                ("indpred"@, "pg_node_tree"@),
                ("indexdef"@, "text"@),
            ],
        )
    } else if table == "pg_constraint"@ {
        Some(
            seq![
                ("oid"@, "oid"@),
                ("conname"@, "name"@),
                ("connamespace"@, "oid"@),
                ("contype"@, "char"@),
                ("condeferrable"@, "bool"@),
                ("condeferred"@, "bool"@),
                ("conenforced"@, "bool"@),
                ("convalidated"@, "bool"@),
                ("conrelid"@, "oid"@),
                ("contypid"@, "oid"@),
                ("conindid"@, "oid"@),
                ("conparentid"@, "oid"@),
                ("confrelid"@, "oid"@),
                ("confupdtype"@, "char"@),
                ("confdeltype"@, "char"@),
                ("confmatchtype"@, "char"@),
                ("conislocal"@, "bool"@),
                ("coninhcount"@, "int2"@),
                ("connoinherit"@, "bool"@),
                ("conperiod"@, "bool"@),
                ("conkey"@, "int2[]"@),
                ("confkey"@, "int2[]"@),
                ("conpfeqop"@, "oid[]"@),
                ("conppeqop"@, "oid[]"@),
                ("conffeqop"@, "oid[]"@),
                ("confdelsetcols"@, "int2[]"@),
                ("conexclop"@, "oid[]"@),
                ("conbin"@, "pg_node_tree"@),
            ],
        )
    } else {
        None
    }
}

fn relation_table(table: &str) -> (r: Option<Vec<(String, Option<String>)>>)
    ensures
        typed_list(r) == typed_option(relation_types(table@)),
{
    if text::text_eq(table, "pg_namespace") {
        let columns = [
            ("oid", "oid"),
            ("nspname", "name"),
            ("nspowner", "oid"),
            ("nspacl", "text[]"),
        ];
        assert(pair_views(columns@) =~= seq![
            ("oid"@, "oid"@),
            ("nspname"@, "name"@),
            ("nspowner"@, "oid"@),
            ("nspacl"@, "text[]"@),
        ]);
        Some(typed(&columns))
    } else if text::text_eq(table, "pg_stats") {
        let columns = [
            ("schemaname", "name"),
            ("tablename", "name"),
            ("attname", "name"),
            ("inherited", "bool"),
            ("null_frac", "float4"),
            ("avg_width", "int4"),
            ("n_distinct", "float4"),
            ("most_common_vals", "anyarray"),
            ("most_common_freqs", "float4[]"),
            ("histogram_bounds", "anyarray"),
            ("correlation", "float4"),
            ("most_common_elems", "anyarray"),
            ("most_common_elem_freqs", "float4[]"),
            ("elem_count_histogram", "float4[]"),
            ("range_length_histogram", "anyarray"),
            ("range_empty_frac", "float4"),
            ("range_bounds_histogram", "anyarray"),
        ];
        assert(pair_views(columns@) =~= seq![
            ("schemaname"@, "name"@),
            ("tablename"@, "name"@),
            ("attname"@, "name"@),
            ("inherited"@, "bool"@),
            ("null_frac"@, "float4"@),
            ("avg_width"@, "int4"@),
            ("n_distinct"@, "float4"@),
            ("most_common_vals"@, "anyarray"@),
            ("most_common_freqs"@, "float4[]"@),
            ("histogram_bounds"@, "anyarray"@),
            ("correlation"@, "float4"@),
            ("most_common_elems"@, "anyarray"@),
            ("most_common_elem_freqs"@, "float4[]"@),
            ("elem_count_histogram"@, "float4[]"@),
            ("range_length_histogram"@, "anyarray"@),
            ("range_empty_frac"@, "float4"@),
            ("range_bounds_histogram"@, "anyarray"@),
        ]);
        Some(typed(&columns))
    } else if text::text_eq(table, "pg_attribute") {
        let columns = [
            ("attrelid", "oid"),
            ("attname", "name"),
            ("atttypid", "oid"),
            ("attstattarget", "int2"),
            ("attlen", "int2"),
            ("attnum", "int2"),
            ("attndims", "int2"),
            ("attcacheoff", "int4"),
            ("atttypmod", "int4"),
            ("attbyval", "bool"),
            ("attalign", "char"),
            ("attstorage", "char"),
            ("attcompression", "char"),
            ("attnotnull", "bool"),
            ("atthasdef", "bool"),
            ("atthasmissing", "bool"),
            ("attidentity", "char"),
            ("attgenerated", "char"),
            ("attisdropped", "bool"),
            ("attislocal", "bool"),
            ("attinhcount", "int2"),
            ("attcollation", "oid"),
            ("attacl", "aclitem[]"),
            ("attoptions", "text[]"),
            ("attfdwoptions", "text[]"),
            ("attmissingval", "anyarray"),
        ];
        assert(pair_views(columns@) =~= seq![
            ("attrelid"@, "oid"@),
            ("attname"@, "name"@),
            ("atttypid"@, "oid"@),
            ("attstattarget"@, "int2"@),
            ("attlen"@, "int2"@),
            ("attnum"@, "int2"@),
            ("attndims"@, "int2"@),
            ("attcacheoff"@, "int4"@),
            ("atttypmod"@, "int4"@),
            ("attbyval"@, "bool"@),
            ("attalign"@, "char"@),
            ("attstorage"@, "char"@),
            ("attcompression"@, "char"@),
            ("attnotnull"@, "bool"@),
            ("atthasdef"@, "bool"@),
            ("atthasmissing"@, "bool"@),
            ("attidentity"@, "char"@),
            ("attgenerated"@, "char"@),
            ("attisdropped"@, "bool"@),
            ("attislocal"@, "bool"@),
            ("attinhcount"@, "int2"@),
            ("attcollation"@, "oid"@),
            ("attacl"@, "aclitem[]"@),
            ("attoptions"@, "text[]"@),
            ("attfdwoptions"@, "text[]"@),
            ("attmissingval"@, "anyarray"@),
        ]);
        Some(typed(&columns))
    } else if text::text_eq(table, "pg_class") {
        let columns = [
            ("oid", "oid"),
            ("relname", "name"),
            ("relnamespace", "oid"),
            ("reltype", "oid"),
            ("reloftype", "oid"),
            ("relowner", "oid"),
            ("relam", "oid"),
            ("relfilenode", "oid"),
            ("reltablespace", "oid"),
            ("relpages", "int4"),
            ("reltuples", "float4"),
            ("relallvisible", "int4"),
            ("relallfrozen", "int4"),
            ("reltoastrelid", "oid"),
            ("relhasindex", "bool"),
            ("relisshared", "bool"),
            ("relpersistence", "char"),
            ("relkind", "char"),
            ("relnatts", "int2"),
            ("relchecks", "int2"),
            ("relhasrules", "bool"),
            ("relhastriggers", "bool"),
            ("relhassubclass", "bool"),
            ("relrowsecurity", "bool"),
            ("relforcerowsecurity", "bool"),
            ("relispopulated", "bool"),
            ("relreplident", "char"),
            ("relispartition", "bool"),
            ("relrewrite", "oid"),
            ("relfrozenxid", "xid"),
            ("relminmxid", "xid"),
            ("relacl", "aclitem[]"),
            ("reloptions", "text[]"),
            ("relpartbound", "pg_node_tree"),
        ];
        assert(pair_views(columns@) =~= seq![
            ("oid"@, "oid"@),
            ("relname"@, "name"@),
            ("relnamespace"@, "oid"@),
            ("reltype"@, "oid"@),
            ("reloftype"@, "oid"@),
            ("relowner"@, "oid"@),
            ("relam"@, "oid"@),
            ("relfilenode"@, "oid"@),
            ("reltablespace"@, "oid"@),
            ("relpages"@, "int4"@),
            ("reltuples"@, "float4"@),
            ("relallvisible"@, "int4"@),
            ("relallfrozen"@, "int4"@),
            ("reltoastrelid"@, "oid"@),
            ("relhasindex"@, "bool"@),
            ("relisshared"@, "bool"@),
            ("relpersistence"@, "char"@),
            ("relkind"@, "char"@),
            ("relnatts"@, "int2"@),
            ("relchecks"@, "int2"@),
            ("relhasrules"@, "bool"@),
            ("relhastriggers"@, "bool"@),
            ("relhassubclass"@, "bool"@),
            ("relrowsecurity"@, "bool"@),
            ("relforcerowsecurity"@, "bool"@),
            ("relispopulated"@, "bool"@),
            ("relreplident"@, "char"@),
            ("relispartition"@, "bool"@),
            ("relrewrite"@, "oid"@),
            ("relfrozenxid"@, "xid"@),
            ("relminmxid"@, "xid"@),
            ("relacl"@, "aclitem[]"@),
            ("reloptions"@, "text[]"@),
            ("relpartbound"@, "pg_node_tree"@),
        ]);
        Some(typed(&columns))
    } else if text::text_eq(table, "pg_index") {
        let columns = [
            ("indexrelid", "oid"),
            ("indrelid", "oid"),
            ("indnatts", "int2"),
            ("indnkeyatts", "int2"),
            ("indisunique", "bool"),
            ("indnullsnotdistinct", "bool"),
            ("indisprimary", "bool"),
            ("indisexclusion", "bool"),
            ("indimmediate", "bool"),
            ("indisclustered", "bool"),
            ("indisvalid", "bool"),
            ("indcheckxmin", "bool"),
            ("indisready", "bool"),
            ("indislive", "bool"),
            ("indisreplident", "bool"),
            ("indkey", "int2vector"),
            ("indcollation", "oidvector"),
            ("indclass", "oidvector"),
            ("indoption", "int2vector"),
            ("indexprs", "pg_node_tree"),
            ("indpred", "pg_node_tree"),
            ("indexdef", "text"),
        ];
        assert(pair_views(columns@) =~= seq![
            ("indexrelid"@, "oid"@),
            ("indrelid"@, "oid"@),
            ("indnatts"@, "int2"@),
            ("indnkeyatts"@, "int2"@),
            ("indisunique"@, "bool"@),
            ("indnullsnotdistinct"@, "bool"@),
            ("indisprimary"@, "bool"@),
            ("indisexclusion"@, "bool"@),
            ("indimmediate"@, "bool"@),
            ("indisclustered"@, "bool"@),
            ("indisvalid"@, "bool"@),
            ("indcheckxmin"@, "bool"@),
            ("indisready"@, "bool"@),
            ("indislive"@, "bool"@),
            ("indisreplident"@, "bool"@),
            ("indkey"@, "int2vector"@),
            ("indcollation"@, "oidvector"@),
            ("indclass"@, "oidvector"@),
            ("indoption"@, "int2vector"@),
            ("indexprs"@, "pg_node_tree"@),
            ("indpred"@, "pg_node_tree"@),
            ("indexdef"@, "text"@),
        ]);
        Some(typed(&columns))
    } else if text::text_eq(table, "pg_constraint") {
        let columns = [
            ("oid", "oid"),
            ("conname", "name"),
            ("connamespace", "oid"),
            ("contype", "char"),
            ("condeferrable", "bool"),
            ("condeferred", "bool"),
            ("conenforced", "bool"),
            ("convalidated", "bool"),
            ("conrelid", "oid"),
            ("contypid", "oid"),
            ("conindid", "oid"),
            ("conparentid", "oid"),
            ("confrelid", "oid"),
            ("confupdtype", "char"),
            ("confdeltype", "char"),
            ("confmatchtype", "char"),
            ("conislocal", "bool"),
            ("coninhcount", "int2"),
            ("connoinherit", "bool"),
            ("conperiod", "bool"),
            ("conkey", "int2[]"),
            ("confkey", "int2[]"),
            ("conpfeqop", "oid[]"),
            ("conppeqop", "oid[]"),
            ("conffeqop", "oid[]"),
            ("confdelsetcols", "int2[]"),
            ("conexclop", "oid[]"),
            ("conbin", "pg_node_tree"),
        ];
        assert(pair_views(columns@) =~= seq![
            ("oid"@, "oid"@),
            ("conname"@, "name"@),
            ("connamespace"@, "oid"@),
            ("contype"@, "char"@),
            ("condeferrable"@, "bool"@),
            ("condeferred"@, "bool"@),
            ("conenforced"@, "bool"@),
            ("convalidated"@, "bool"@),
            ("conrelid"@, "oid"@),
            ("contypid"@, "oid"@),
            ("conindid"@, "oid"@),
            ("conparentid"@, "oid"@),
            ("confrelid"@, "oid"@),
            ("confupdtype"@, "char"@),
            ("confdeltype"@, "char"@),
            ("confmatchtype"@, "char"@),
            ("conislocal"@, "bool"@),
            ("coninhcount"@, "int2"@),
            ("connoinherit"@, "bool"@),
            ("conperiod"@, "bool"@),
            ("conkey"@, "int2[]"@),
            ("confkey"@, "int2[]"@),
            ("conpfeqop"@, "oid[]"@),
            ("conppeqop"@, "oid[]"@),
            ("conffeqop"@, "oid[]"@),
            ("confdelsetcols"@, "int2[]"@),
            ("conexclop"@, "oid[]"@),
            ("conbin"@, "pg_node_tree"@),
        ]);
        Some(typed(&columns))
    } else {
        None
    }
}

/// The column types of a table of types and casts.
pub open spec fn type_types(table: Seq<char>) -> Option<Seq<(Seq<char>, Seq<char>)>> {
    if table == "pg_type"@ {
        Some(
            seq![
                ("oid"@, "oid"@),
                ("typname"@, "name"@),
                ("typnamespace"@, "oid"@),
                ("typowner"@, "oid"@),
                ("typlen"@, "int2"@),
                ("typbyval"@, "bool"@),
                ("typtype"@, "char"@),
                ("typcategory"@, "char"@),
                ("typispreferred"@, "bool"@),
                ("typisdefined"@, "bool"@),
                ("typdelim"@, "char"@),
                ("typrelid"@, "oid"@),
                ("typelem"@, "oid"@),
                ("typarray"@, "oid"@),
                ("typinput"@, "regproc"@),
                ("typoutput"@, "regproc"@),
                ("typreceive"@, "regproc"@),
                ("typsend"@, "regproc"@),
                ("typmodin"@, "regproc"@),
                ("typmodout"@, "regproc"@),
                ("typanalyze"@, "regproc"@),
                ("typalign"@, "char"@),
                ("typstorage"@, "char"@),
                ("typnotnull"@, "bool"@),
                ("typbasetype"@, "oid"@),
                ("typtypmod"@, "int4"@),
                ("typndims"@, "int4"@),
                ("typcollation"@, "oid"@),
                ("typdefaultbin"@, "text"@),
                ("typdefault"@, "text"@),
            ],
        )
    } else if table == "pg_cast"@ {
        Some(
            seq![
                ("oid"@, "oid"@),
                ("castsource"@, "oid"@),
                ("casttarget"@, "oid"@),
                ("castfunc"@, "oid"@),
                ("castcontext"@, "char"@),
                ("castmethod"@, "char"@),
            ],
        )
    } else if table == "pg_range"@ {
        Some(
            seq![
                ("rngtypid"@, "oid"@),
                ("rngsubtype"@, "oid"@),
                ("rngmultitypid"@, "oid"@),
                ("rngcollation"@, "oid"@),
                ("rngsubopc"@, "oid"@),
                ("rngcanonical"@, "regproc"@),
                ("rngsubdiff"@, "regproc"@),
            ],
        )
    } else {
        None
    }
}

fn type_table(table: &str) -> (r: Option<Vec<(String, Option<String>)>>)
    ensures
        typed_list(r) == typed_option(type_types(table@)),
{
    if text::text_eq(table, "pg_type") {
        let columns = [
            ("oid", "oid"),
            ("typname", "name"),
            ("typnamespace", "oid"),
            ("typowner", "oid"),
            ("typlen", "int2"),
            ("typbyval", "bool"),
            ("typtype", "char"),
            ("typcategory", "char"),
            ("typispreferred", "bool"),
            ("typisdefined", "bool"),
            ("typdelim", "char"),
            ("typrelid", "oid"),
            ("typelem", "oid"),
            ("typarray", "oid"),
            ("typinput", "regproc"),
            ("typoutput", "regproc"),
            ("typreceive", "regproc"),
            ("typsend", "regproc"),
            ("typmodin", "regproc"),
            ("typmodout", "regproc"),
            ("typanalyze", "regproc"),
            ("typalign", "char"),
            ("typstorage", "char"),
            ("typnotnull", "bool"),
            ("typbasetype", "oid"),
            ("typtypmod", "int4"),
            ("typndims", "int4"),
            ("typcollation", "oid"),
            ("typdefaultbin", "text"),
            ("typdefault", "text"),
        ];
        assert(pair_views(columns@) =~= seq![
            ("oid"@, "oid"@),
            ("typname"@, "name"@),
            ("typnamespace"@, "oid"@),
            ("typowner"@, "oid"@),
            ("typlen"@, "int2"@),
            ("typbyval"@, "bool"@),
            ("typtype"@, "char"@),
            ("typcategory"@, "char"@),
            ("typispreferred"@, "bool"@),
            ("typisdefined"@, "bool"@),
            ("typdelim"@, "char"@),
            ("typrelid"@, "oid"@),
            ("typelem"@, "oid"@),
            ("typarray"@, "oid"@),
            ("typinput"@, "regproc"@),
            ("typoutput"@, "regproc"@),
            ("typreceive"@, "regproc"@),
            ("typsend"@, "regproc"@),
            ("typmodin"@, "regproc"@),
            ("typmodout"@, "regproc"@),
            ("typanalyze"@, "regproc"@),
            ("typalign"@, "char"@),
            ("typstorage"@, "char"@),
            ("typnotnull"@, "bool"@),
            ("typbasetype"@, "oid"@),
            ("typtypmod"@, "int4"@),
            ("typndims"@, "int4"@),
            ("typcollation"@, "oid"@),
            ("typdefaultbin"@, "text"@),
            ("typdefault"@, "text"@),
        ]);
        Some(typed(&columns))
    } else if text::text_eq(table, "pg_cast") {
        let columns = [
            ("oid", "oid"),
            ("castsource", "oid"),
            ("casttarget", "oid"),
            ("castfunc", "oid"),
            ("castcontext", "char"),
            ("castmethod", "char"),
        ];
        assert(pair_views(columns@) =~= seq![
            ("oid"@, "oid"@),
            ("castsource"@, "oid"@),
            ("casttarget"@, "oid"@),
            ("castfunc"@, "oid"@),
            ("castcontext"@, "char"@),
            ("castmethod"@, "char"@),
        ]);
        Some(typed(&columns))
    } else if text::text_eq(table, "pg_range") {
        let columns = [
            ("rngtypid", "oid"),
            ("rngsubtype", "oid"),
            ("rngmultitypid", "oid"),
            ("rngcollation", "oid"),
            ("rngsubopc", "oid"),
            ("rngcanonical", "regproc"),
            ("rngsubdiff", "regproc"),
        ];
        assert(pair_views(columns@) =~= seq![
            ("rngtypid"@, "oid"@),
            ("rngsubtype"@, "oid"@),
            ("rngmultitypid"@, "oid"@),
            ("rngcollation"@, "oid"@),
            ("rngsubopc"@, "oid"@),
            ("rngcanonical"@, "regproc"@),
            ("rngsubdiff"@, "regproc"@),
        ]);
        Some(typed(&columns))
    } else {
        None
    }
}

/// The column types of a table of access methods and the server.
pub open spec fn server_types(table: Seq<char>) -> Option<Seq<(Seq<char>, Seq<char>)>> {
    if table == "pg_timezone_names"@ {
        Some(
            seq![
                ("name"@, "text"@),
                ("abbrev"@, "text"@),
                ("utc_offset"@, "interval"@),
                ("is_dst"@, "bool"@),
            ],
        )
    } else if table == "pg_am"@ {
        Some(
            seq![
                ("oid"@, "oid"@),
                ("amname"@, "name"@),
                ("amhandler"@, "regproc"@),
                ("amtype"@, "char"@),
            ],
        )
    } else if table == "pg_locks"@ {
        Some(
            seq![
                ("locktype"@, "text"@),
                ("database"@, "oid"@),
                ("relation"@, "oid"@),
                ("page"@, "int4"@),
                ("tuple"@, "int2"@),
                ("virtualxid"@, "text"@),
                ("transactionid"@, "xid"@),
                ("classid"@, "oid"@),
                ("objid"@, "oid"@),
                ("objsubid"@, "int2"@),
                ("virtualtransaction"@, "text"@),
                ("pid"@, "int4"@),
                ("mode"@, "text"@),
                ("granted"@, "bool"@),
                ("fastpath"@, "bool"@),
                ("waitstart"@, "timestamptz"@),
            ],
        )
    } else if table == "pg_opclass"@ {
        Some(
            seq![
                ("oid"@, "oid"@),
                ("opcmethod"@, "oid"@),
                ("opcname"@, "name"@),
                ("opcnamespace"@, "oid"@),
                ("opcowner"@, "oid"@),
                ("opcfamily"@, "oid"@),
                ("opcintype"@, "oid"@),
                ("opcdefault"@, "bool"@),
                ("opckeytype"@, "oid"@),
            ],
        )
    } else if table == "pg_opfamily"@ {
        Some(
            seq![
                ("oid"@, "oid"@),
                ("opfmethod"@, "oid"@),
                ("opfname"@, "name"@),
                ("opfnamespace"@, "oid"@),
                ("opfowner"@, "oid"@),
            ],
        )
    } else if table == "pg_amop"@ {
        Some(
            seq![
                ("oid"@, "oid"@),
                ("amopfamily"@, "oid"@),
                ("amoplefttype"@, "oid"@),
                ("amoprighttype"@, "oid"@),
                ("amopstrategy"@, "int2"@),
                ("amoppurpose"@, "char"@),
                ("amopopr"@, "oid"@),
                ("amopmethod"@, "oid"@),
                ("amopsortfamily"@, "oid"@),
            ],
        )
    } else if table == "pg_amproc"@ {
        Some(
            seq![
                ("oid"@, "oid"@),
                ("amprocfamily"@, "oid"@),
                ("amproclefttype"@, "oid"@),
                ("amprocrighttype"@, "oid"@),
                ("amprocnum"@, "int2"@),
                ("amproc"@, "regproc"@),
            ],
        )
    } else {
        None
    }
}

fn server_table(table: &str) -> (r: Option<Vec<(String, Option<String>)>>)
    ensures
        typed_list(r) == typed_option(server_types(table@)),
{
    if text::text_eq(table, "pg_timezone_names") {
        let columns = [
            ("name", "text"),
            ("abbrev", "text"),
            ("utc_offset", "interval"),
            ("is_dst", "bool"),
        ];
        assert(pair_views(columns@) =~= seq![
            ("name"@, "text"@),
            ("abbrev"@, "text"@),
            ("utc_offset"@, "interval"@),
            ("is_dst"@, "bool"@),
        ]);
        Some(typed(&columns))
    } else if text::text_eq(table, "pg_am") {
        let columns = [
            ("oid", "oid"),
            ("amname", "name"),
            ("amhandler", "regproc"),
            ("amtype", "char"),
        ];
        assert(pair_views(columns@) =~= seq![
            ("oid"@, "oid"@),
            ("amname"@, "name"@),
            ("amhandler"@, "regproc"@),
            ("amtype"@, "char"@),
        ]);
        Some(typed(&columns))
    } else if text::text_eq(table, "pg_locks") {
        let columns = [
            ("locktype", "text"),
            ("database", "oid"),
            ("relation", "oid"),
            ("page", "int4"),
            ("tuple", "int2"),
            ("virtualxid", "text"),
            ("transactionid", "xid"),
            ("classid", "oid"),
            ("objid", "oid"),
            ("objsubid", "int2"),
            ("virtualtransaction", "text"),
            ("pid", "int4"),
            ("mode", "text"),
            ("granted", "bool"),
            ("fastpath", "bool"),
            ("waitstart", "timestamptz"),
        ];
        assert(pair_views(columns@) =~= seq![
            ("locktype"@, "text"@),
            ("database"@, "oid"@),
            ("relation"@, "oid"@),
            ("page"@, "int4"@),
            ("tuple"@, "int2"@),
            ("virtualxid"@, "text"@),
            ("transactionid"@, "xid"@),
            ("classid"@, "oid"@),
            ("objid"@, "oid"@),
            ("objsubid"@, "int2"@),
            ("virtualtransaction"@, "text"@),
            ("pid"@, "int4"@),
            ("mode"@, "text"@),
            ("granted"@, "bool"@),
            ("fastpath"@, "bool"@),
            ("waitstart"@, "timestamptz"@),
        ]);
        Some(typed(&columns))
    } else if text::text_eq(table, "pg_opclass") {
        let columns = [
            ("oid", "oid"),
            ("opcmethod", "oid"),
            ("opcname", "name"),
            ("opcnamespace", "oid"),
            ("opcowner", "oid"),
            ("opcfamily", "oid"),
            ("opcintype", "oid"),
            ("opcdefault", "bool"),
            ("opckeytype", "oid"),
        ];
        assert(pair_views(columns@) =~= seq![
            ("oid"@, "oid"@),
            ("opcmethod"@, "oid"@),
            ("opcname"@, "name"@),
            ("opcnamespace"@, "oid"@),
            ("opcowner"@, "oid"@),
            ("opcfamily"@, "oid"@),
            ("opcintype"@, "oid"@),
            ("opcdefault"@, "bool"@),
            ("opckeytype"@, "oid"@),
        ]);
        Some(typed(&columns))
    } else if text::text_eq(table, "pg_opfamily") {
        let columns = [
            ("oid", "oid"),
            ("opfmethod", "oid"),
            ("opfname", "name"),
            ("opfnamespace", "oid"),
            ("opfowner", "oid"),
        ];
        assert(pair_views(columns@) =~= seq![
            ("oid"@, "oid"@),
            ("opfmethod"@, "oid"@),
            ("opfname"@, "name"@),
            ("opfnamespace"@, "oid"@),
            ("opfowner"@, "oid"@),
        ]);
        Some(typed(&columns))
    } else if text::text_eq(table, "pg_amop") {
        let columns = [
            ("oid", "oid"),
            ("amopfamily", "oid"),
            ("amoplefttype", "oid"),
            ("amoprighttype", "oid"),
            ("amopstrategy", "int2"),
            ("amoppurpose", "char"),
            ("amopopr", "oid"),
            ("amopmethod", "oid"),
            ("amopsortfamily", "oid"),
        ];
        assert(pair_views(columns@) =~= seq![
            ("oid"@, "oid"@),
            ("amopfamily"@, "oid"@),
            ("amoplefttype"@, "oid"@),
            ("amoprighttype"@, "oid"@),
            ("amopstrategy"@, "int2"@),
            ("amoppurpose"@, "char"@),
            ("amopopr"@, "oid"@),
            ("amopmethod"@, "oid"@),
            ("amopsortfamily"@, "oid"@),
        ]);
        Some(typed(&columns))
    } else if text::text_eq(table, "pg_amproc") {
        let columns = [
            ("oid", "oid"),
            ("amprocfamily", "oid"),
            ("amproclefttype", "oid"),
            ("amprocrighttype", "oid"),
            ("amprocnum", "int2"),
            ("amproc", "regproc"),
        ];
        assert(pair_views(columns@) =~= seq![
            ("oid"@, "oid"@),
            ("amprocfamily"@, "oid"@),
            ("amproclefttype"@, "oid"@),
            ("amprocrighttype"@, "oid"@),
            ("amprocnum"@, "int2"@),
            ("amproc"@, "regproc"@),
        ]);
        Some(typed(&columns))
    } else {
        None
    }
}

/// The column types of a virtual table, for those that have declared ones.
pub open spec fn types_of(table: Seq<char>) -> Option<Seq<(Seq<char>, Seq<char>)>> {
    let name = catalog_columns::without_catalog(table);
    if information_schema_types(name) is Some {
        information_schema_types(name)
    } else if relation_types(name) is Some {
        relation_types(name)
    } else if type_types(name) is Some {
        type_types(name)
    } else {
        server_types(name)
    }
}

/// The columns of a virtual table with their types, for those that have
/// declared ones.
pub fn virtual_table_column_types(table: &str) -> (r: Option<Vec<(String, Option<String>)>>)
    ensures
        typed_list(r) == typed_option(types_of(table@)),
{
    let name = catalog_columns::strip_catalog(table);
    let found = information_schema_table(name.as_str());
    if found.is_some() {
        return found;
    }
    let found = relation_table(name.as_str());
    if found.is_some() {
        return found;
    }
    let found = type_table(name.as_str());
    if found.is_some() {
        return found;
    }
    server_table(name.as_str())
}

} // verus!
