//! The typed columns of the virtual tables against their lists of columns.
use vstd::prelude::*;
use crate::catalog_columns;
use crate::catalog_types;
use crate::text;

verus! {

/// No two columns have the same name.
pub open spec fn distinct_names(list: Seq<(Seq<char>, Seq<char>)>) -> bool {
    forall|i: int, j: int|
        0 <= i < j < list.len() ==> (#[trigger] list[i]).0 != (#[trigger] list[j]).0
}

/// Every column is one of the listed ones.
pub open spec fn names_among(list: Seq<(Seq<char>, Seq<char>)>, columns: Seq<Seq<char>>) -> bool {
    forall|i: int| 0 <= i < list.len() ==> columns.contains((#[trigger] list[i]).0)
}

/// The typed columns of a table have different names, and are among its columns where
/// those are listed.
pub open spec fn fits_columns(name: Seq<char>, list: Seq<(Seq<char>, Seq<char>)>) -> bool {
    &&& distinct_names(list)
    &&& catalog_columns::columns_of(name) matches Some(columns) ==> names_among(list, columns)
}

/// The character of a text at a position, counted from its end where it is negative.
spec fn at(s: Seq<char>, position: int) -> char {
    if 0 <= position < s.len() {
        s[position]
    } else if -s.len() <= position < 0 {
        s[s.len() + position]
    } else {
        ' '
    }
}

/// What tells texts apart: their lengths and their characters at three positions.
spec fn mark(s: Seq<char>, a: int, b: int, c: int) -> (nat, char, char, char) {
    (s.len(), at(s, a), at(s, b), at(s, c))
}

/// The names of the tables are told apart.
proof fn lemma_table_marks()
    ensures
        mark("bicdb_consensus_status"@, 3, -4, 3) == (22nat, 'd', 'a', 'd'),
        mark("bicdb_replication_errors"@, 3, -4, 3) == (24nat, 'd', 'r', 'd'),
        mark("bicdb_replication_lag"@, 3, -4, 3) == (21nat, 'd', '_', 'd'),
        mark("bicdb_replication_nodes"@, 3, -4, 3) == (23nat, 'd', 'o', 'd'),
        mark("bicdb_replication_status"@, 3, -4, 3) == (24nat, 'd', 'a', 'd'),
        mark("information_schema.columns"@, 3, -4, 3) == (26nat, 'o', 'u', 'o'),
        mark("information_schema.domains"@, 3, -4, 3) == (26nat, 'o', 'a', 'o'),
        mark("information_schema.element_types"@, 3, -4, 3) == (32nat, 'o', 'y', 'o'),
        mark("information_schema.parameters"@, 3, -4, 3) == (29nat, 'o', 't', 'o'),
        mark("information_schema.routines"@, 3, -4, 3) == (27nat, 'o', 'i', 'o'),
        mark("information_schema.user_defined_types"@, 3, -4, 3) == (37nat, 'o', 'y', 'o'),
        mark("pg_am"@, 3, -4, 3) == (5nat, 'a', 'g', 'a'),
        mark("pg_amop"@, 3, -4, 3) == (7nat, 'a', 'a', 'a'),
        mark("pg_amproc"@, 3, -4, 3) == (9nat, 'a', 'p', 'a'),
        mark("pg_attribute"@, 3, -4, 3) == (12nat, 'a', 'b', 'a'),
        mark("pg_auth_members"@, 3, -4, 3) == (15nat, 'a', 'b', 'a'),
        mark("pg_cast"@, 3, -4, 3) == (7nat, 'c', 'c', 'c'),
        mark("pg_class"@, 3, -4, 3) == (8nat, 'c', 'l', 'c'),
        mark("pg_constraint"@, 3, -4, 3) == (13nat, 'c', 'a', 'c'),
        mark("pg_control_system"@, 3, -4, 3) == (17nat, 'c', 's', 'c'),
        mark("pg_conversion"@, 3, -4, 3) == (13nat, 'c', 's', 'c'),
        mark("pg_db_role_setting"@, 3, -4, 3) == (18nat, 'd', 't', 'd'),
        mark("pg_default_acl"@, 3, -4, 3) == (14nat, 'd', '_', 'd'),
        mark("pg_depend"@, 3, -4, 3) == (9nat, 'd', 'p', 'd'),
        mark("pg_description"@, 3, -4, 3) == (14nat, 'd', 't', 'd'),
        mark("pg_event_trigger"@, 3, -4, 3) == (16nat, 'e', 'g', 'e'),
        mark("pg_foreign_data_wrapper"@, 3, -4, 3) == (23nat, 'f', 'p', 'f'),
        mark("pg_foreign_server"@, 3, -4, 3) == (17nat, 'f', 'r', 'f'),
        mark("pg_foreign_table"@, 3, -4, 3) == (16nat, 'f', 'a', 'f'),
        mark("pg_index"@, 3, -4, 3) == (8nat, 'i', 'n', 'i'),
        mark("pg_inherits"@, 3, -4, 3) == (11nat, 'i', 'r', 'i'),
        mark("pg_init_privs"@, 3, -4, 3) == (13nat, 'i', 'r', 'i'),
        mark("pg_language"@, 3, -4, 3) == (11nat, 'l', 'u', 'l'),
        mark("pg_largeobject_metadata"@, 3, -4, 3) == (23nat, 'l', 'd', 'l'),
        mark("pg_locks"@, 3, -4, 3) == (8nat, 'l', 'o', 'l'),
        mark("pg_namespace"@, 3, -4, 3) == (12nat, 'n', 'p', 'n'),
        mark("pg_opclass"@, 3, -4, 3) == (10nat, 'o', 'l', 'o'),
        mark("pg_operator"@, 3, -4, 3) == (11nat, 'o', 'a', 'o'),
        mark("pg_opfamily"@, 3, -4, 3) == (11nat, 'o', 'm', 'o'),
        mark("pg_partitioned_table"@, 3, -4, 3) == (20nat, 'p', 'a', 'p'),
        mark("pg_publication"@, 3, -4, 3) == (14nat, 'p', 't', 'p'),
        mark("pg_publication_namespace"@, 3, -4, 3) == (24nat, 'p', 'p', 'p'),
        mark("pg_publication_rel"@, 3, -4, 3) == (18nat, 'p', '_', 'p'),
        mark("pg_range"@, 3, -4, 3) == (8nat, 'r', 'a', 'r'),
        mark("pg_rewrite"@, 3, -4, 3) == (10nat, 'r', 'r', 'r'),
        mark("pg_seclabel"@, 3, -4, 3) == (11nat, 's', 'a', 's'),
        mark("pg_seclabels"@, 3, -4, 3) == (12nat, 's', 'b', 's'),
        mark("pg_settings"@, 3, -4, 3) == (11nat, 's', 'i', 's'),
        mark("pg_shseclabel"@, 3, -4, 3) == (13nat, 's', 'a', 's'),
        mark("pg_stat_all_tables"@, 3, -4, 3) == (18nat, 's', 'b', 's'),
        mark("pg_stat_database"@, 3, -4, 3) == (16nat, 's', 'b', 's'),
        mark("pg_stat_user_tables"@, 3, -4, 3) == (19nat, 's', 'b', 's'),
        mark("pg_statistic_ext"@, 3, -4, 3) == (16nat, 's', '_', 's'),
        mark("pg_statistic_ext_data"@, 3, -4, 3) == (21nat, 's', 'd', 's'),
        mark("pg_stats"@, 3, -4, 3) == (8nat, 's', 't', 's'),
        mark("pg_subscription"@, 3, -4, 3) == (15nat, 's', 't', 's'),
        mark("pg_subscription_rel"@, 3, -4, 3) == (19nat, 's', '_', 's'),
        mark("pg_tables"@, 3, -4, 3) == (9nat, 't', 'b', 't'),
        mark("pg_timezone_names"@, 3, -4, 3) == (17nat, 't', 'a', 't'),
        mark("pg_transform"@, 3, -4, 3) == (12nat, 't', 'f', 't'),
        mark("pg_ts_config"@, 3, -4, 3) == (12nat, 't', 'n', 't'),
        mark("pg_ts_config_map"@, 3, -4, 3) == (16nat, 't', '_', 't'),
        mark("pg_ts_dict"@, 3, -4, 3) == (10nat, 't', 'd', 't'),
        mark("pg_ts_parser"@, 3, -4, 3) == (12nat, 't', 'r', 't'),
        mark("pg_ts_template"@, 3, -4, 3) == (14nat, 't', 'l', 't'),
        mark("pg_type"@, 3, -4, 3) == (7nat, 't', 't', 't'),
        mark("pg_user_mappings"@, 3, -4, 3) == (16nat, 'u', 'i', 'u'),
{
    reveal_strlit("bicdb_consensus_status");
    reveal_strlit("bicdb_replication_errors");
    reveal_strlit("bicdb_replication_lag");
    reveal_strlit("bicdb_replication_nodes");
    reveal_strlit("bicdb_replication_status");
    reveal_strlit("information_schema.columns");
    reveal_strlit("information_schema.domains");
    reveal_strlit("information_schema.element_types");
    reveal_strlit("information_schema.parameters");
    reveal_strlit("information_schema.routines");
    reveal_strlit("information_schema.user_defined_types");
    reveal_strlit("pg_am");
    reveal_strlit("pg_amop");
    reveal_strlit("pg_amproc");
    reveal_strlit("pg_attribute");
    reveal_strlit("pg_auth_members");
    reveal_strlit("pg_cast");
    reveal_strlit("pg_class");
    reveal_strlit("pg_constraint");
    reveal_strlit("pg_control_system");
    reveal_strlit("pg_conversion");
    reveal_strlit("pg_db_role_setting");
    reveal_strlit("pg_default_acl");
    reveal_strlit("pg_depend");
    reveal_strlit("pg_description");
    reveal_strlit("pg_event_trigger");
    reveal_strlit("pg_foreign_data_wrapper");
    reveal_strlit("pg_foreign_server");
    reveal_strlit("pg_foreign_table");
    reveal_strlit("pg_index");
    reveal_strlit("pg_inherits");
    reveal_strlit("pg_init_privs");
    reveal_strlit("pg_language");
    reveal_strlit("pg_largeobject_metadata");
    reveal_strlit("pg_locks");
    reveal_strlit("pg_namespace");
    reveal_strlit("pg_opclass");
    reveal_strlit("pg_operator");
    reveal_strlit("pg_opfamily");
    reveal_strlit("pg_partitioned_table");
    reveal_strlit("pg_publication");
    reveal_strlit("pg_publication_namespace");
    reveal_strlit("pg_publication_rel");
    reveal_strlit("pg_range");
    reveal_strlit("pg_rewrite");
    reveal_strlit("pg_seclabel");
    reveal_strlit("pg_seclabels");
    reveal_strlit("pg_settings");
    reveal_strlit("pg_shseclabel");
    reveal_strlit("pg_stat_all_tables");
    reveal_strlit("pg_stat_database");
    reveal_strlit("pg_stat_user_tables");
    reveal_strlit("pg_statistic_ext");
    reveal_strlit("pg_statistic_ext_data");
    reveal_strlit("pg_stats");
    reveal_strlit("pg_subscription");
    reveal_strlit("pg_subscription_rel");
    reveal_strlit("pg_tables");
    reveal_strlit("pg_timezone_names");
    reveal_strlit("pg_transform");
    reveal_strlit("pg_ts_config");
    reveal_strlit("pg_ts_config_map");
    reveal_strlit("pg_ts_dict");
    reveal_strlit("pg_ts_parser");
    reveal_strlit("pg_ts_template");
    reveal_strlit("pg_type");
    reveal_strlit("pg_user_mappings");
}

proof fn lemma_information_schema_domains(name: Seq<char>)
    requires
        name == "information_schema.domains"@,
        catalog_columns::without_catalog(name) == name,
    ensures
        catalog_types::information_schema_types(name) is Some,
        fits_columns(name, catalog_types::information_schema_types(name)->0),
{
    lemma_table_marks();
    let list = catalog_types::information_schema_types(name)->0;
    assert(list.len() == 10);
    assert(distinct_names(list)) by {
        reveal_strlit("domain_catalog");
        reveal_strlit("domain_schema");
        reveal_strlit("domain_name");
        reveal_strlit("data_type");
        reveal_strlit("domain_default");
        reveal_strlit("udt_schema");
        reveal_strlit("udt_name");
        reveal_strlit("numeric_precision");
        reveal_strlit("numeric_scale");
        reveal_strlit("dtd_identifier");
        assert(mark(list[0].0, 7, 7, 7) == (14nat, 'c', 'c', 'c'));
        assert(mark(list[1].0, 7, 7, 7) == (13nat, 's', 's', 's'));
        assert(mark(list[2].0, 7, 7, 7) == (11nat, 'n', 'n', 'n'));
        assert(mark(list[3].0, 7, 7, 7) == (9nat, 'p', 'p', 'p'));
        assert(mark(list[4].0, 7, 7, 7) == (14nat, 'd', 'd', 'd'));
        assert(mark(list[5].0, 7, 7, 7) == (10nat, 'e', 'e', 'e'));
        assert(mark(list[6].0, 7, 7, 7) == (8nat, 'e', 'e', 'e'));
        assert(mark(list[7].0, 7, 7, 7) == (17nat, '_', '_', '_'));
        assert(mark(list[8].0, 7, 7, 7) == (13nat, '_', '_', '_'));
        assert(mark(list[9].0, 7, 7, 7) == (14nat, 'n', 'n', 'n'));
    }
    let columns = catalog_columns::information_schema_columns(name)->0;
    assert(catalog_columns::columns_of(name) == Some(columns));
    assert(names_among(list, columns)) by {
        assert(columns[0] == list[0].0);
        assert(columns[1] == list[1].0);
        assert(columns[2] == list[2].0);
        assert(columns[3] == list[3].0);
        assert(columns[18] == list[4].0);
        assert(columns[20] == list[5].0);
        assert(columns[21] == list[6].0);
        assert(columns[12] == list[7].0);
        assert(columns[14] == list[8].0);
        assert(columns[26] == list[9].0);
    }
}

proof fn lemma_information_schema_columns(name: Seq<char>)
    requires
        name == "information_schema.columns"@,
        catalog_columns::without_catalog(name) == name,
    ensures
        catalog_types::information_schema_types(name) is Some,
        fits_columns(name, catalog_types::information_schema_types(name)->0),
{
    lemma_table_marks();
    let list = catalog_types::information_schema_types(name)->0;
    assert(list.len() == 26);
    assert(distinct_names(list)) by {
        reveal_strlit("table_catalog");
        reveal_strlit("table_schema");
        reveal_strlit("table_name");
        reveal_strlit("column_name");
        reveal_strlit("ordinal_position");
        reveal_strlit("column_default");
        reveal_strlit("is_nullable");
        reveal_strlit("data_type");
        reveal_strlit("domain_schema");
        reveal_strlit("domain_name");
        reveal_strlit("udt_catalog");
        reveal_strlit("udt_schema");
        reveal_strlit("udt_name");
        reveal_strlit("character_maximum_length");
        reveal_strlit("character_octet_length");
        reveal_strlit("collation_catalog");
        reveal_strlit("collation_schema");
        reveal_strlit("collation_name");
        reveal_strlit("is_identity");
        reveal_strlit("identity_generation");
        reveal_strlit("identity_start");
        reveal_strlit("identity_increment");
        reveal_strlit("identity_maximum");
        reveal_strlit("identity_minimum");
        reveal_strlit("identity_cycle");
        reveal_strlit("dtd_identifier");
        assert(mark(list[0].0, 0, 10, 0) == (13nat, 't', 'l', 't'));
        assert(mark(list[1].0, 0, 10, 0) == (12nat, 't', 'm', 't'));
        assert(mark(list[2].0, 0, 10, 0) == (10nat, 't', ' ', 't'));
        assert(mark(list[3].0, 0, 10, 0) == (11nat, 'c', 'e', 'c'));
        assert(mark(list[4].0, 0, 10, 0) == (16nat, 'o', 's', 'o'));
        assert(mark(list[5].0, 0, 10, 0) == (14nat, 'c', 'a', 'c'));
        assert(mark(list[6].0, 0, 10, 0) == (11nat, 'i', 'e', 'i'));
        assert(mark(list[7].0, 0, 10, 0) == (9nat, 'd', ' ', 'd'));
        assert(mark(list[8].0, 0, 10, 0) == (13nat, 'd', 'e', 'd'));
        assert(mark(list[9].0, 0, 10, 0) == (11nat, 'd', 'e', 'd'));
        assert(mark(list[10].0, 0, 10, 0) == (11nat, 'u', 'g', 'u'));
        assert(mark(list[11].0, 0, 10, 0) == (10nat, 'u', ' ', 'u'));
        assert(mark(list[12].0, 0, 10, 0) == (8nat, 'u', ' ', 'u'));
        assert(mark(list[13].0, 0, 10, 0) == (24nat, 'c', 'm', 'c'));
        assert(mark(list[14].0, 0, 10, 0) == (22nat, 'c', 'o', 'c'));
        assert(mark(list[15].0, 0, 10, 0) == (17nat, 'c', 'c', 'c'));
        assert(mark(list[16].0, 0, 10, 0) == (16nat, 'c', 's', 'c'));
        assert(mark(list[17].0, 0, 10, 0) == (14nat, 'c', 'n', 'c'));
        assert(mark(list[18].0, 0, 10, 0) == (11nat, 'i', 'y', 'i'));
        assert(mark(list[19].0, 0, 10, 0) == (19nat, 'i', 'e', 'i'));
        assert(mark(list[20].0, 0, 10, 0) == (14nat, 'i', 't', 'i'));
        assert(mark(list[21].0, 0, 10, 0) == (18nat, 'i', 'n', 'i'));
        assert(mark(list[22].0, 0, 10, 0) == (16nat, 'i', 'a', 'i'));
        assert(mark(list[23].0, 0, 10, 0) == (16nat, 'i', 'i', 'i'));
        assert(mark(list[24].0, 0, 10, 0) == (14nat, 'i', 'y', 'i'));
        assert(mark(list[25].0, 0, 10, 0) == (14nat, 'd', 'f', 'd'));
    }
    let columns = catalog_columns::information_schema_columns(name)->0;
    assert(catalog_columns::columns_of(name) == Some(columns));
    assert(names_among(list, columns)) by {
        assert(columns[0] == list[0].0);
        assert(columns[1] == list[1].0);
        assert(columns[2] == list[2].0);
        assert(columns[3] == list[3].0);
        assert(columns[4] == list[4].0);
        assert(columns[5] == list[5].0);
        assert(columns[6] == list[6].0);
        assert(columns[7] == list[7].0);
        assert(columns[23] == list[8].0);
        assert(columns[24] == list[9].0);
        assert(columns[25] == list[10].0);
        assert(columns[26] == list[11].0);
        assert(columns[27] == list[12].0);
        assert(columns[8] == list[13].0);
        assert(columns[9] == list[14].0);
        assert(columns[19] == list[15].0);
        assert(columns[20] == list[16].0);
        assert(columns[21] == list[17].0);
        assert(columns[34] == list[18].0);
        assert(columns[35] == list[19].0);
        assert(columns[36] == list[20].0);
        assert(columns[37] == list[21].0);
        assert(columns[38] == list[22].0);
        assert(columns[39] == list[23].0);
        assert(columns[40] == list[24].0);
        assert(columns[32] == list[25].0);
    }
}

proof fn lemma_information_schema_element_types(name: Seq<char>)
    requires
        name == "information_schema.element_types"@,
        catalog_columns::without_catalog(name) == name,
    ensures
        catalog_types::information_schema_types(name) is Some,
        fits_columns(name, catalog_types::information_schema_types(name)->0),
{
    lemma_table_marks();
    let list = catalog_types::information_schema_types(name)->0;
    assert(list.len() == 9);
    assert(distinct_names(list)) by {
        reveal_strlit("object_catalog");
        reveal_strlit("object_schema");
        reveal_strlit("object_name");
        reveal_strlit("object_type");
        reveal_strlit("collection_type_identifier");
        reveal_strlit("data_type");
        reveal_strlit("udt_schema");
        reveal_strlit("udt_name");
        reveal_strlit("dtd_identifier");
        assert(mark(list[0].0, 7, 7, 7) == (14nat, 'c', 'c', 'c'));
        assert(mark(list[1].0, 7, 7, 7) == (13nat, 's', 's', 's'));
        assert(mark(list[2].0, 7, 7, 7) == (11nat, 'n', 'n', 'n'));
        assert(mark(list[3].0, 7, 7, 7) == (11nat, 't', 't', 't'));
        assert(mark(list[4].0, 7, 7, 7) == (26nat, 'i', 'i', 'i'));
        assert(mark(list[5].0, 7, 7, 7) == (9nat, 'p', 'p', 'p'));
        assert(mark(list[6].0, 7, 7, 7) == (10nat, 'e', 'e', 'e'));
        assert(mark(list[7].0, 7, 7, 7) == (8nat, 'e', 'e', 'e'));
        assert(mark(list[8].0, 7, 7, 7) == (14nat, 'n', 'n', 'n'));
    }
    let columns = catalog_columns::information_schema_columns(name)->0;
    assert(catalog_columns::columns_of(name) == Some(columns));
    assert(names_among(list, columns)) by {
        assert(columns[0] == list[0].0);
        assert(columns[1] == list[1].0);
        assert(columns[2] == list[2].0);
        assert(columns[3] == list[3].0);
        assert(columns[4] == list[4].0);
        assert(columns[5] == list[5].0);
        assert(columns[21] == list[6].0);
        assert(columns[22] == list[7].0);
        assert(columns[27] == list[8].0);
    }
}

proof fn lemma_information_schema_user_defined_types(name: Seq<char>)
    requires
        name == "information_schema.user_defined_types"@,
        catalog_columns::without_catalog(name) == name,
    ensures
        catalog_types::information_schema_types(name) is Some,
        fits_columns(name, catalog_types::information_schema_types(name)->0),
{
    lemma_table_marks();
    let list = catalog_types::information_schema_types(name)->0;
    assert(list.len() == 7);
    assert(distinct_names(list)) by {
        reveal_strlit("user_defined_type_catalog");
        reveal_strlit("user_defined_type_schema");
        reveal_strlit("user_defined_type_name");
        reveal_strlit("user_defined_type_category");
        reveal_strlit("is_instantiable");
        reveal_strlit("is_final");
        reveal_strlit("ordering_form");
        assert(mark(list[0].0, 0, 0, 0) == (25nat, 'u', 'u', 'u'));
        assert(mark(list[1].0, 0, 0, 0) == (24nat, 'u', 'u', 'u'));
        assert(mark(list[2].0, 0, 0, 0) == (22nat, 'u', 'u', 'u'));
        assert(mark(list[3].0, 0, 0, 0) == (26nat, 'u', 'u', 'u'));
        assert(mark(list[4].0, 0, 0, 0) == (15nat, 'i', 'i', 'i'));
        assert(mark(list[5].0, 0, 0, 0) == (8nat, 'i', 'i', 'i'));
        assert(mark(list[6].0, 0, 0, 0) == (13nat, 'o', 'o', 'o'));
    }
    let columns = catalog_columns::information_schema_columns(name)->0;
    assert(catalog_columns::columns_of(name) == Some(columns));
    assert(names_among(list, columns)) by {
        assert(columns[0] == list[0].0);
        assert(columns[1] == list[1].0);
        assert(columns[2] == list[2].0);
        assert(columns[3] == list[3].0);
        assert(columns[4] == list[4].0);
        assert(columns[5] == list[5].0);
        assert(columns[6] == list[6].0);
    }
}

proof fn lemma_information_schema_routines(name: Seq<char>)
    requires
        name == "information_schema.routines"@,
        catalog_columns::without_catalog(name) == name,
    ensures
        catalog_types::information_schema_types(name) is Some,
        fits_columns(name, catalog_types::information_schema_types(name)->0),
{
    lemma_table_marks();
    let list = catalog_types::information_schema_types(name)->0;
    assert(list.len() == 17);
    assert(distinct_names(list)) by {
        reveal_strlit("specific_catalog");
        reveal_strlit("specific_schema");
        reveal_strlit("specific_name");
        reveal_strlit("routine_catalog");
        reveal_strlit("routine_schema");
        reveal_strlit("routine_name");
        reveal_strlit("routine_type");
        reveal_strlit("data_type");
        reveal_strlit("type_udt_schema");
        reveal_strlit("type_udt_name");
        reveal_strlit("routine_body");
        reveal_strlit("external_language");
        reveal_strlit("parameter_style");
        reveal_strlit("is_deterministic");
        reveal_strlit("sql_data_access");
        reveal_strlit("security_type");
        reveal_strlit("dtd_identifier");
        assert(mark(list[0].0, 0, 9, 0) == (16nat, 's', 'c', 's'));
        assert(mark(list[1].0, 0, 9, 0) == (15nat, 's', 's', 's'));
        assert(mark(list[2].0, 0, 9, 0) == (13nat, 's', 'n', 's'));
        assert(mark(list[3].0, 0, 9, 0) == (15nat, 'r', 'a', 'r'));
        assert(mark(list[4].0, 0, 9, 0) == (14nat, 'r', 'c', 'r'));
        assert(mark(list[5].0, 0, 9, 0) == (12nat, 'r', 'a', 'r'));
        assert(mark(list[6].0, 0, 9, 0) == (12nat, 'r', 'y', 'r'));
        assert(mark(list[7].0, 0, 9, 0) == (9nat, 'd', ' ', 'd'));
        assert(mark(list[8].0, 0, 9, 0) == (15nat, 't', 's', 't'));
        assert(mark(list[9].0, 0, 9, 0) == (13nat, 't', 'n', 't'));
        assert(mark(list[10].0, 0, 9, 0) == (12nat, 'r', 'o', 'r'));
        assert(mark(list[11].0, 0, 9, 0) == (17nat, 'e', 'l', 'e'));
        assert(mark(list[12].0, 0, 9, 0) == (15nat, 'p', '_', 'p'));
        assert(mark(list[13].0, 0, 9, 0) == (16nat, 'i', 'i', 'i'));
        assert(mark(list[14].0, 0, 9, 0) == (15nat, 's', 'a', 's'));
        assert(mark(list[15].0, 0, 9, 0) == (13nat, 's', 't', 's'));
        assert(mark(list[16].0, 0, 9, 0) == (14nat, 'd', 'i', 'd'));
    }
    let columns = catalog_columns::information_schema_columns(name)->0;
    assert(catalog_columns::columns_of(name) == Some(columns));
    assert(names_among(list, columns)) by {
        assert(columns[0] == list[0].0);
        assert(columns[1] == list[1].0);
        assert(columns[2] == list[2].0);
        assert(columns[3] == list[3].0);
        assert(columns[4] == list[4].0);
        assert(columns[5] == list[5].0);
        assert(columns[6] == list[6].0);
        assert(columns[13] == list[7].0);
        assert(columns[29] == list[8].0);
        assert(columns[30] == list[9].0);
        assert(columns[36] == list[10].0);
        assert(columns[39] == list[11].0);
        assert(columns[40] == list[12].0);
        assert(columns[41] == list[13].0);
        assert(columns[42] == list[14].0);
        assert(columns[49] == list[15].0);
        assert(columns[35] == list[16].0);
    }
}

proof fn lemma_information_schema_parameters(name: Seq<char>)
    requires
        name == "information_schema.parameters"@,
        catalog_columns::without_catalog(name) == name,
    ensures
        catalog_types::information_schema_types(name) is Some,
        fits_columns(name, catalog_types::information_schema_types(name)->0),
{
    lemma_table_marks();
    let list = catalog_types::information_schema_types(name)->0;
    assert(list.len() == 12);
    assert(distinct_names(list)) by {
        reveal_strlit("specific_catalog");
        reveal_strlit("specific_schema");
        reveal_strlit("specific_name");
        reveal_strlit("ordinal_position");
        reveal_strlit("parameter_mode");
        reveal_strlit("is_result");
        reveal_strlit("as_locator");
        reveal_strlit("parameter_name");
        reveal_strlit("data_type");
        reveal_strlit("udt_schema");
        reveal_strlit("udt_name");
        reveal_strlit("dtd_identifier");
        assert(mark(list[0].0, -4, -4, -4) == (16nat, 'a', 'a', 'a'));
        assert(mark(list[1].0, -4, -4, -4) == (15nat, 'h', 'h', 'h'));
        assert(mark(list[2].0, -4, -4, -4) == (13nat, 'n', 'n', 'n'));
        assert(mark(list[3].0, -4, -4, -4) == (16nat, 't', 't', 't'));
        assert(mark(list[4].0, -4, -4, -4) == (14nat, 'm', 'm', 'm'));
        assert(mark(list[5].0, -4, -4, -4) == (9nat, 's', 's', 's'));
        assert(mark(list[6].0, -4, -4, -4) == (10nat, 'a', 'a', 'a'));
        assert(mark(list[7].0, -4, -4, -4) == (14nat, 'n', 'n', 'n'));
        assert(mark(list[8].0, -4, -4, -4) == (9nat, 't', 't', 't'));
        assert(mark(list[9].0, -4, -4, -4) == (10nat, 'h', 'h', 'h'));
        assert(mark(list[10].0, -4, -4, -4) == (8nat, 'n', 'n', 'n'));
        assert(mark(list[11].0, -4, -4, -4) == (14nat, 'f', 'f', 'f'));
    }
    let columns = catalog_columns::information_schema_columns(name)->0;
    assert(catalog_columns::columns_of(name) == Some(columns));
    assert(names_among(list, columns)) by {
        assert(columns[0] == list[0].0);
        assert(columns[1] == list[1].0);
        assert(columns[2] == list[2].0);
        assert(columns[3] == list[3].0);
        assert(columns[4] == list[4].0);
        assert(columns[5] == list[5].0);
        assert(columns[6] == list[6].0);
        assert(columns[7] == list[7].0);
        assert(columns[8] == list[8].0);
        assert(columns[24] == list[9].0);
        assert(columns[25] == list[10].0);
        assert(columns[30] == list[11].0);
    }
}

proof fn lemma_pg_namespace(name: Seq<char>)
    requires
        name == "pg_namespace"@,
        catalog_columns::without_catalog(name) == name,
    ensures
        catalog_types::relation_types(name) is Some,
        fits_columns(name, catalog_types::relation_types(name)->0),
{
    lemma_table_marks();
    let list = catalog_types::relation_types(name)->0;
    assert(list.len() == 4);
    assert(distinct_names(list)) by {
        reveal_strlit("oid");
        reveal_strlit("nspname");
        reveal_strlit("nspowner");
        reveal_strlit("nspacl");
        assert(mark(list[0].0, 0, 0, 0) == (3nat, 'o', 'o', 'o'));
        assert(mark(list[1].0, 0, 0, 0) == (7nat, 'n', 'n', 'n'));
        assert(mark(list[2].0, 0, 0, 0) == (8nat, 'n', 'n', 'n'));
        assert(mark(list[3].0, 0, 0, 0) == (6nat, 'n', 'n', 'n'));
    }
    assert(catalog_columns::columns_of(name) is None);
}

proof fn lemma_pg_stats(name: Seq<char>)
    requires
        name == "pg_stats"@,
        catalog_columns::without_catalog(name) == name,
    ensures
        catalog_types::relation_types(name) is Some,
        fits_columns(name, catalog_types::relation_types(name)->0),
{
    lemma_table_marks();
    let list = catalog_types::relation_types(name)->0;
    assert(list.len() == 17);
    assert(distinct_names(list)) by {
        reveal_strlit("schemaname");
        reveal_strlit("tablename");
        reveal_strlit("attname");
        reveal_strlit("inherited");
        reveal_strlit("null_frac");
        reveal_strlit("avg_width");
        reveal_strlit("n_distinct");
        reveal_strlit("most_common_vals");
        reveal_strlit("most_common_freqs");
        reveal_strlit("histogram_bounds");
        reveal_strlit("correlation");
        reveal_strlit("most_common_elems");
        reveal_strlit("most_common_elem_freqs");
        reveal_strlit("elem_count_histogram");
        reveal_strlit("range_length_histogram");
        reveal_strlit("range_empty_frac");
        reveal_strlit("range_bounds_histogram");
        assert(mark(list[0].0, 6, 12, 6) == (10nat, 'n', ' ', 'n'));
        assert(mark(list[1].0, 6, 12, 6) == (9nat, 'a', ' ', 'a'));
        assert(mark(list[2].0, 6, 12, 6) == (7nat, 'e', ' ', 'e'));
        assert(mark(list[3].0, 6, 12, 6) == (9nat, 't', ' ', 't'));
        assert(mark(list[4].0, 6, 12, 6) == (9nat, 'r', ' ', 'r'));
        assert(mark(list[5].0, 6, 12, 6) == (9nat, 'd', ' ', 'd'));
        assert(mark(list[6].0, 6, 12, 6) == (10nat, 'i', ' ', 'i'));
        assert(mark(list[7].0, 6, 12, 6) == (16nat, 'o', 'v', 'o'));
        assert(mark(list[8].0, 6, 12, 6) == (17nat, 'o', 'f', 'o'));
        assert(mark(list[9].0, 6, 12, 6) == (16nat, 'r', 'u', 'r'));
        assert(mark(list[10].0, 6, 12, 6) == (11nat, 'a', ' ', 'a'));
        assert(mark(list[11].0, 6, 12, 6) == (17nat, 'o', 'e', 'o'));
        assert(mark(list[12].0, 6, 12, 6) == (22nat, 'o', 'e', 'o'));
        assert(mark(list[13].0, 6, 12, 6) == (20nat, 'o', 'i', 'o'));
        assert(mark(list[14].0, 6, 12, 6) == (22nat, 'l', '_', 'l'));
        assert(mark(list[15].0, 6, 12, 6) == (16nat, 'e', 'f', 'e'));
        assert(mark(list[16].0, 6, 12, 6) == (22nat, 'b', '_', 'b'));
    }
    let columns = catalog_columns::storage_columns(name)->0;
    assert(catalog_columns::columns_of(name) == Some(columns));
    assert(names_among(list, columns)) by {
        assert(columns[0] == list[0].0);
        assert(columns[1] == list[1].0);
        assert(columns[2] == list[2].0);
        assert(columns[3] == list[3].0);
        assert(columns[4] == list[4].0);
        assert(columns[5] == list[5].0);
        assert(columns[6] == list[6].0);
        assert(columns[7] == list[7].0);
        assert(columns[8] == list[8].0);
        assert(columns[9] == list[9].0);
        assert(columns[10] == list[10].0);
        assert(columns[11] == list[11].0);
        assert(columns[12] == list[12].0);
        assert(columns[13] == list[13].0);
        assert(columns[14] == list[14].0);
        assert(columns[15] == list[15].0);
        assert(columns[16] == list[16].0);
    }
}

proof fn lemma_pg_attribute(name: Seq<char>)
    requires
        name == "pg_attribute"@,
        catalog_columns::without_catalog(name) == name,
    ensures
        catalog_types::relation_types(name) is Some,
        fits_columns(name, catalog_types::relation_types(name)->0),
{
    lemma_table_marks();
    let list = catalog_types::relation_types(name)->0;
    assert(list.len() == 26);
    assert(distinct_names(list)) by {
        reveal_strlit("attrelid");
        reveal_strlit("attname");
        reveal_strlit("atttypid");
        reveal_strlit("attstattarget");
        reveal_strlit("attlen");
        reveal_strlit("attnum");
        reveal_strlit("attndims");
        reveal_strlit("attcacheoff");
        reveal_strlit("atttypmod");
        reveal_strlit("attbyval");
        reveal_strlit("attalign");
        reveal_strlit("attstorage");
        reveal_strlit("attcompression");
        reveal_strlit("attnotnull");
        reveal_strlit("atthasdef");
        reveal_strlit("atthasmissing");
        reveal_strlit("attidentity");
        reveal_strlit("attgenerated");
        reveal_strlit("attisdropped");
        reveal_strlit("attislocal");
        reveal_strlit("attinhcount");
        reveal_strlit("attcollation");
        reveal_strlit("attacl");
        reveal_strlit("attoptions");
        reveal_strlit("attfdwoptions");
        reveal_strlit("attmissingval");
        assert(mark(list[0].0, 3, 4, 3) == (8nat, 'r', 'e', 'r'));
        assert(mark(list[1].0, 3, 4, 3) == (7nat, 'n', 'a', 'n'));
        assert(mark(list[2].0, 3, 4, 3) == (8nat, 't', 'y', 't'));
        assert(mark(list[3].0, 3, 4, 3) == (13nat, 's', 't', 's'));
        assert(mark(list[4].0, 3, 4, 3) == (6nat, 'l', 'e', 'l'));
        assert(mark(list[5].0, 3, 4, 3) == (6nat, 'n', 'u', 'n'));
        assert(mark(list[6].0, 3, 4, 3) == (8nat, 'n', 'd', 'n'));
        assert(mark(list[7].0, 3, 4, 3) == (11nat, 'c', 'a', 'c'));
        assert(mark(list[8].0, 3, 4, 3) == (9nat, 't', 'y', 't'));
        assert(mark(list[9].0, 3, 4, 3) == (8nat, 'b', 'y', 'b'));
        assert(mark(list[10].0, 3, 4, 3) == (8nat, 'a', 'l', 'a'));
        assert(mark(list[11].0, 3, 4, 3) == (10nat, 's', 't', 's'));
        assert(mark(list[12].0, 3, 4, 3) == (14nat, 'c', 'o', 'c'));
        assert(mark(list[13].0, 3, 4, 3) == (10nat, 'n', 'o', 'n'));
        assert(mark(list[14].0, 3, 4, 3) == (9nat, 'h', 'a', 'h'));
        assert(mark(list[15].0, 3, 4, 3) == (13nat, 'h', 'a', 'h'));
        assert(mark(list[16].0, 3, 4, 3) == (11nat, 'i', 'd', 'i'));
        assert(mark(list[17].0, 3, 4, 3) == (12nat, 'g', 'e', 'g'));
        assert(mark(list[18].0, 3, 4, 3) == (12nat, 'i', 's', 'i'));
        assert(mark(list[19].0, 3, 4, 3) == (10nat, 'i', 's', 'i'));
        assert(mark(list[20].0, 3, 4, 3) == (11nat, 'i', 'n', 'i'));
        assert(mark(list[21].0, 3, 4, 3) == (12nat, 'c', 'o', 'c'));
        assert(mark(list[22].0, 3, 4, 3) == (6nat, 'a', 'c', 'a'));
        assert(mark(list[23].0, 3, 4, 3) == (10nat, 'o', 'p', 'o'));
        assert(mark(list[24].0, 3, 4, 3) == (13nat, 'f', 'd', 'f'));
        assert(mark(list[25].0, 3, 4, 3) == (13nat, 'm', 'i', 'm'));
    }
    assert(catalog_columns::columns_of(name) is None);
}

proof fn lemma_pg_class(name: Seq<char>)
    requires
        name == "pg_class"@,
        catalog_columns::without_catalog(name) == name,
    ensures
        catalog_types::relation_types(name) is Some,
        fits_columns(name, catalog_types::relation_types(name)->0),
{
    lemma_table_marks();
    let list = catalog_types::relation_types(name)->0;
    assert(list.len() == 34);
    assert(distinct_names(list)) by {
        reveal_strlit("oid");
        reveal_strlit("relname");
        reveal_strlit("relnamespace");
        reveal_strlit("reltype");
        reveal_strlit("reloftype");
        reveal_strlit("relowner");
        reveal_strlit("relam");
        reveal_strlit("relfilenode");
        reveal_strlit("reltablespace");
        reveal_strlit("relpages");
        reveal_strlit("reltuples");
        reveal_strlit("relallvisible");
        reveal_strlit("relallfrozen");
        reveal_strlit("reltoastrelid");
        reveal_strlit("relhasindex");
        reveal_strlit("relisshared");
        reveal_strlit("relpersistence");
        reveal_strlit("relkind");
        reveal_strlit("relnatts");
        reveal_strlit("relchecks");
        reveal_strlit("relhasrules");
        reveal_strlit("relhastriggers");
        reveal_strlit("relhassubclass");
        reveal_strlit("relrowsecurity");
        reveal_strlit("relforcerowsecurity");
        reveal_strlit("relispopulated");
        reveal_strlit("relreplident");
        reveal_strlit("relispartition");
        reveal_strlit("relrewrite");
        reveal_strlit("relfrozenxid");
        reveal_strlit("relminmxid");
        reveal_strlit("relacl");
        reveal_strlit("reloptions");
        reveal_strlit("relpartbound");
        assert(mark(list[0].0, 3, 6, 3) == (3nat, ' ', ' ', ' '));
        assert(mark(list[1].0, 3, 6, 3) == (7nat, 'n', 'e', 'n'));
        assert(mark(list[2].0, 3, 6, 3) == (12nat, 'n', 'e', 'n'));
        assert(mark(list[3].0, 3, 6, 3) == (7nat, 't', 'e', 't'));
        assert(mark(list[4].0, 3, 6, 3) == (9nat, 'o', 'y', 'o'));
        assert(mark(list[5].0, 3, 6, 3) == (8nat, 'o', 'e', 'o'));
        assert(mark(list[6].0, 3, 6, 3) == (5nat, 'a', ' ', 'a'));
        assert(mark(list[7].0, 3, 6, 3) == (11nat, 'f', 'e', 'f'));
        assert(mark(list[8].0, 3, 6, 3) == (13nat, 't', 'l', 't'));
        assert(mark(list[9].0, 3, 6, 3) == (8nat, 'p', 'e', 'p'));
        assert(mark(list[10].0, 3, 6, 3) == (9nat, 't', 'l', 't'));
        assert(mark(list[11].0, 3, 6, 3) == (13nat, 'a', 'v', 'a'));
        assert(mark(list[12].0, 3, 6, 3) == (12nat, 'a', 'f', 'a'));
        assert(mark(list[13].0, 3, 6, 3) == (13nat, 't', 's', 't'));
        assert(mark(list[14].0, 3, 6, 3) == (11nat, 'h', 'i', 'h'));
        assert(mark(list[15].0, 3, 6, 3) == (11nat, 'i', 'h', 'i'));
        assert(mark(list[16].0, 3, 6, 3) == (14nat, 'p', 's', 'p'));
        assert(mark(list[17].0, 3, 6, 3) == (7nat, 'k', 'd', 'k'));
        assert(mark(list[18].0, 3, 6, 3) == (8nat, 'n', 't', 'n'));
        assert(mark(list[19].0, 3, 6, 3) == (9nat, 'c', 'c', 'c'));
        assert(mark(list[20].0, 3, 6, 3) == (11nat, 'h', 'r', 'h'));
        assert(mark(list[21].0, 3, 6, 3) == (14nat, 'h', 't', 'h'));
        assert(mark(list[22].0, 3, 6, 3) == (14nat, 'h', 's', 'h'));
        assert(mark(list[23].0, 3, 6, 3) == (14nat, 'r', 's', 'r'));
        assert(mark(list[24].0, 3, 6, 3) == (19nat, 'f', 'c', 'f'));
        assert(mark(list[25].0, 3, 6, 3) == (14nat, 'i', 'o', 'i'));
        assert(mark(list[26].0, 3, 6, 3) == (12nat, 'r', 'l', 'r'));
        assert(mark(list[27].0, 3, 6, 3) == (14nat, 'i', 'a', 'i'));
        assert(mark(list[28].0, 3, 6, 3) == (10nat, 'r', 'r', 'r'));
        assert(mark(list[29].0, 3, 6, 3) == (12nat, 'f', 'z', 'f'));
        assert(mark(list[30].0, 3, 6, 3) == (10nat, 'm', 'm', 'm'));
        assert(mark(list[31].0, 3, 6, 3) == (6nat, 'a', ' ', 'a'));
        assert(mark(list[32].0, 3, 6, 3) == (10nat, 'o', 'i', 'o'));
        assert(mark(list[33].0, 3, 6, 3) == (12nat, 'p', 't', 'p'));
    }
    assert(catalog_columns::columns_of(name) is None);
}

proof fn lemma_pg_index(name: Seq<char>)
    requires
        name == "pg_index"@,
        catalog_columns::without_catalog(name) == name,
    ensures
        catalog_types::relation_types(name) is Some,
        fits_columns(name, catalog_types::relation_types(name)->0),
{
    lemma_table_marks();
    let list = catalog_types::relation_types(name)->0;
    assert(list.len() == 22);
    assert(distinct_names(list)) by {
        reveal_strlit("indexrelid");
        reveal_strlit("indrelid");
        reveal_strlit("indnatts");
        reveal_strlit("indnkeyatts");
        reveal_strlit("indisunique");
        reveal_strlit("indnullsnotdistinct");
        reveal_strlit("indisprimary");
        reveal_strlit("indisexclusion");
        reveal_strlit("indimmediate");
        reveal_strlit("indisclustered");
        reveal_strlit("indisvalid");
        reveal_strlit("indcheckxmin");
        reveal_strlit("indisready");
        reveal_strlit("indislive");
        reveal_strlit("indisreplident");
        reveal_strlit("indkey");
        reveal_strlit("indcollation");
        reveal_strlit("indclass");
        reveal_strlit("indoption");
        reveal_strlit("indexprs");
        reveal_strlit("indpred");
        reveal_strlit("indexdef");
        assert(mark(list[0].0, 3, 5, 3) == (10nat, 'e', 'r', 'e'));
        assert(mark(list[1].0, 3, 5, 3) == (8nat, 'r', 'l', 'r'));
        assert(mark(list[2].0, 3, 5, 3) == (8nat, 'n', 't', 'n'));
        assert(mark(list[3].0, 3, 5, 3) == (11nat, 'n', 'e', 'n'));
        assert(mark(list[4].0, 3, 5, 3) == (11nat, 'i', 'u', 'i'));
        assert(mark(list[5].0, 3, 5, 3) == (19nat, 'n', 'l', 'n'));
        assert(mark(list[6].0, 3, 5, 3) == (12nat, 'i', 'p', 'i'));
        assert(mark(list[7].0, 3, 5, 3) == (14nat, 'i', 'e', 'i'));
        assert(mark(list[8].0, 3, 5, 3) == (12nat, 'i', 'm', 'i'));
        assert(mark(list[9].0, 3, 5, 3) == (14nat, 'i', 'c', 'i'));
        assert(mark(list[10].0, 3, 5, 3) == (10nat, 'i', 'v', 'i'));
        assert(mark(list[11].0, 3, 5, 3) == (12nat, 'c', 'e', 'c'));
        assert(mark(list[12].0, 3, 5, 3) == (10nat, 'i', 'r', 'i'));
        assert(mark(list[13].0, 3, 5, 3) == (9nat, 'i', 'l', 'i'));
        assert(mark(list[14].0, 3, 5, 3) == (14nat, 'i', 'r', 'i'));
        assert(mark(list[15].0, 3, 5, 3) == (6nat, 'k', 'y', 'k'));
        assert(mark(list[16].0, 3, 5, 3) == (12nat, 'c', 'l', 'c'));
        assert(mark(list[17].0, 3, 5, 3) == (8nat, 'c', 'a', 'c'));
        assert(mark(list[18].0, 3, 5, 3) == (9nat, 'o', 't', 'o'));
        assert(mark(list[19].0, 3, 5, 3) == (8nat, 'e', 'p', 'e'));
        assert(mark(list[20].0, 3, 5, 3) == (7nat, 'p', 'e', 'p'));
        assert(mark(list[21].0, 3, 5, 3) == (8nat, 'e', 'd', 'e'));
    }
    assert(catalog_columns::columns_of(name) is None);
}

proof fn lemma_pg_constraint(name: Seq<char>)
    requires
        name == "pg_constraint"@,
        catalog_columns::without_catalog(name) == name,
    ensures
        catalog_types::relation_types(name) is Some,
        fits_columns(name, catalog_types::relation_types(name)->0),
{
    lemma_table_marks();
    let list = catalog_types::relation_types(name)->0;
    assert(list.len() == 28);
    assert(distinct_names(list)) by {
        reveal_strlit("oid");
        reveal_strlit("conname");
        reveal_strlit("connamespace");
        reveal_strlit("contype");
        reveal_strlit("condeferrable");
        reveal_strlit("condeferred");
        reveal_strlit("conenforced");
        reveal_strlit("convalidated");
        reveal_strlit("conrelid");
        reveal_strlit("contypid");
        reveal_strlit("conindid");
        reveal_strlit("conparentid");
        reveal_strlit("confrelid");
        reveal_strlit("confupdtype");
        reveal_strlit("confdeltype");
        reveal_strlit("confmatchtype");
        reveal_strlit("conislocal");
        reveal_strlit("coninhcount");
        reveal_strlit("connoinherit");
        reveal_strlit("conperiod");
        reveal_strlit("conkey");
        reveal_strlit("confkey");
        reveal_strlit("conpfeqop");
        reveal_strlit("conppeqop");
        reveal_strlit("conffeqop");
        reveal_strlit("confdelsetcols");
        reveal_strlit("conexclop");
        reveal_strlit("conbin");
        assert(mark(list[0].0, 3, 4, 3) == (3nat, ' ', ' ', ' '));
        assert(mark(list[1].0, 3, 4, 3) == (7nat, 'n', 'a', 'n'));
        assert(mark(list[2].0, 3, 4, 3) == (12nat, 'n', 'a', 'n'));
        assert(mark(list[3].0, 3, 4, 3) == (7nat, 't', 'y', 't'));
        assert(mark(list[4].0, 3, 4, 3) == (13nat, 'd', 'e', 'd'));
        assert(mark(list[5].0, 3, 4, 3) == (11nat, 'd', 'e', 'd'));
        assert(mark(list[6].0, 3, 4, 3) == (11nat, 'e', 'n', 'e'));
        assert(mark(list[7].0, 3, 4, 3) == (12nat, 'v', 'a', 'v'));
        assert(mark(list[8].0, 3, 4, 3) == (8nat, 'r', 'e', 'r'));
        assert(mark(list[9].0, 3, 4, 3) == (8nat, 't', 'y', 't'));
        assert(mark(list[10].0, 3, 4, 3) == (8nat, 'i', 'n', 'i'));
        assert(mark(list[11].0, 3, 4, 3) == (11nat, 'p', 'a', 'p'));
        assert(mark(list[12].0, 3, 4, 3) == (9nat, 'f', 'r', 'f'));
        assert(mark(list[13].0, 3, 4, 3) == (11nat, 'f', 'u', 'f'));
        assert(mark(list[14].0, 3, 4, 3) == (11nat, 'f', 'd', 'f'));
        assert(mark(list[15].0, 3, 4, 3) == (13nat, 'f', 'm', 'f'));
        assert(mark(list[16].0, 3, 4, 3) == (10nat, 'i', 's', 'i'));
        assert(mark(list[17].0, 3, 4, 3) == (11nat, 'i', 'n', 'i'));
        assert(mark(list[18].0, 3, 4, 3) == (12nat, 'n', 'o', 'n'));
        assert(mark(list[19].0, 3, 4, 3) == (9nat, 'p', 'e', 'p'));
        assert(mark(list[20].0, 3, 4, 3) == (6nat, 'k', 'e', 'k'));
        assert(mark(list[21].0, 3, 4, 3) == (7nat, 'f', 'k', 'f'));
        assert(mark(list[22].0, 3, 4, 3) == (9nat, 'p', 'f', 'p'));
        assert(mark(list[23].0, 3, 4, 3) == (9nat, 'p', 'p', 'p'));
        assert(mark(list[24].0, 3, 4, 3) == (9nat, 'f', 'f', 'f'));
        assert(mark(list[25].0, 3, 4, 3) == (14nat, 'f', 'd', 'f'));
        assert(mark(list[26].0, 3, 4, 3) == (9nat, 'e', 'x', 'e'));
        assert(mark(list[27].0, 3, 4, 3) == (6nat, 'b', 'i', 'b'));
    }
    assert(catalog_columns::columns_of(name) is None);
}

proof fn lemma_pg_type(name: Seq<char>)
    requires
        name == "pg_type"@,
        catalog_columns::without_catalog(name) == name,
    ensures
        catalog_types::type_types(name) is Some,
        fits_columns(name, catalog_types::type_types(name)->0),
{
    lemma_table_marks();
    let list = catalog_types::type_types(name)->0;
    assert(list.len() == 30);
    assert(distinct_names(list)) by {
        reveal_strlit("oid");
        reveal_strlit("typname");
        reveal_strlit("typnamespace");
        reveal_strlit("typowner");
        reveal_strlit("typlen");
        reveal_strlit("typbyval");
        reveal_strlit("typtype");
        reveal_strlit("typcategory");
        reveal_strlit("typispreferred");
        reveal_strlit("typisdefined");
        reveal_strlit("typdelim");
        reveal_strlit("typrelid");
        reveal_strlit("typelem");
        reveal_strlit("typarray");
        reveal_strlit("typinput");
        reveal_strlit("typoutput");
        reveal_strlit("typreceive");
        reveal_strlit("typsend");
        reveal_strlit("typmodin");
        reveal_strlit("typmodout");
        reveal_strlit("typanalyze");
        reveal_strlit("typalign");
        reveal_strlit("typstorage");
        reveal_strlit("typnotnull");
        reveal_strlit("typbasetype");
        reveal_strlit("typtypmod");
        reveal_strlit("typndims");
        reveal_strlit("typcollation");
        reveal_strlit("typdefaultbin");
        reveal_strlit("typdefault");
        assert(mark(list[0].0, 3, 4, 3) == (3nat, ' ', ' ', ' '));
        assert(mark(list[1].0, 3, 4, 3) == (7nat, 'n', 'a', 'n'));
        assert(mark(list[2].0, 3, 4, 3) == (12nat, 'n', 'a', 'n'));
        assert(mark(list[3].0, 3, 4, 3) == (8nat, 'o', 'w', 'o'));
        assert(mark(list[4].0, 3, 4, 3) == (6nat, 'l', 'e', 'l'));
        assert(mark(list[5].0, 3, 4, 3) == (8nat, 'b', 'y', 'b'));
        assert(mark(list[6].0, 3, 4, 3) == (7nat, 't', 'y', 't'));
        assert(mark(list[7].0, 3, 4, 3) == (11nat, 'c', 'a', 'c'));
        assert(mark(list[8].0, 3, 4, 3) == (14nat, 'i', 's', 'i'));
        assert(mark(list[9].0, 3, 4, 3) == (12nat, 'i', 's', 'i'));
        assert(mark(list[10].0, 3, 4, 3) == (8nat, 'd', 'e', 'd'));
        assert(mark(list[11].0, 3, 4, 3) == (8nat, 'r', 'e', 'r'));
        assert(mark(list[12].0, 3, 4, 3) == (7nat, 'e', 'l', 'e'));
        assert(mark(list[13].0, 3, 4, 3) == (8nat, 'a', 'r', 'a'));
        assert(mark(list[14].0, 3, 4, 3) == (8nat, 'i', 'n', 'i'));
        assert(mark(list[15].0, 3, 4, 3) == (9nat, 'o', 'u', 'o'));
        assert(mark(list[16].0, 3, 4, 3) == (10nat, 'r', 'e', 'r'));
        assert(mark(list[17].0, 3, 4, 3) == (7nat, 's', 'e', 's'));
        assert(mark(list[18].0, 3, 4, 3) == (8nat, 'm', 'o', 'm'));
        assert(mark(list[19].0, 3, 4, 3) == (9nat, 'm', 'o', 'm'));
        assert(mark(list[20].0, 3, 4, 3) == (10nat, 'a', 'n', 'a'));
        assert(mark(list[21].0, 3, 4, 3) == (8nat, 'a', 'l', 'a'));
        assert(mark(list[22].0, 3, 4, 3) == (10nat, 's', 't', 's'));
        assert(mark(list[23].0, 3, 4, 3) == (10nat, 'n', 'o', 'n'));
        assert(mark(list[24].0, 3, 4, 3) == (11nat, 'b', 'a', 'b'));
        assert(mark(list[25].0, 3, 4, 3) == (9nat, 't', 'y', 't'));
        assert(mark(list[26].0, 3, 4, 3) == (8nat, 'n', 'd', 'n'));
        assert(mark(list[27].0, 3, 4, 3) == (12nat, 'c', 'o', 'c'));
        assert(mark(list[28].0, 3, 4, 3) == (13nat, 'd', 'e', 'd'));
        assert(mark(list[29].0, 3, 4, 3) == (10nat, 'd', 'e', 'd'));
    }
    assert(catalog_columns::columns_of(name) is None);
}

proof fn lemma_pg_cast(name: Seq<char>)
    requires
        name == "pg_cast"@,
        catalog_columns::without_catalog(name) == name,
    ensures
        catalog_types::type_types(name) is Some,
        fits_columns(name, catalog_types::type_types(name)->0),
{
    lemma_table_marks();
    let list = catalog_types::type_types(name)->0;
    assert(list.len() == 6);
    assert(distinct_names(list)) by {
        reveal_strlit("oid");
        reveal_strlit("castsource");
        reveal_strlit("casttarget");
        reveal_strlit("castfunc");
        reveal_strlit("castcontext");
        reveal_strlit("castmethod");
        assert(mark(list[0].0, 4, 4, 4) == (3nat, ' ', ' ', ' '));
        assert(mark(list[1].0, 4, 4, 4) == (10nat, 's', 's', 's'));
        assert(mark(list[2].0, 4, 4, 4) == (10nat, 't', 't', 't'));
        assert(mark(list[3].0, 4, 4, 4) == (8nat, 'f', 'f', 'f'));
        assert(mark(list[4].0, 4, 4, 4) == (11nat, 'c', 'c', 'c'));
        assert(mark(list[5].0, 4, 4, 4) == (10nat, 'm', 'm', 'm'));
    }
    let columns = catalog_columns::object_columns(name)->0;
    assert(catalog_columns::columns_of(name) == Some(columns));
    assert(names_among(list, columns)) by {
        assert(columns[0] == list[0].0);
        assert(columns[1] == list[1].0);
        assert(columns[2] == list[2].0);
        assert(columns[3] == list[3].0);
        assert(columns[4] == list[4].0);
        assert(columns[5] == list[5].0);
    }
}

proof fn lemma_pg_range(name: Seq<char>)
    requires
        name == "pg_range"@,
        catalog_columns::without_catalog(name) == name,
    ensures
        catalog_types::type_types(name) is Some,
        fits_columns(name, catalog_types::type_types(name)->0),
{
    lemma_table_marks();
    let list = catalog_types::type_types(name)->0;
    assert(list.len() == 7);
    assert(distinct_names(list)) by {
        reveal_strlit("rngtypid");
        reveal_strlit("rngsubtype");
        reveal_strlit("rngmultitypid");
        reveal_strlit("rngcollation");
        reveal_strlit("rngsubopc");
        reveal_strlit("rngcanonical");
        reveal_strlit("rngsubdiff");
        assert(mark(list[0].0, 6, 6, 6) == (8nat, 'i', 'i', 'i'));
        assert(mark(list[1].0, 6, 6, 6) == (10nat, 't', 't', 't'));
        assert(mark(list[2].0, 6, 6, 6) == (13nat, 't', 't', 't'));
        assert(mark(list[3].0, 6, 6, 6) == (12nat, 'l', 'l', 'l'));
        assert(mark(list[4].0, 6, 6, 6) == (9nat, 'o', 'o', 'o'));
        assert(mark(list[5].0, 6, 6, 6) == (12nat, 'o', 'o', 'o'));
        assert(mark(list[6].0, 6, 6, 6) == (10nat, 'd', 'd', 'd'));
    }
    assert(catalog_columns::columns_of(name) is None);
}

proof fn lemma_pg_timezone_names(name: Seq<char>)
    requires
        name == "pg_timezone_names"@,
        catalog_columns::without_catalog(name) == name,
    ensures
        catalog_types::server_types(name) is Some,
        fits_columns(name, catalog_types::server_types(name)->0),
{
    lemma_table_marks();
    let list = catalog_types::server_types(name)->0;
    assert(list.len() == 4);
    assert(distinct_names(list)) by {
        reveal_strlit("name");
        reveal_strlit("abbrev");
        reveal_strlit("utc_offset");
        reveal_strlit("is_dst");
        assert(mark(list[0].0, 0, 0, 0) == (4nat, 'n', 'n', 'n'));
        assert(mark(list[1].0, 0, 0, 0) == (6nat, 'a', 'a', 'a'));
        assert(mark(list[2].0, 0, 0, 0) == (10nat, 'u', 'u', 'u'));
        assert(mark(list[3].0, 0, 0, 0) == (6nat, 'i', 'i', 'i'));
    }
    let columns = catalog_columns::server_columns(name)->0;
    assert(catalog_columns::columns_of(name) == Some(columns));
    assert(names_among(list, columns)) by {
        assert(columns[0] == list[0].0);
        assert(columns[1] == list[1].0);
        assert(columns[2] == list[2].0);
        assert(columns[3] == list[3].0);
    }
}

proof fn lemma_pg_am(name: Seq<char>)
    requires
        name == "pg_am"@,
        catalog_columns::without_catalog(name) == name,
    ensures
        catalog_types::server_types(name) is Some,
        fits_columns(name, catalog_types::server_types(name)->0),
{
    lemma_table_marks();
    let list = catalog_types::server_types(name)->0;
    assert(list.len() == 4);
    assert(distinct_names(list)) by {
        reveal_strlit("oid");
        reveal_strlit("amname");
        reveal_strlit("amhandler");
        reveal_strlit("amtype");
        assert(mark(list[0].0, 2, 2, 2) == (3nat, 'd', 'd', 'd'));
        assert(mark(list[1].0, 2, 2, 2) == (6nat, 'n', 'n', 'n'));
        assert(mark(list[2].0, 2, 2, 2) == (9nat, 'h', 'h', 'h'));
        assert(mark(list[3].0, 2, 2, 2) == (6nat, 't', 't', 't'));
    }
    assert(catalog_columns::columns_of(name) is None);
}

proof fn lemma_pg_locks(name: Seq<char>)
    requires
        name == "pg_locks"@,
        catalog_columns::without_catalog(name) == name,
    ensures
        catalog_types::server_types(name) is Some,
        fits_columns(name, catalog_types::server_types(name)->0),
{
    lemma_table_marks();
    let list = catalog_types::server_types(name)->0;
    assert(list.len() == 16);
    assert(distinct_names(list)) by {
        reveal_strlit("locktype");
        reveal_strlit("database");
        reveal_strlit("relation");
        reveal_strlit("page");
        reveal_strlit("tuple");
        reveal_strlit("virtualxid");
        reveal_strlit("transactionid");
        reveal_strlit("classid");
        reveal_strlit("objid");
        reveal_strlit("objsubid");
        reveal_strlit("virtualtransaction");
        reveal_strlit("pid");
        reveal_strlit("mode");
        reveal_strlit("granted");
        reveal_strlit("fastpath");
        reveal_strlit("waitstart");
        assert(mark(list[0].0, 0, 0, 0) == (8nat, 'l', 'l', 'l'));
        assert(mark(list[1].0, 0, 0, 0) == (8nat, 'd', 'd', 'd'));
        assert(mark(list[2].0, 0, 0, 0) == (8nat, 'r', 'r', 'r'));
        assert(mark(list[3].0, 0, 0, 0) == (4nat, 'p', 'p', 'p'));
        assert(mark(list[4].0, 0, 0, 0) == (5nat, 't', 't', 't'));
        assert(mark(list[5].0, 0, 0, 0) == (10nat, 'v', 'v', 'v'));
        assert(mark(list[6].0, 0, 0, 0) == (13nat, 't', 't', 't'));
        assert(mark(list[7].0, 0, 0, 0) == (7nat, 'c', 'c', 'c'));
        assert(mark(list[8].0, 0, 0, 0) == (5nat, 'o', 'o', 'o'));
        assert(mark(list[9].0, 0, 0, 0) == (8nat, 'o', 'o', 'o'));
        assert(mark(list[10].0, 0, 0, 0) == (18nat, 'v', 'v', 'v'));
        assert(mark(list[11].0, 0, 0, 0) == (3nat, 'p', 'p', 'p'));
        assert(mark(list[12].0, 0, 0, 0) == (4nat, 'm', 'm', 'm'));
        assert(mark(list[13].0, 0, 0, 0) == (7nat, 'g', 'g', 'g'));
        assert(mark(list[14].0, 0, 0, 0) == (8nat, 'f', 'f', 'f'));
        assert(mark(list[15].0, 0, 0, 0) == (9nat, 'w', 'w', 'w'));
    }
    let columns = catalog_columns::server_columns(name)->0;
    assert(catalog_columns::columns_of(name) == Some(columns));
    assert(names_among(list, columns)) by {
        assert(columns[0] == list[0].0);
        assert(columns[1] == list[1].0);
        assert(columns[2] == list[2].0);
        assert(columns[3] == list[3].0);
        assert(columns[4] == list[4].0);
        assert(columns[5] == list[5].0);
        assert(columns[6] == list[6].0);
        assert(columns[7] == list[7].0);
        assert(columns[8] == list[8].0);
        assert(columns[9] == list[9].0);
        assert(columns[10] == list[10].0);
        assert(columns[11] == list[11].0);
        assert(columns[12] == list[12].0);
        assert(columns[13] == list[13].0);
        assert(columns[14] == list[14].0);
        assert(columns[15] == list[15].0);
    }
}

proof fn lemma_pg_opclass(name: Seq<char>)
    requires
        name == "pg_opclass"@,
        catalog_columns::without_catalog(name) == name,
    ensures
        catalog_types::server_types(name) is Some,
        fits_columns(name, catalog_types::server_types(name)->0),
{
    lemma_table_marks();
    let list = catalog_types::server_types(name)->0;
    assert(list.len() == 9);
    assert(distinct_names(list)) by {
        reveal_strlit("oid");
        reveal_strlit("opcmethod");
        reveal_strlit("opcname");
        reveal_strlit("opcnamespace");
        reveal_strlit("opcowner");
        reveal_strlit("opcfamily");
        reveal_strlit("opcintype");
        reveal_strlit("opcdefault");
        reveal_strlit("opckeytype");
        assert(mark(list[0].0, 3, 3, 3) == (3nat, ' ', ' ', ' '));
        assert(mark(list[1].0, 3, 3, 3) == (9nat, 'm', 'm', 'm'));
        assert(mark(list[2].0, 3, 3, 3) == (7nat, 'n', 'n', 'n'));
        assert(mark(list[3].0, 3, 3, 3) == (12nat, 'n', 'n', 'n'));
        assert(mark(list[4].0, 3, 3, 3) == (8nat, 'o', 'o', 'o'));
        assert(mark(list[5].0, 3, 3, 3) == (9nat, 'f', 'f', 'f'));
        assert(mark(list[6].0, 3, 3, 3) == (9nat, 'i', 'i', 'i'));
        assert(mark(list[7].0, 3, 3, 3) == (10nat, 'd', 'd', 'd'));
        assert(mark(list[8].0, 3, 3, 3) == (10nat, 'k', 'k', 'k'));
    }
    let columns = catalog_columns::operator_columns(name)->0;
    assert(catalog_columns::columns_of(name) == Some(columns));
    assert(names_among(list, columns)) by {
        assert(columns[0] == list[0].0);
        assert(columns[1] == list[1].0);
        assert(columns[2] == list[2].0);
        assert(columns[3] == list[3].0);
        assert(columns[4] == list[4].0);
        assert(columns[5] == list[5].0);
        assert(columns[6] == list[6].0);
        assert(columns[7] == list[7].0);
        assert(columns[8] == list[8].0);
    }
}

proof fn lemma_pg_opfamily(name: Seq<char>)
    requires
        name == "pg_opfamily"@,
        catalog_columns::without_catalog(name) == name,
    ensures
        catalog_types::server_types(name) is Some,
        fits_columns(name, catalog_types::server_types(name)->0),
{
    lemma_table_marks();
    let list = catalog_types::server_types(name)->0;
    assert(list.len() == 5);
    assert(distinct_names(list)) by {
        reveal_strlit("oid");
        reveal_strlit("opfmethod");
        reveal_strlit("opfname");
        reveal_strlit("opfnamespace");
        reveal_strlit("opfowner");
        assert(mark(list[0].0, 0, 0, 0) == (3nat, 'o', 'o', 'o'));
        assert(mark(list[1].0, 0, 0, 0) == (9nat, 'o', 'o', 'o'));
        assert(mark(list[2].0, 0, 0, 0) == (7nat, 'o', 'o', 'o'));
        assert(mark(list[3].0, 0, 0, 0) == (12nat, 'o', 'o', 'o'));
        assert(mark(list[4].0, 0, 0, 0) == (8nat, 'o', 'o', 'o'));
    }
    let columns = catalog_columns::operator_columns(name)->0;
    assert(catalog_columns::columns_of(name) == Some(columns));
    assert(names_among(list, columns)) by {
        assert(columns[0] == list[0].0);
        assert(columns[1] == list[1].0);
        assert(columns[2] == list[2].0);
        assert(columns[3] == list[3].0);
        assert(columns[4] == list[4].0);
    }
}

proof fn lemma_pg_amop(name: Seq<char>)
    requires
        name == "pg_amop"@,
        catalog_columns::without_catalog(name) == name,
    ensures
        catalog_types::server_types(name) is Some,
        fits_columns(name, catalog_types::server_types(name)->0),
{
    lemma_table_marks();
    let list = catalog_types::server_types(name)->0;
    assert(list.len() == 9);
    assert(distinct_names(list)) by {
        reveal_strlit("oid");
        reveal_strlit("amopfamily");
        reveal_strlit("amoplefttype");
        reveal_strlit("amoprighttype");
        reveal_strlit("amopstrategy");
        reveal_strlit("amoppurpose");
        reveal_strlit("amopopr");
        reveal_strlit("amopmethod");
        reveal_strlit("amopsortfamily");
        assert(mark(list[0].0, 4, 4, 4) == (3nat, ' ', ' ', ' '));
        assert(mark(list[1].0, 4, 4, 4) == (10nat, 'f', 'f', 'f'));
        assert(mark(list[2].0, 4, 4, 4) == (12nat, 'l', 'l', 'l'));
        assert(mark(list[3].0, 4, 4, 4) == (13nat, 'r', 'r', 'r'));
        assert(mark(list[4].0, 4, 4, 4) == (12nat, 's', 's', 's'));
        assert(mark(list[5].0, 4, 4, 4) == (11nat, 'p', 'p', 'p'));
        assert(mark(list[6].0, 4, 4, 4) == (7nat, 'o', 'o', 'o'));
        assert(mark(list[7].0, 4, 4, 4) == (10nat, 'm', 'm', 'm'));
        assert(mark(list[8].0, 4, 4, 4) == (14nat, 's', 's', 's'));
    }
    let columns = catalog_columns::operator_columns(name)->0;
    assert(catalog_columns::columns_of(name) == Some(columns));
    assert(names_among(list, columns)) by {
        assert(columns[0] == list[0].0);
        assert(columns[1] == list[1].0);
        assert(columns[2] == list[2].0);
        assert(columns[3] == list[3].0);
        assert(columns[4] == list[4].0);
        assert(columns[5] == list[5].0);
        assert(columns[6] == list[6].0);
        assert(columns[7] == list[7].0);
        assert(columns[8] == list[8].0);
    }
}

proof fn lemma_pg_amproc(name: Seq<char>)
    requires
        name == "pg_amproc"@,
        catalog_columns::without_catalog(name) == name,
    ensures
        catalog_types::server_types(name) is Some,
        fits_columns(name, catalog_types::server_types(name)->0),
{
    lemma_table_marks();
    let list = catalog_types::server_types(name)->0;
    assert(list.len() == 6);
    assert(distinct_names(list)) by {
        reveal_strlit("oid");
        reveal_strlit("amprocfamily");
        reveal_strlit("amproclefttype");
        reveal_strlit("amprocrighttype");
        reveal_strlit("amprocnum");
        reveal_strlit("amproc");
        assert(mark(list[0].0, 0, 0, 0) == (3nat, 'o', 'o', 'o'));
        assert(mark(list[1].0, 0, 0, 0) == (12nat, 'a', 'a', 'a'));
        assert(mark(list[2].0, 0, 0, 0) == (14nat, 'a', 'a', 'a'));
        assert(mark(list[3].0, 0, 0, 0) == (15nat, 'a', 'a', 'a'));
        assert(mark(list[4].0, 0, 0, 0) == (9nat, 'a', 'a', 'a'));
        assert(mark(list[5].0, 0, 0, 0) == (6nat, 'a', 'a', 'a'));
    }
    let columns = catalog_columns::operator_columns(name)->0;
    assert(catalog_columns::columns_of(name) == Some(columns));
    assert(names_among(list, columns)) by {
        assert(columns[0] == list[0].0);
        assert(columns[1] == list[1].0);
        assert(columns[2] == list[2].0);
        assert(columns[3] == list[3].0);
        assert(columns[4] == list[4].0);
        assert(columns[5] == list[5].0);
    }
}

/// The typed columns of a virtual table have different names, each of them a type, and
/// are among the columns of the table where those are listed; the schema of the system
/// catalog in front of a name changes nothing.
pub proof fn law_typed_columns(table: Seq<char>)
    requires
        !text::starts_with(table, "pg_catalog."@),
        catalog_types::types_of(table) is Some,
    ensures
        fits_columns(table, catalog_types::types_of(table)->0),
        catalog_types::types_of("pg_catalog."@ + table) == catalog_types::types_of(table),
        forall|i: int|
            0 <= i < catalog_types::types_of(table)->0.len() ==> (
            #[trigger] catalog_types::typed_option(catalog_types::types_of(table))->0[i]).1 is Some,
{
    let long = "pg_catalog."@ + table;
    assert(long.take("pg_catalog."@.len() as int) =~= "pg_catalog."@);
    assert(long.skip("pg_catalog."@.len() as int) =~= table);
    if catalog_types::information_schema_types(table) is Some {
        if table == "information_schema.domains"@ {
            lemma_information_schema_domains(table);
        } else if table == "information_schema.columns"@ {
            lemma_information_schema_columns(table);
        } else if table == "information_schema.element_types"@ {
            lemma_information_schema_element_types(table);
        } else if table == "information_schema.user_defined_types"@ {
            lemma_information_schema_user_defined_types(table);
        } else if table == "information_schema.routines"@ {
            lemma_information_schema_routines(table);
        } else if table == "information_schema.parameters"@ {
            lemma_information_schema_parameters(table);
        }
    } else if catalog_types::relation_types(table) is Some {
        if table == "pg_namespace"@ {
            lemma_pg_namespace(table);
        } else if table == "pg_stats"@ {
            lemma_pg_stats(table);
        } else if table == "pg_attribute"@ {
            lemma_pg_attribute(table);
        } else if table == "pg_class"@ {
            lemma_pg_class(table);
        } else if table == "pg_index"@ {
            lemma_pg_index(table);
        } else if table == "pg_constraint"@ {
            lemma_pg_constraint(table);
        }
    } else if catalog_types::type_types(table) is Some {
        if table == "pg_type"@ {
            lemma_pg_type(table);
        } else if table == "pg_cast"@ {
            lemma_pg_cast(table);
        } else if table == "pg_range"@ {
            lemma_pg_range(table);
        }
    } else if catalog_types::server_types(table) is Some {
        if table == "pg_timezone_names"@ {
            lemma_pg_timezone_names(table);
        } else if table == "pg_am"@ {
            lemma_pg_am(table);
        } else if table == "pg_locks"@ {
            lemma_pg_locks(table);
        } else if table == "pg_opclass"@ {
            lemma_pg_opclass(table);
        } else if table == "pg_opfamily"@ {
            lemma_pg_opfamily(table);
        } else if table == "pg_amop"@ {
            lemma_pg_amop(table);
        } else if table == "pg_amproc"@ {
            lemma_pg_amproc(table);
        }
    }
}

} // verus!
