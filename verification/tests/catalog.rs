//! Catalog tables, roles, privileges and types.
use bicdb_sql::carrier;
use bicdb_sql::carrier::Operation;
use bicdb_sql::catalog::{CatalogRow, Cell};
use bicdb_sql::catalog_columns::{strip_catalog, virtual_table_columns};
use bicdb_sql::catalog_types::virtual_table_column_types;
use bicdb_sql::error::SqlErrorKind;
use bicdb_sql::grants;
use bicdb_sql::information_schema;
use bicdb_sql::oid_index::OidIndex;
use bicdb_sql::oids::{allocate_user_type_oids, OidSpace, UserTypeOidAllocator};
use bicdb_sql::privileges;
use bicdb_sql::privileges::{PrivilegeGrant, PrivilegeObjectType, RelationInfo, TypePrivileges};
use bicdb_sql::roles;
use bicdb_sql::roles::{Role, RoleCatalog, RoleMembership};
use bicdb_sql::settings::Settings;
use bicdb_sql::user_types;
use bicdb_sql::user_types::{
    CastValue, PgUserRangeTypeInfo, RangeReadings, RangeValue, TableColumn, TableType, TypeCatalog, UserType, UserTypeKind,
};
use bicdb_sql::virtual_tables;
use bicdb_sql::virtual_tables::{GraphTables, TypeComment};

fn graph() -> GraphTables {
    GraphTables { nodes: "graph_nodes".to_string(), edges: "graph_edges".to_string() }
}

const TABLES: [&str; 12] = [
    "pg_attribute",
    "pg_proc",
    "pg_trigger",
    "pg_roles",
    "pg_database",
    "pg_settings",
    "pg_description",
    "pg_depend",
    "pg_am",
    "information_schema.columns",
    "information_schema.routines",
    "information_schema.domains",
];

#[test]
fn listed_tables_are_virtual() {
    for table in TABLES {
        if virtual_table_columns(table).is_some() {
            assert!(virtual_tables::is_virtual_table(table, &graph()), "{table}");
        }
    }
    assert!(virtual_tables::is_virtual_table("graph_nodes", &graph()));
    assert!(!virtual_tables::is_virtual_table("orders", &graph()));
    // A name with the schema of the catalog in front of another schema is no table.
    assert!(virtual_table_columns("pg_catalog.information_schema.columns").is_some());
    assert!(!virtual_tables::is_virtual_table(
        "pg_catalog.information_schema.columns",
        &graph()
    ));
}

#[test]
fn typed_columns_are_columns() {
    for table in TABLES {
        if let (Some(types), Some(columns)) =
            (virtual_table_column_types(table), virtual_table_columns(table))
        {
            for (name, _) in types {
                assert!(columns.contains(&name), "{table}.{name}");
            }
        }
    }
    assert_eq!(strip_catalog("pg_catalog.pg_class"), "pg_class");
    assert_eq!(strip_catalog("orders"), "orders");
    assert_eq!(virtual_table_columns("orders"), None);
}

#[test]
fn a_table_that_is_not_virtual_has_no_rows() {
    let e = virtual_tables::virtual_rows("orders", &graph()).err().expect("no such table");
    assert!(e.message.contains("orders") || e.subject.as_deref() == Some("orders"));
}

#[test]
fn schemas_are_listed_in_order_and_once() {
    let names = virtual_tables::collect_namespace_names(
        &vec!["zeta".to_string(), "public".to_string()],
        &vec!["alpha".to_string(), "zeta".to_string()],
    );
    assert_eq!(names, vec!["alpha", "information_schema", "pg_catalog", "public", "zeta"]);
}

#[test]
fn comments_are_those_that_are_there() {
    let rows = virtual_tables::pg_description_rows(&vec![
        TypeComment { oid: 1, comment: None },
        TypeComment { oid: 2, comment: Some("two".to_string()) },
    ]);
    assert_eq!(rows.len(), 1);
    assert!(rows[0]
        .cells
        .iter()
        .any(|(name, cell)| name == "description" && matches!(cell, Cell::Text(t) if t == "two")));
}

#[test]
fn information_schema_numbers() {
    assert_eq!(
        information_schema::information_schema_numeric_metadata(Some((10, 2))),
        (Some(10), Some(10), Some(2))
    );
    assert_eq!(
        information_schema::information_schema_numeric_metadata(None),
        (None, None, None)
    );
}

fn member(role: &str, member: &str, inherit: Option<bool>, set: bool) -> RoleMembership {
    RoleMembership {
        role: role.to_string(),
        member: member.to_string(),
        inherit_option: inherit,
        set_option: set,
        admin_option: false,
    }
}

fn role(name: &str) -> Role {
    roles::default_role_schema(name)
}

fn people() -> RoleCatalog {
    RoleCatalog {
        roles: vec![role("ann"), role("ops"), role("audit")],
        memberships: vec![
            member("ops", "ann", None, false),
            member("audit", "ops", Some(false), true),
        ],
    }
}

#[test]
fn role_names_are_normalised() {
    assert_eq!(roles::normalize_role_name("\"Ann\""), "ann");
    assert_eq!(roles::normalize_role_name(&roles::normalize_role_name("\"Ann\"")), "ann");
    assert_eq!(roles::role_membership_key("Ops", "\"Ann\""), "ops:ann");
    assert_eq!(roles::role_oid("bicdb"), 10);
    assert_eq!(roles::role_oid("ann"), roles::role_oid("ann"));
    assert_ne!(roles::role_oid("ann"), roles::role_oid("bob"));
}

#[test]
fn privileges_are_inherited_where_memberships_allow_it() {
    let c = people();
    let mut held = roles::role_privilege_closure(&c.memberships, &c.roles, "ann");
    held.sort();
    assert_eq!(held, vec!["ann", "ops"]);
    let settable = roles::settable_role_closure(&c.memberships, &c.roles, "ann");
    assert_eq!(settable, vec!["ann"]);
    let mut all = roles::membership_closure(&c.memberships, &c.roles, "ann", false);
    all.sort();
    assert_eq!(all, vec!["ann", "audit", "ops"]);
}

#[test]
fn the_user_of_a_session_comes_from_its_settings() {
    let mut gucs = Settings::new();
    assert_eq!(roles::session_user_from_gucs(&gucs), "bicdb");
    gucs.insert("session_authorization".to_string(), "ann".to_string());
    assert_eq!(roles::session_user_from_gucs(&gucs), "ann");
    assert_eq!(roles::current_user_from_gucs(&gucs), "ann");
    gucs.insert("role".to_string(), "ops".to_string());
    assert_eq!(roles::current_user_from_gucs(&gucs), "ops");
    gucs.insert("role".to_string(), "none".to_string());
    assert_eq!(roles::current_user_from_gucs(&gucs), "ann");
}

#[test]
fn unknown_roles_are_refused() {
    let e = roles::ensure_known_role(&people().roles, "bob").unwrap_err();
    assert_eq!(e.kind, SqlErrorKind::UndefinedRole);
    assert_eq!(e.subject.as_deref(), Some("bob"));
    assert!(roles::ensure_known_role(&people().roles, "ANN").is_ok());
    assert_eq!(roles::create_role_record(&people().roles, &role("bob"), false).unwrap(), true);
    assert_eq!(roles::create_role_record(&people().roles, &role("ann"), true).unwrap(), false);
    let e = roles::create_role_record(&people().roles, &role("ann"), false).unwrap_err();
    assert_eq!(e.kind, SqlErrorKind::DuplicateRole);
}

#[test]
fn copied_roles_replace_those_of_their_names() {
    let source = RoleCatalog {
        roles: vec![Role { superuser: true, ..role("ann") }],
        memberships: vec![],
    };
    let mut target = people();
    roles::copy_cluster_role_catalog(&source, &mut target).unwrap();
    assert!(roles::role_is_superuser(&target.roles, "ann"));
    assert!(roles::role_exists(&target.roles, "ops"));
    let posing = RoleCatalog {
        roles: vec![Role { name: "\"bicdb\"".to_string(), ..role("x") }],
        memberships: vec![],
    };
    let e = roles::copy_cluster_role_catalog(&posing, &mut target).unwrap_err();
    assert_eq!(e.kind, SqlErrorKind::DuplicateRole);
    assert_eq!(e.subject.as_deref(), Some("\"bicdb\""));
    assert!(roles::role_exists(&target.roles, "ops"));
}

fn grant(kind: PrivilegeObjectType, name: &str, grantee: &str, privilege: &str) -> PrivilegeGrant {
    PrivilegeGrant {
        column: None,
        object_type: kind,
        object_name: name.to_string(),
        grantee: grantee.to_string(),
        privilege: privilege.to_string(),
    }
}

fn orders() -> RelationInfo {
    RelationInfo { name: "orders".to_string(), exists: true, owner: Some("owner".to_string()) }
}

#[test]
fn table_privileges_come_from_grants() {
    let c = people();
    let none = vec![];
    assert!(!privileges::role_has_table_privilege(&c, &none, "ann", &orders(), "SELECT"));
    assert!(privileges::role_has_table_privilege(&c, &none, "bicdb", &orders(), "SELECT"));
    assert!(privileges::role_has_table_privilege(&c, &none, "owner", &orders(), "SELECT"));
    let to_ops = vec![grant(PrivilegeObjectType::Table, "orders", "ops", "SELECT")];
    assert!(privileges::role_has_table_privilege(&c, &to_ops, "ann", &orders(), "SELECT"));
    assert!(!privileges::role_has_table_privilege(&c, &to_ops, "ann", &orders(), "DELETE"));
    assert!(!privileges::role_has_table_privilege(&c, &to_ops, "audit", &orders(), "SELECT"));
}

#[test]
fn grant_keys_quote_columns() {
    let mut g = grant(PrivilegeObjectType::Table, "orders", "ops", "SELECT");
    assert_eq!(privileges::privilege_key(&g), "table:orders:ops:SELECT");
    g.column = Some("a\"b".to_string());
    assert_eq!(privileges::privilege_key(&g), "table:orders:ops:SELECT:column:\"a\\\"b\"");
}

#[test]
fn types_may_be_used_by_all_until_their_list_says_otherwise() {
    let mut t = TypePrivileges {
        schema_name: "public".to_string(),
        name: "mood".to_string(),
        owner: "owner".to_string(),
        acl_explicit: false,
    };
    assert!(privileges::role_can_use_user_type(&people(), &vec![], "ann", &t));
    t.acl_explicit = true;
    assert!(!privileges::role_can_use_user_type(&people(), &vec![], "ann", &t));
    let g = vec![grant(PrivilegeObjectType::Type, "public.mood", "ops", "USAGE")];
    assert!(privileges::role_can_use_user_type(&people(), &g, "ann", &t));
}

#[test]
fn access_lists_are_written_with_codes() {
    assert_eq!(grants::privilege_acl_code("SELECT"), "r");
    assert_eq!(grants::privilege_acl_code("EXECUTE"), "X");
    let g = vec![grant(PrivilegeObjectType::Schema, "app", "ops", "USAGE")];
    let acl = grants::schema_acl_value_from_privileges(&g, &vec![], "app").expect("a list");
    assert!(acl.contains("ops=U"), "{acl}");
    assert_eq!(grants::schema_acl_value_from_privileges(&g, &vec![], "other"), None);
}

#[test]
fn dependencies_are_found_in_routine_bodies() {
    assert_eq!(carrier::unqualified_relation("\"Public\".\"Orders\""), "orders");
    assert!(carrier::sql_mentions_routine("SELECT public.total( 1)", "total").unwrap());
    assert!(carrier::sql_mentions_routine("PERFORM total(1)", "public.Total").unwrap());
    assert!(!carrier::sql_mentions_routine("SELECT subtotal(1)", "total").unwrap());
    assert!(carrier::sql_mentions_relation_operation(
        "INSERT INTO orders VALUES (1)",
        "orders",
        Operation::Insert
    )
    .unwrap());
    assert!(!carrier::sql_mentions_relation_operation(
        "INSERT INTO orders_old VALUES (1)",
        "orders",
        Operation::Insert
    )
    .unwrap());
    // A name with a special character is taken as it is.
    assert!(!carrier::sql_mentions_routine("SELECT fxo(1)", "f.o").unwrap());
    let e = carrier::reviewed_dependency_regex("(", "x").unwrap_err();
    assert!(e.message.starts_with("invalid dependency pattern: "));
}

#[test]
fn an_index_by_number_finds_what_was_put_in_last() {
    let mut index = OidIndex::new();
    assert_eq!(index.get(7), None);
    index.insert(7, 1);
    index.insert(8, 2);
    index.insert(7, 3);
    assert_eq!(index.get(7), Some(3));
    assert_eq!(index.get(8), Some(2));
    assert_eq!(index.get(9), None);
}

fn domain(name: &str, oid: i64) -> UserType {
    UserType {
        name: name.to_string(),
        schema_name: "public".to_string(),
        owner: "owner".to_string(),
        comment: Some(format!("about {name}")),
        acl_explicit: false,
        oid,
        array_oid: oid + 1,
        display: format!("public.{name}"),
        array_display: format!("public.{name}[]"),
        kind: UserTypeKind::Domain {
            base_type: "text".to_string(),
            base_oid: 25,
            base_user_type: None,
        },
    }
}

fn types() -> TypeCatalog {
    TypeCatalog {
        types: vec![domain("zip", 100), domain("age", 200)],
        tables: vec![TableType {
            name: "orders".to_string(),
            schema_name: "public".to_string(),
            row_type_oid: 300,
            row_array_type_oid: 301,
            columns: vec![
                TableColumn { name: "id".to_string(), pg_type: "int8".to_string(), hidden: false },
                TableColumn { name: "h".to_string(), pg_type: "text".to_string(), hidden: true },
            ],
        }],
    }
}

#[test]
fn types_are_found_by_name_and_number() {
    let c = types();
    assert_eq!(
        user_types::load_user_type_by_oid(&c.types, 200).map(|t| t.name.as_str()),
        Some("age")
    );
    assert!(user_types::load_user_type_by_oid(&c.types, 999).is_none());
    assert!(user_types::load_user_type(&c.types, "public", "zip").is_some());
    assert_eq!(user_types::user_type_comment_by_oid(&c.types, 100).as_deref(), Some("about zip"));
    assert_eq!(user_types::pg_user_type_oid_by_name(&c, "public.zip").unwrap(), Some(100));
    assert_eq!(user_types::pg_user_type_oid_by_name(&c, "nothing").unwrap(), None);
    assert_eq!(user_types::pg_user_type_array_element_oid(&c, 101).unwrap(), Some(100));
    assert!(user_types::pg_is_user_type_oid(&c, 100));
    assert_eq!(user_types::pg_user_type_binary_base_oid(&c, 100).unwrap(), Some(25));
    assert_eq!(user_types::pg_user_range_type_info(&c, 100).unwrap().is_none(), true);
    let names: Vec<String> =
        user_types::list_user_types(c.types).into_iter().map(|t| t.name).collect();
    assert_eq!(names, vec!["age", "zip"]);
}

#[test]
fn row_types_are_found_through_their_index() {
    let c = types();
    assert!(user_types::pg_is_table_row_type_oid(&c, 300));
    assert!(user_types::pg_is_table_row_type_oid(&c, 301));
    assert!(!user_types::pg_is_table_row_type_oid(&c, 100));
    assert_eq!(user_types::pg_table_row_array_element_oid(&c, 301).unwrap(), Some(300));
    assert_eq!(
        user_types::pg_table_row_type_definition(&c, 300),
        Some(("orders".to_string(), vec![("id".to_string(), "int8".to_string())]))
    );
    let index = user_types::row_type_oid_index(&c.tables);
    assert_eq!(index.row.get(300), Some(0));
    assert_eq!(index.array.get(301), Some(0));
}

#[test]
fn ranges_of_other_types_have_no_values() {
    let c = types();
    let readings = || RangeReadings {
        range: Ok("[1,2)".to_string()),
        ranges: Ok(vec!["[1,2)".to_string(), "[3,4)".to_string()]),
    };
    let none = user_types::pg_user_range_values(&c, 100, CastValue::Null, readings()).unwrap();
    assert_eq!(none, Some(vec![]));
    let text = CastValue::Text("[1,2)".to_string());
    assert!(user_types::range_parse(&c, 100, &text).is_none());
    assert_eq!(user_types::pg_user_range_values(&c, 100, text, readings()).unwrap(), None);
    let info = PgUserRangeTypeInfo { range_oid: 1, multirange_oid: 2, subtype_oid: 3, multirange: false };
    assert_eq!(info.subtype_oid, 3);
}

fn span(oid: i64, kind: UserTypeKind) -> UserType {
    UserType {
        name: "span".to_string(),
        schema_name: "public".to_string(),
        owner: "ann".to_string(),
        comment: None,
        acl_explicit: false,
        oid,
        array_oid: oid + 1,
        display: "span".to_string(),
        array_display: "span[]".to_string(),
        kind,
    }
}

fn whole_numbers() -> RangeValue {
    RangeValue {
        subtype: "integer".to_string(),
        subtype_oid: 23,
        canonical_discrete: true,
        subtype_user_type: None,
    }
}

#[test]
fn a_range_is_one_range_and_a_multirange_a_list() {
    let mut c = types();
    c.types.push(span(500, UserTypeKind::Range { value: whole_numbers(), multirange_oid: 510 }));
    c.types.push(span(510, UserTypeKind::Multirange { value: whole_numbers(), range_oid: 500 }));
    let text = || CastValue::Text("[1,2)".to_string());
    let readings = || RangeReadings {
        range: Ok("[1,2)".to_string()),
        ranges: Ok(vec!["[1,2)".to_string(), "[3,4)".to_string()]),
    };
    let value = text();
    let parse = user_types::range_parse(&c, 500, &value).unwrap();
    assert_eq!((parse.text, parse.display, parse.subtype), ("[1,2)", "span", "integer"));
    assert!(parse.canonical_discrete && !parse.multirange);
    assert!(user_types::range_parse(&c, 510, &value).unwrap().multirange);
    let one = user_types::pg_user_range_values(&c, 500, text(), readings()).unwrap();
    assert_eq!(one, Some(vec!["[1,2)".to_string()]));
    let two = user_types::pg_user_range_values(&c, 510, text(), readings()).unwrap();
    assert_eq!(two, Some(vec!["[1,2)".to_string(), "[3,4)".to_string()]));
    let bad = RangeReadings { range: Err("bad".to_string()), ranges: Err("worse".to_string()) };
    let e = user_types::pg_user_range_values(&c, 510, text(), bad).unwrap_err();
    assert_eq!(e.message, "worse");
}

#[test]
fn new_numbers_are_free_and_never_come_twice() {
    let space = OidSpace { first: 100, limit: 110, version: 1 };
    let (first, state) = allocate_user_type_oids(space, None, &vec![100, 102], 3).unwrap();
    assert_eq!(first.len(), 3);
    assert!(first.iter().all(|o| *o != 100 && *o != 102 && (100..110).contains(o)));
    let state: UserTypeOidAllocator = state.expect("the allocator has moved");
    let (second, _) = allocate_user_type_oids(space, Some(state), &vec![100, 102], 3).unwrap();
    assert!(second.iter().all(|o| !first.contains(o)));
    assert!(allocate_user_type_oids(space, None, &vec![], 11).is_err());
}

#[test]
fn rows_of_virtual_tables_carry_the_number_of_their_table() {
    let listed = || {
        let mut row = CatalogRow::new();
        row.put_text("relname", "orders");
        vec![row]
    };
    for table in ["pg_class", "pg_catalog.pg_class"] {
        let rows = virtual_tables::virtual_table_rows(table, &graph(), listed(), Some(1259)).unwrap();
        assert_eq!(rows.len(), 1);
        assert!(rows[0].has("tableoid") && rows[0].has("relname"));
    }
    let rows = virtual_tables::virtual_table_rows("pg_operator", &graph(), listed(), Some(7)).unwrap();
    assert!(rows.is_empty());
    let rows =
        virtual_tables::virtual_table_rows("information_schema.schemata", &graph(), vec![], None).unwrap();
    assert!(rows.len() == 1 && !rows[0].has("tableoid"));
    let e = virtual_tables::virtual_table_rows("pg_nothing", &graph(), listed(), None).err().unwrap();
    assert_eq!(e.message, "virtual table pg_nothing is not implemented");
}

#[test]
fn the_schema_of_the_system_catalog_names_the_same_tables() {
    for name in ["pg_class", "pg_nothing", "pg_ts_dict"] {
        let long = format!("pg_catalog.{name}");
        assert_eq!(
            virtual_tables::is_virtual_table(&long, &graph()),
            virtual_tables::is_virtual_table(name, &graph())
        );
        assert_eq!(
            virtual_table_column_types(&long),
            virtual_table_column_types(name)
        );
    }
    assert!(virtual_tables::is_virtual_table("bicdb_projection.x", &graph()));
}
