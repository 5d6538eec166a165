//! What the catalogs list, and the grants that dependencies call for.
use bicdb_sql::caches::RoutineKind;
use bicdb_sql::carrier;
use bicdb_sql::carrier::{
    CarrierCatalog, CarrierPolicy, CarrierRoutine, CarrierTable, CarrierTrigger, CarrierView,
};
use bicdb_sql::catalog::{CatalogRow, Cell};
use bicdb_sql::constraints;
use bicdb_sql::constraints::{
    ConstrainedTable, ConstraintEntry, ConstraintKind, KeyColumn, TableConstraint,
};
use bicdb_sql::error::{SqlError, SqlErrorKind};
use bicdb_sql::grants;
use bicdb_sql::grants::{
    ActionKind, GrantCatalog, GrantObjects, GrantPrivileges, GrantRoutine, GranteeKind,
    NamedObject, PrivilegeAction,
};
use bicdb_sql::information_schema;
use bicdb_sql::information_schema::{
    ColumnInfo, ColumnSources, DeclaredType, DomainInfo, ParameterInfo, RoutineInfo, SequenceInfo,
    TableInfo, TypeForm, TypeInfo, TypeLookup,
};
use bicdb_sql::privileges::{
    DefaultPrivilegeGrant, PrivilegeGrant, PrivilegeObjectType, RelationInfo, TypePrivileges,
};
use bicdb_sql::pseudo_types::ArgumentMode;
use bicdb_sql::roles;
use bicdb_sql::roles::RoleCatalog;

fn names(list: &[&str]) -> Vec<String> {
    list.iter().map(|s| s.to_string()).collect()
}

fn text(s: &str) -> String {
    s.to_string()
}

fn shown(row: &CatalogRow, name: &str) -> Option<String> {
    row.cells.iter().find(|c| c.0 == name).map(|c| match &c.1 {
        Cell::Null => text("null"),
        Cell::Int(n) => n.to_string(),
        Cell::Text(s) => s.clone(),
    })
}

fn all(rows: &[CatalogRow], name: &str) -> Vec<String> {
    rows.iter().map(|r| shown(r, name).unwrap_or_default()).collect()
}

fn key_column(name: &str, nullable: bool, primary_key: bool) -> KeyColumn {
    KeyColumn {
        name: text(name),
        hidden: false,
        nullable,
        primary_key,
        not_null_name: format!("{name}_not_null"),
    }
}

fn constrained() -> Vec<ConstrainedTable> {
    let mut hidden = key_column("h", false, false);
    hidden.hidden = true;
    vec![ConstrainedTable {
        name: text("orders"),
        columns: vec![key_column("id", true, true), key_column("note", true, false), hidden],
        primary_key: names(&["id"]),
        primary_key_name: text("orders_pkey"),
        primary_key_column: Some(text("id")),
        constraints: vec![
            TableConstraint::Unique { name: text("u"), columns: names(&["a", "b"]), primary: false },
            TableConstraint::Unique { name: text("p"), columns: names(&["id"]), primary: true },
            TableConstraint::Check { name: text("c"), columns: names(&["note"]) },
            TableConstraint::ForeignKey { name: text("f"), columns: names(&["x"]) },
            TableConstraint::Exclusion { name: text("e") },
        ],
    }]
}

fn entries(list: &[ConstraintEntry]) -> Vec<String> {
    list.iter()
        .map(|e| format!("{} {:?} {}", e.name, e.column.as_deref().unwrap_or("-"), e.position))
        .collect()
}

#[test]
fn constraints_are_listed_table_by_table() {
    let list = constraints::information_schema_table_constraints(&constrained());
    let seen: Vec<(&str, &str)> =
        list.iter().map(|e| (e.name.as_str(), constraints::kind_name(e.kind))).collect();
    assert_eq!(
        seen,
        vec![
            ("id_not_null", "CHECK"),
            ("orders_pkey", "PRIMARY KEY"),
            ("u", "UNIQUE"),
            ("c", "CHECK"),
            ("f", "FOREIGN KEY"),
            ("e", "EXCLUDE"),
        ]
    );
    assert!(list.iter().all(|e| e.table == "orders"));
    assert_eq!(constraints::kind_name(ConstraintKind::Unique), "UNIQUE");
}

#[test]
fn columns_of_keys_are_numbered() {
    let list = constraints::information_schema_key_column_usage(&constrained());
    assert_eq!(
        entries(&list),
        vec!["orders_pkey \"id\" 1", "u \"a\" 1", "u \"b\" 2", "f \"x\" 1"]
    );
    let used = constraints::information_schema_constraint_column_usage(&constrained());
    let seen: Vec<(&str, &str)> =
        used.iter().map(|e| (e.name.as_str(), e.column.as_deref().unwrap_or("-"))).collect();
    assert_eq!(
        seen,
        vec![
            ("id_not_null", "id"),
            ("orders_pkey", "id"),
            ("u", "a"),
            ("u", "b"),
            ("p", "id"),
            ("c", "note"),
            ("f", "x"),
        ]
    );
}

fn column(name: &str) -> ColumnInfo {
    ColumnInfo {
        name: text(name),
        hidden: false,
        nullable: true,
        primary_key: false,
        identity: None,
        default_sequence: None,
        sequence: None,
        generated_expr: None,
        collation: None,
        data_type: text("bigint"),
        udt_schema: text("pg_catalog"),
        udt_name: text("int8"),
        domain: None,
        maximum_length: None,
        octet_length: None,
        array: false,
        element_user_type: None,
        element_built_in: None,
    }
}

fn table(schema: &str, name: &str, columns: Vec<ColumnInfo>) -> TableInfo {
    TableInfo { schema_name: text(schema), name: text(name), columns }
}

fn sources() -> ColumnSources {
    let mut id = column("id");
    id.identity = Some(text("ALWAYS"));
    id.sequence = Some(SequenceInfo {
        start_value: 1,
        increment_by: 2,
        max_value: 9,
        min_value: 0,
        cycle: true,
    });
    let mut hidden = column("h");
    hidden.hidden = true;
    ColumnSources {
        collections: names(&["orders", "loose"]),
        tables: vec![table("public", "orders", vec![id, hidden, column("note")])],
        undeclared: vec![column("id"), column("data")],
        views: vec![table("public", "totals", vec![column("sum")])],
        graphs: vec![],
    }
}

#[test]
fn columns_are_listed_in_their_order() {
    let rows = information_schema::information_schema_columns(&sources());
    let seen: Vec<String> = rows
        .iter()
        .map(|r| {
            format!(
                "{}.{} {}",
                shown(r, "table_name").unwrap(),
                shown(r, "column_name").unwrap(),
                shown(r, "ordinal_position").unwrap()
            )
        })
        .collect();
    assert!(seen.contains(&text("orders.id 1")), "{seen:?}");
    assert!(seen.contains(&text("loose.data 2")), "{seen:?}");
    assert!(seen.contains(&text("totals.sum 1")), "{seen:?}");
    assert!(!seen.iter().any(|s| s.starts_with("orders.h ")), "{seen:?}");
    let id = rows
        .iter()
        .find(|r| shown(r, "table_name").as_deref() == Some("orders"))
        .expect("the first column of orders");
    assert_eq!(shown(id, "is_identity").as_deref(), Some("YES"));
    assert_eq!(shown(id, "identity_increment").as_deref(), Some("2"));
    assert_eq!(shown(id, "identity_cycle").as_deref(), Some("YES"));
}

#[test]
fn filtered_columns_are_those_that_are_asked_for() {
    let tables = names(&["orders"]);
    let columns = names(&["note"]);
    let rows = information_schema::information_schema_columns_filtered(
        &sources(),
        None,
        Some(&tables),
        Some(&columns),
    );
    assert_eq!(all(&rows, "table_name"), names(&["orders"]));
    assert_eq!(all(&rows, "column_name"), names(&["note"]));
    let other = names(&["elsewhere"]);
    let none = information_schema::information_schema_columns_filtered(
        &sources(),
        Some(&other),
        None,
        None,
    );
    assert!(none.is_empty());
}

#[test]
fn tables_and_views_are_told_apart() {
    let rows = information_schema::information_schema_tables(
        &names(&["orders"]),
        &names(&["totals"]),
        &vec![],
    );
    assert_eq!(all(&rows, "table_name"), names(&["orders", "totals"]));
    assert_eq!(all(&rows, "table_type"), names(&["BASE TABLE", "VIEW"]));
}

fn domain(base: &str) -> DomainInfo {
    DomainInfo {
        base_type: text(base),
        built_in_data_type: text("numeric"),
        base_user_type: None,
        numeric: Some((10, 2)),
        collation: None,
        default_expr: None,
    }
}

#[test]
fn domains_and_composite_types_are_listed() {
    let t = |name: &str, form| TypeInfo { schema_name: text("app"), name: text(name), form };
    let types = || {
        vec![
            t("price", TypeForm::Domain(domain("numeric"))),
            t("pair", TypeForm::Composite),
            t("other", TypeForm::Other),
        ]
    };
    let rows = information_schema::information_schema_domains(&types());
    assert_eq!(all(&rows, "domain_name"), names(&["price"]));
    assert_eq!(shown(&rows[0], "numeric_precision").as_deref(), Some("10"));
    assert_eq!(shown(&rows[0], "udt_name").as_deref(), Some("numeric"));
    let rows = information_schema::information_schema_user_defined_types(&types());
    assert_eq!(all(&rows, "user_defined_type_name"), names(&["pair"]));
}

#[test]
fn arrays_have_element_types() {
    let mut list = column("list");
    list.array = true;
    list.element_built_in = Some((text("bigint"), text("int8")));
    let mut moods = column("moods");
    moods.array = true;
    moods.element_user_type = Some((text("app"), text("mood")));
    let rows = information_schema::information_schema_element_types(&vec![table(
        "public",
        "t",
        vec![column("id"), list, moods],
    )]);
    assert_eq!(all(&rows, "collection_type_identifier"), names(&["2", "3"]));
    assert_eq!(all(&rows, "data_type"), names(&["bigint", "USER-DEFINED"]));
    assert_eq!(all(&rows, "udt_name"), names(&["int8", "mood"]));
}

#[test]
fn declared_types_are_shown_by_their_names() {
    assert_eq!(
        information_schema::declared_type_reference(" \"app.mood[]\" "),
        (text("app"), text("mood"), true)
    );
    assert_eq!(
        information_schema::declared_type_reference("int8"),
        (text("public"), text("int8"), false)
    );
    let lookup = |user: Option<(&str, &str)>, element: Option<&str>| TypeLookup {
        user_type: user.map(|(a, b)| (text(a), text(b))),
        canonical: text("int8"),
        element: element.map(text),
        built_in_data_type: text("bigint"),
    };
    let show = |d: DeclaredType| (d.data_type, d.udt_schema, d.udt_name);
    assert_eq!(
        show(information_schema::information_schema_declared_type(
            true,
            &lookup(Some(("app", "mood")), None)
        )),
        (text("ARRAY"), text("app"), text("_mood"))
    );
    assert_eq!(
        show(information_schema::information_schema_declared_type(true, &lookup(None, Some("int8")))),
        (text("ARRAY"), text("pg_catalog"), text("_int8"))
    );
    assert_eq!(
        show(information_schema::information_schema_declared_type(false, &lookup(None, None))),
        (text("bigint"), text("pg_catalog"), text("int8"))
    );
}

#[test]
fn routines_and_their_parameters_are_listed() {
    let int8 = || DeclaredType {
        data_type: text("bigint"),
        udt_schema: text("pg_catalog"),
        udt_name: text("int8"),
    };
    let f = RoutineInfo {
        name: text("app.total"),
        arguments_hash: text("77"),
        procedure: false,
        returns: int8(),
        definition: text("select 1"),
        language: text("sql"),
        security_definer: true,
        parameters: vec![
            ParameterInfo { name: Some(text("a")), mode: ArgumentMode::Input, declared: int8() },
            ParameterInfo { name: None, mode: ArgumentMode::Both, declared: int8() },
        ],
    };
    assert_eq!(
        information_schema::information_schema_routine_identity(&f),
        (text("app"), text("total"), text("total_77"))
    );
    let list = vec![f];
    let rows = information_schema::information_schema_routines(&list);
    assert_eq!(all(&rows, "specific_name"), names(&["total_77"]));
    assert_eq!(all(&rows, "routine_type"), names(&["FUNCTION"]));
    let rows = information_schema::information_schema_parameters(&list);
    assert_eq!(all(&rows, "ordinal_position"), names(&["1", "2"]));
    assert_eq!(all(&rows, "parameter_mode"), names(&["IN", "INOUT"]));
}

fn action(kind: ActionKind, columns: bool) -> PrivilegeAction {
    PrivilegeAction { kind, columns, object: false, written: text("WRITTEN") }
}

fn object(name: &str, exists: bool) -> NamedObject {
    NamedObject { name: Ok(text(name)), exists }
}

#[test]
fn privileges_have_names() {
    let tables = GrantObjects::Tables(vec![object("t", true)]);
    let some = GrantPrivileges::Actions(vec![
        action(ActionKind::Select, false),
        action(ActionKind::Insert, false),
    ]);
    assert_eq!(grants::privilege_names(&some, &tables).unwrap(), names(&["SELECT", "INSERT"]));
    assert_eq!(
        grants::privilege_names(
            &GrantPrivileges::All,
            &GrantObjects::Schemas(vec![object("s", true)])
        )
        .unwrap(),
        names(&["CREATE", "USAGE"])
    );
    let by_column = GrantPrivileges::Actions(vec![action(ActionKind::Select, true)]);
    assert_eq!(
        grants::privilege_names(&by_column, &tables).unwrap_err().message,
        "column-level privileges are not supported"
    );
    let other = GrantPrivileges::Actions(vec![action(ActionKind::Other, false)]);
    assert_eq!(
        grants::privilege_names(&other, &tables).unwrap_err().message,
        "privilege WRITTEN is not supported"
    );
    assert_eq!(
        grants::privilege_names(&GrantPrivileges::All, &GrantObjects::Other(text("X")))
            .unwrap_err()
            .message,
        "privileges on X are not supported"
    );
}

#[test]
fn grants_go_to_what_is_there() {
    let c = GrantCatalog {
        tables: names(&["orders", "app__notes"]),
        sequences: names(&["seq"]),
        routines: vec![GrantRoutine {
            name: text("total"),
            schema: text("public"),
            definition: text("create function total() returns int"),
            function: true,
        }],
    };
    let (kind, found) =
        grants::grant_targets(&c, &GrantObjects::Tables(vec![object("orders", true)])).unwrap();
    assert_eq!((kind, found), (PrivilegeObjectType::Table, names(&["orders"])));
    let e = grants::grant_targets(&c, &GrantObjects::Tables(vec![object("none", false)]))
        .unwrap_err();
    assert_eq!(e.kind, SqlErrorKind::InvalidCollection);
    let (kind, found) = grants::grant_targets(
        &c,
        &GrantObjects::AllSequencesInSchema(vec![object("public", true)]),
    )
    .unwrap();
    assert_eq!((kind, found), (PrivilegeObjectType::Sequence, names(&["seq"])));
    let refused = NamedObject {
        name: Err(SqlError::invalid_sql(text("bad name"))),
        exists: false,
    };
    assert_eq!(
        grants::grant_targets(&c, &GrantObjects::Tables(vec![refused])).unwrap_err().message,
        "bad name"
    );
    assert_eq!(grants::grantee_role_name(&GranteeKind::Public, &None).unwrap(), "public");
    assert_eq!(
        grants::grantee_role_name(&GranteeKind::Role, &Some(Ok(text("\"Ann\"")))).unwrap(),
        "ann"
    );
    assert_eq!(
        grants::grantee_role_name(&GranteeKind::Role, &None).unwrap_err().message,
        "missing grantee name"
    );
    assert_eq!(
        grants::grantee_role_name(&GranteeKind::Other(text("GROUP")), &None).unwrap_err().message,
        "grantee type GROUP is not supported"
    );
}

fn grant(kind: PrivilegeObjectType, name: &str, grantee: &str, privilege: &str) -> PrivilegeGrant {
    PrivilegeGrant {
        column: None,
        object_type: kind,
        object_name: text(name),
        grantee: text(grantee),
        privilege: text(privilege),
    }
}

#[test]
fn access_lists_name_their_objects() {
    let list = vec![
        grant(PrivilegeObjectType::Table, "orders", "ann", "SELECT"),
        grant(PrivilegeObjectType::Table, "orders", "ann", "INSERT"),
        grant(PrivilegeObjectType::Type, "public.mood", "public", "USAGE"),
    ];
    let acl = grants::table_acl_value_from_privileges(&list, &vec![], "orders").expect("a list");
    assert!(acl.contains("ann="), "{acl}");
    assert_eq!(grants::table_acl_value_from_privileges(&list, &vec![], "none"), None);
    let t = TypePrivileges {
        schema_name: text("public"),
        name: text("mood"),
        owner: text("owner"),
        acl_explicit: true,
    };
    let acl = grants::type_acl_value_from_privileges(&list, &vec![], &t).expect("a list");
    assert!(acl.contains("=U/owner"), "{acl}");
    let rows = grants::information_schema_role_table_grants(&list);
    assert_eq!(all(&rows, "privilege_type"), names(&["SELECT", "INSERT"]));
}

#[test]
fn default_access_lists_are_gathered() {
    let d = |grantee: &str, privilege: &str| DefaultPrivilegeGrant {
        grantor: text("owner"),
        schema_name: text("*"),
        object_type: PrivilegeObjectType::Table,
        grantee: text(grantee),
        privilege: text(privilege),
    };
    let lists = grants::pg_default_acl_lists(&vec![d("ann", "SELECT"), d("bob", "INSERT")]);
    assert_eq!(lists.len(), 1);
    assert_eq!(lists[0].grants.len(), 2);
    assert_eq!(grants::default_acl_relation(&lists[0]), "pg_default_acl:owner:*:r");
    let row = grants::pg_default_acl_row(&lists[0], &vec![], 5, 9);
    assert_eq!(shown(&row, "oid").as_deref(), Some("5"));
    assert_eq!(shown(&row, "defaclnamespace").as_deref(), Some("0"));
    assert_eq!(shown(&row, "defaclobjtype").as_deref(), Some("r"));
}

fn relation(name: &str, owner: &str) -> RelationInfo {
    RelationInfo { name: text(name), exists: true, owner: Some(text(owner)) }
}

fn routine(name: &str, definition: &str, definer: bool) -> CarrierRoutine {
    CarrierRoutine {
        kind: RoutineKind::Function,
        name: text(name),
        bare_name: text(name),
        schema: text("public"),
        language: text("sql"),
        definition: text(definition),
        owner: text("owner"),
        security_definer: definer,
        definer_owner: if definer { Some(text("owner")) } else { None },
    }
}

fn carrier_catalog() -> CarrierCatalog {
    let table = |name: &str, policies| CarrierTable {
        name: text(name),
        schema_name: text("public"),
        relation: relation(name, "owner"),
        policies,
    };
    CarrierCatalog {
        roles: RoleCatalog {
            roles: vec![
                roles::default_role_schema("app"),
                roles::default_role_schema("owner"),
            ],
            memberships: vec![],
        },
        grants: vec![
            grant(PrivilegeObjectType::Function, "entry", "app", "EXECUTE"),
            grant(PrivilegeObjectType::Table, "orders", "app", "INSERT"),
        ],
        routines: vec![
            routine("entry", "SELECT inner_one(1); SELECT * FROM notes", false),
            routine("inner_one", "UPDATE orders SET a = 1", true),
            routine("fired", "DELETE FROM notes", false),
            routine("allowed", "SELECT 1", false),
            routine("idle", "SELECT * FROM orders", false),
        ],
        triggers: vec![CarrierTrigger {
            event: text("insert"),
            relation: relation("orders", "owner"),
            function: text("fired"),
        }],
        tables: vec![
            table(
                "orders",
                vec![CarrierPolicy {
                    using_expr: Some(text("allowed(id)")),
                    check_expr: None,
                }],
            ),
            table("notes", vec![]),
        ],
        views: vec![CarrierView {
            name: text("totals"),
            relation: relation("totals", "owner"),
            query_sql: text("SELECT * FROM orders"),
            security_invoker: false,
            owner: None,
        }],
    }
}

#[test]
fn dependencies_call_for_grants() {
    let saved =
        carrier::apply_carrier_function_dependency_grants(&carrier_catalog(), "\"App\"").unwrap();
    let has = |kind, name: &str, grantee: &str, privilege: &str| {
        saved.iter().any(|g| {
            g.object_type == kind
                && g.object_name == name
                && g.grantee == grantee
                && g.privilege == privilege
        })
    };
    assert!(has(PrivilegeObjectType::Function, "inner_one", "app", "EXECUTE"));
    assert!(has(PrivilegeObjectType::Schema, "public", "app", "USAGE"));
    assert!(has(PrivilegeObjectType::Table, "notes", "app", "SELECT"));
    assert!(has(PrivilegeObjectType::Table, "orders", "owner", "UPDATE"));
    assert!(has(PrivilegeObjectType::Table, "notes", "app", "DELETE"));
    assert!(has(PrivilegeObjectType::Function, "allowed", "app", "EXECUTE"));
    assert!(!has(PrivilegeObjectType::Table, "orders", "app", "UPDATE"));
    assert!(!has(PrivilegeObjectType::Table, "orders", "app", "SELECT"));
    let e = carrier::apply_carrier_function_dependency_grants(&carrier_catalog(), "nobody")
        .unwrap_err();
    assert_eq!(e.kind, SqlErrorKind::UndefinedRole);
}

#[test]
fn views_call_for_grants_of_their_owner() {
    let mut c = carrier_catalog();
    c.grants = vec![grant(PrivilegeObjectType::Table, "totals", "app", "SELECT")];
    c.triggers = vec![];
    let saved = carrier::apply_carrier_function_dependency_grants(&c, "app").unwrap();
    assert!(saved.iter().any(|g| g.object_name == "orders"
        && g.grantee == "bicdb"
        && g.privilege == "SELECT"));
    c.views[0].security_invoker = true;
    let saved = carrier::apply_carrier_function_dependency_grants(&c, "app").unwrap();
    assert!(saved.iter().any(|g| g.object_name == "orders"
        && g.grantee == "app"
        && g.privilege == "SELECT"));
}

#[test]
fn a_name_belongs_to_the_owner_of_its_function() {
    let mut c = carrier_catalog();
    c.grants = vec![];
    c.triggers = vec![];
    c.views = vec![];
    let twin = |kind, owner: &str| CarrierRoutine {
        kind,
        owner: text(owner),
        ..routine("twin", "SELECT * FROM notes", false)
    };
    let reads_notes = |c: &CarrierCatalog| {
        carrier::apply_carrier_function_dependency_grants(c, "app")
            .unwrap()
            .iter()
            .any(|g| g.object_name == "notes" && g.grantee == "app" && g.privilege == "SELECT")
    };
    c.routines = vec![twin(RoutineKind::Procedure, "app")];
    assert!(reads_notes(&c));
    c.routines = vec![twin(RoutineKind::Procedure, "app"), twin(RoutineKind::Function, "owner")];
    assert!(!reads_notes(&c));
    c.routines = vec![twin(RoutineKind::Procedure, "owner"), twin(RoutineKind::Function, "app")];
    assert!(reads_notes(&c));
}

#[test]
fn names_are_searched_for_letter_by_letter() {
    let mut c = carrier_catalog();
    c.routines[0].definition = text("SELECT a+b(1), axc(2)");
    c.routines[1] = routine("a+b", "SELECT 1", false);
    c.routines.push(routine("a\"c", "SELECT 1", false));
    let saved = carrier::apply_carrier_function_dependency_grants(&c, "app").unwrap();
    assert!(saved.iter().any(|g| g.object_name == "a+b"));
    assert!(!saved.iter().any(|g| g.object_name == "a\"c"));
}

#[test]
fn a_search_that_fails_is_told() {
    let mut c = carrier_catalog();
    c.routines.push(routine(&"a".repeat(1_000_000), "SELECT 1", false));
    let e = carrier::apply_carrier_function_dependency_grants(&c, "app").unwrap_err();
    assert_eq!(e.kind, SqlErrorKind::InvalidSql);
    let message = e.message.strip_prefix("invalid dependency pattern: ").unwrap();
    assert!(!message.is_empty());
}
