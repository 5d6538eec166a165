//! Cubes, memory indexes, types and the privileges on them.
use bicdb_sql::cubes;
use bicdb_sql::cubes::{
    AggregateCell, CellValue, DimensionValue, MeasureState, RollupSpec, SketchKind, SketchSpec,
    SketchState,
};
use bicdb_sql::ddl::DdlCatalog;
use bicdb_sql::error::SqlErrorKind;
use bicdb_sql::function_privileges;
use bicdb_sql::function_privileges::{FunctionPrivilegeDdl, OwnedRoutine};
use bicdb_sql::guc::SqlSettings;
use bicdb_sql::memory_sql;
use bicdb_sql::memory_sql::{MemoryTableHead, TablePart};
use bicdb_sql::privileges::{PrivilegeGrant, PrivilegeObjectType, TypePrivileges};
use bicdb_sql::roles;
use bicdb_sql::roles::{RoleCatalog, RoleMembership};
use bicdb_sql::session::{SessionStart, SqlSession};
use bicdb_sql::settings::Settings;
use bicdb_sql::type_authority;
use bicdb_sql::type_authority::{AlterUserType, NamedType, TypeChange, TypeStep};

fn names(list: &[&str]) -> Vec<String> {
    list.iter().map(|s| s.to_string()).collect()
}

#[test]
fn memory_indexes_are_parsed() {
    let index = memory_sql::parse_raw_create_memory_index(
        "create memory index on \"Notes\" (body)\n WITH (Model = 'm''1', mode=HYBRID);",
    )
    .unwrap()
    .expect("a memory index");
    assert_eq!(index.index_name, "idx_Notes_body_memory");
    assert_eq!(index.table, "Notes");
    assert_eq!(index.field, "body");
    assert_eq!(index.model.as_deref(), Some("m'1"));
    assert_eq!(index.mode.as_deref(), Some("hybrid"));
    assert!(memory_sql::parse_raw_create_memory_index("CREATE INDEX i ON t (a)").unwrap().is_none());
    assert!(memory_sql::parse_raw_create_memory_index("SELECT memory").unwrap().is_none());
    let e = memory_sql::parse_raw_create_memory_index("CREATE MEMORY INDEX ON t (a) WITH (x)")
        .unwrap_err();
    assert_eq!(e.message, "invalid memory index option `x`");
}

#[test]
fn memory_jobs_and_searches_are_parsed() {
    assert_eq!(
        memory_sql::parse_raw_process_memory_jobs("SELECT bicdb_process_memory_jobs( 12 );").unwrap(),
        Some(12)
    );
    assert_eq!(
        memory_sql::parse_raw_process_memory_jobs("select BICDB_PROCESS_MEMORY_JOBS()").unwrap(),
        Some(usize::MAX)
    );
    assert_eq!(memory_sql::parse_raw_process_memory_jobs("SELECT 1").unwrap(), None);
    let e = memory_sql::parse_raw_process_memory_jobs(
        "SELECT bicdb_process_memory_jobs(99999999999999999999999)",
    )
    .unwrap_err();
    assert_eq!(e.message, "bicdb_process_memory_jobs limit must be an integer");
    let s = memory_sql::parse_raw_similar_to_select(
        "SELECT id, body FROM notes ORDER BY SIMILAR_TO(body, 'it''s') LIMIT 5;",
    )
    .unwrap()
    .expect("a search");
    assert_eq!(s.columns, "id, body");
    assert_eq!((s.table.as_str(), s.field.as_str(), s.query.as_str()), ("notes", "body", "it's"));
    assert_eq!(s.limit, 5);
    let e = memory_sql::parse_raw_similar_to_select(
        "SELECT a FROM t ORDER BY SIMILAR_TO(b, 'x') LIMIT 99999999999999999999999",
    )
    .unwrap_err();
    assert_eq!(e.message, "LIMIT must be an integer");
    assert!(memory_sql::parse_raw_similar_to_select("SELECT 1").unwrap().is_none());
}

#[test]
fn memory_columns_lose_their_word() {
    let strip = |s: &str| memory_sql::strip_top_level_memory_keyword(s);
    assert_eq!(strip(" text MEMORY not null"), (" text not null".to_string(), true));
    assert_eq!(strip(" text default 'memory'"), (" text default 'memory'".to_string(), false));
    assert_eq!(strip(" check (memory)"), (" check (memory)".to_string(), false));
    assert_eq!(strip(" in_memory"), (" in_memory".to_string(), false));
    assert_eq!(strip("memory"), (String::new(), true));
    assert!(memory_sql::starts_with_memory_keyword("Memory,"));
    assert!(!memory_sql::starts_with_memory_keyword("memoryx"));
    let head = memory_sql::memory_table_head("CREATE TABLE  notes (id int, body text MEMORY);")
        .expect("a table");
    assert_eq!(head.prefix, "CREATE TABLE  ");
    assert_eq!(head.table_token, "notes");
    assert_eq!(head.spacing, " ");
    assert_eq!(head.body, "id int, body text MEMORY");
    let parts = vec![
        TablePart {
            written: "id int".to_string(),
            head: Some(("id".to_string(), " int".to_string())),
        },
        TablePart {
            written: "body text MEMORY".to_string(),
            head: Some(("body".to_string(), " text MEMORY".to_string())),
        },
        TablePart {
            written: "check (memory > 1)".to_string(),
            head: Some(("check".to_string(), " memory".to_string())),
        },
        TablePart { written: "1".to_string(), head: None },
    ];
    let t = memory_sql::parse_raw_create_memory_table(&head, &parts).expect("memory columns");
    assert_eq!(t.table, "notes");
    assert_eq!(t.fields, names(&["body"]));
    assert_eq!(t.table_sql, "CREATE TABLE  notes (id int, body text, check (memory > 1), 1)");
    let head = MemoryTableHead {
        prefix: String::new(),
        table_token: "t".to_string(),
        spacing: String::new(),
        body: String::new(),
    };
    assert!(memory_sql::parse_raw_create_memory_table(&head, &vec![]).is_none());
    assert!(memory_sql::memory_table_head("DROP TABLE t").is_none());
}

#[test]
fn quotes_come_off() {
    assert_eq!(memory_sql::unquote_sql_string(" 'a''b' "), "a'b");
    assert_eq!(memory_sql::unquote_sql_string("'"), "'");
    assert_eq!(memory_sql::unquote_sql_identifier("\"A\"\"b\""), "A\"b");
    assert_eq!(memory_sql::unquote_sql_identifier(" A "), "A");
    assert_eq!(memory_sql::normalize_select_column_identifier(" t.\"A\" "), "A");
    assert!(memory_sql::contains_ascii_case_insensitive("xMemOry", "MEMORY"));
    assert!(memory_sql::contains_ascii_case_insensitive("", ""));
    assert!(!memory_sql::contains_ascii_case_insensitive("mem", "memory"));
    assert!(memory_sql::is_sql_ident_char('_'));
    assert!(!memory_sql::is_sql_ident_char('ä'));
}

#[test]
fn cubes_are_parsed() {
    let cube = cubes::parse_create_cube(
        "CREATE CUBE \"sales\" ON orders DIMENSIONS (day, \"cat\", ) \
         MEASURES (SUM(total), qty, COUNT(DISTINCT host), COUNT (DISTINCT host_id), COUNT(distinct \"h2\"), PERCENTILES(ms), AVG( \"x\" )) WITH FORCE;",
    )
    .unwrap()
    .expect("a cube");
    assert_eq!(cube.name, "sales");
    assert_eq!(cube.collection, "orders");
    assert_eq!(cube.dimensions, names(&["day", "cat"]));
    assert_eq!(cube.measures, names(&["total", "qty", "x"]));
    let sketches: Vec<(&str, SketchKind)> =
        cube.sketches.iter().map(|s| (s.path.as_str(), s.kind)).collect();
    assert_eq!(
        sketches,
        vec![
            ("host", SketchKind::DistinctCount),
            ("host_id", SketchKind::DistinctCount),
            ("h2", SketchKind::DistinctCount),
            ("ms", SketchKind::Quantile),
        ]
    );
    assert!(cube.force);
    assert!(cubes::parse_create_cube("CREATE TABLE t (a int)").unwrap().is_none());
    for (sql, message) in [
        ("CREATE CUBE c", "CREATE CUBE requires `ON <table>`"),
        ("CREATE CUBE ON t DIMENSIONS (a)", "CREATE CUBE requires a cube name"),
        ("CREATE CUBE c ON t", "CREATE CUBE requires DIMENSIONS (...)"),
        ("CREATE CUBE c ON  DIMENSIONS (a)", "CREATE CUBE requires a table to aggregate"),
        ("CREATE CUBE c ON t DIMENSIONS ()", "CREATE CUBE requires at least one dimension"),
    ] {
        let e = cubes::parse_create_cube(sql).unwrap_err();
        assert_eq!(e.kind, SqlErrorKind::InvalidSql);
        assert_eq!(e.message, message, "{sql}");
    }
}

#[test]
fn rollup_levels_are_parsed() {
    let dims = names(&["day", "category", "cell", "n", "path"]);
    let levels = cubes::parse_rollup_levels(
        "(day PREFIX 7, Category keep, cell H3 99, n BUCKET -5, path SEGMENT '/' 2)",
        &dims,
    )
    .unwrap();
    assert_eq!(
        levels,
        vec![
            RollupSpec::Prefix(7),
            RollupSpec::Keep,
            RollupSpec::H3(15),
            RollupSpec::Bucket(-5),
            RollupSpec::Segment { separator: '/', depth: 2 },
        ]
    );
    assert_eq!(cubes::parse_rollup_levels("()", &dims).unwrap(), vec![RollupSpec::Keep; 5]);
    assert_eq!(
        cubes::parse_rollup_levels("day WHOLE", &names(&["day"])).unwrap(),
        vec![RollupSpec::Whole]
    );
    for (spec, message) in [
        ("day", "rollup level `day` must be `<dimension> <level>`"),
        ("x KEEP", "`x` is not a dimension of this materialized aggregate"),
        ("day PREFIX", "rollup level `day PREFIX` needs a numeric argument"),
        ("day SEGMENT", "SEGMENT needs a separator"),
        (
            "day week",
            "unknown rollup level `WEEK`; expected KEEP, WHOLE, PREFIX, SEGMENT, BUCKET or H3",
        ),
    ] {
        assert_eq!(cubes::parse_rollup_levels(spec, &dims).unwrap_err().message, message);
    }
}

#[test]
fn cells_are_coarsened_to_their_parents() {
    let fine = DimensionValue::Text("8a1fb46622dffff".to_string());
    let parent = |v: &DimensionValue, r: u8| format!("{:?}", cubes::h3_parent(v, r));
    assert_eq!(parent(&fine, 5), "Text(\"851fb467fffffff\")");
    assert_eq!(parent(&DimensionValue::Int(0x8a1fb46622dffff), 5), "Text(\"851fb467fffffff\")");
    assert_eq!(parent(&fine, 15), format!("{fine:?}"));
    assert_eq!(parent(&fine, 16), format!("{fine:?}"));
    let plain = DimensionValue::Text("no cell".to_string());
    assert_eq!(parent(&plain, 5), format!("{plain:?}"));
    assert_eq!(parent(&DimensionValue::Int(-1), 5), "Int(-1)");
    assert_eq!(parent(&DimensionValue::Missing, 5), "Missing");
}

#[test]
fn cells_are_rendered_under_their_columns() {
    let specs = vec![
        SketchSpec {
            name: "host".to_string(),
            path: "host".to_string(),
            kind: SketchKind::DistinctCount,
        },
        SketchSpec { name: "ms".to_string(), path: "ms".to_string(), kind: SketchKind::Quantile },
    ];
    let cells = vec![AggregateCell {
        key: vec![DimensionValue::Bool(true)],
        count: 3,
        measures: vec![MeasureState { sum: 1.5f64.to_bits(), avg: None }],
        sketches: vec![SketchState { distinct: Some(2), p50: None, p95: None }],
    }];
    let (columns, rows) =
        cubes::render_aggregate_cells(&names(&["ok"]), &names(&["total"]), &specs, &cells);
    assert_eq!(
        columns,
        names(&["ok", "count", "sum_total", "avg_total", "distinct_host", "p50_ms", "p95_ms"])
    );
    assert_eq!(rows.len(), 1);
    assert_eq!(rows[0].len(), columns.len());
    assert!(matches!(rows[0][0], CellValue::Bool(true)));
    assert!(matches!(rows[0][1], CellValue::Int(3)));
    assert!(matches!(rows[0][2], CellValue::Float(b) if b == 1.5f64.to_bits()));
    assert!(matches!(rows[0][3], CellValue::Null));
    assert!(matches!(rows[0][4], CellValue::Int(2)));
    assert!(matches!(rows[0][6], CellValue::Null));
}

fn catalog() -> RoleCatalog {
    RoleCatalog {
        roles: vec![
            roles::default_role_schema("ann"),
            roles::default_role_schema("bob"),
            roles::default_role_schema("owner"),
        ],
        memberships: vec![RoleMembership {
            role: "owner".to_string(),
            member: "ann".to_string(),
            inherit_option: None,
            set_option: true,
            admin_option: false,
        }],
    }
}

fn start() -> SessionStart {
    SessionStart {
        catalog: DdlCatalog::new(),
        schema_cache_generation: 0,
        defaults: SqlSettings { vector_search: 0, ef_search: 1 },
    }
}

fn session(user: &str) -> SqlSession {
    SqlSession::new_unprivileged(start(), user)
}

fn ddl(grantees: &[&str], with_grant_option: bool) -> FunctionPrivilegeDdl {
    FunctionPrivilegeDdl {
        routines: vec![
            OwnedRoutine { name: "f".to_string(), owner: "owner".to_string() },
            OwnedRoutine { name: "g".to_string(), owner: "owner".to_string() },
        ],
        grantees: names(grantees),
        with_grant_option,
    }
}

#[test]
fn function_grants_go_to_every_grantee() {
    let c = catalog();
    let mut gucs = Settings::new();
    gucs.insert("session_authorization".to_string(), "ann".to_string());
    let run = |d: &FunctionPrivilegeDdl| {
        function_privileges::execute_raw_function_privileges(&c, &c.roles, &gucs, d)
    };
    let grants = run(&ddl(&["public", "CURRENT_USER"], false)).unwrap();
    let seen: Vec<(&str, &str)> =
        grants.iter().map(|g| (g.grantee.as_str(), g.object_name.as_str())).collect();
    assert_eq!(seen, vec![("public", "f"), ("public", "g"), ("ann", "f"), ("ann", "g")]);
    assert!(grants.iter().all(|g| g.privilege == "EXECUTE"));
    let e = run(&ddl(&["nobody"], false)).unwrap_err();
    assert_eq!(e.subject.as_deref(), Some("nobody"));
    assert!(run(&ddl(&["SESSION_USER"], true)).is_ok());
    for grantee in ["bob", "public"] {
        let e = run(&ddl(&[grantee], true)).unwrap_err();
        assert_eq!(
            e.message,
            "function grant options for non-owner roles require dependent-grant tracking"
        );
    }
}

fn mood(acl_explicit: bool) -> NamedType {
    NamedType {
        schema_name: "public".to_string(),
        name: "mood".to_string(),
        loaded: Some(TypePrivileges {
            schema_name: "public".to_string(),
            name: "mood".to_string(),
            owner: "owner".to_string(),
            acl_explicit,
        }),
        is_domain: false,
    }
}

fn missing() -> NamedType {
    NamedType {
        schema_name: "public".to_string(),
        name: "none".to_string(),
        loaded: None,
        is_domain: false,
    }
}

#[test]
fn type_privileges_are_written_down_first() {
    let c = catalog();
    let (steps, error) = session("ann").execute_raw_type_privileges(
        &c,
        &c.roles,
        &vec![mood(false)],
        &names(&["bob", "nobody"]),
        false,
    );
    assert_eq!(error.expect("an unknown role").subject.as_deref(), Some("nobody"));
    assert_eq!(steps.len(), 4);
    assert!(matches!(&steps[0], TypeStep::Grant(g) if g.grantee == "public"));
    assert!(matches!(&steps[1], TypeStep::Grant(g) if g.grantee == "owner"));
    assert!(matches!(steps[2], TypeStep::MarkExplicit(0)));
    assert!(
        matches!(&steps[3], TypeStep::Revoke(g) if g.grantee == "bob" && g.object_name == "public.mood")
    );
    let (steps, error) = session("bob").execute_raw_type_privileges(
        &c,
        &c.roles,
        &vec![mood(true)],
        &names(&["bob"]),
        true,
    );
    assert!(steps.is_empty());
    assert_eq!(error.unwrap().message, "must be owner of type public.mood");
    let (_, error) = session("ann").execute_raw_type_privileges(
        &c,
        &c.roles,
        &vec![missing()],
        &names(&["bob"]),
        true,
    );
    assert_eq!(error.unwrap().kind, SqlErrorKind::UndefinedType);
}

#[test]
fn types_change_hands_with_their_grant() {
    let c = catalog();
    let owner_grant = PrivilegeGrant {
        column: None,
        object_type: PrivilegeObjectType::Type,
        object_name: "public.mood".to_string(),
        grantee: "owner".to_string(),
        privilege: "USAGE".to_string(),
    };
    let grants = vec![owner_grant];
    let alter = |user: &str, t: &NamedType, domain, a| {
        session(user).execute_raw_alter_user_type(&c, &c.roles, &grants, t, domain, a)
    };
    match alter("ann", &mood(true), false, AlterUserType::Owner("ann".to_string())).unwrap() {
        TypeChange::Owner { owner, moved: Some((old, new)) } => {
            assert_eq!(owner, "ann");
            assert_eq!((old.grantee.as_str(), new.grantee.as_str()), ("owner", "ann"));
        }
        _ => panic!("the grant moves"),
    }
    let e = alter("ann", &mood(true), false, AlterUserType::Owner("bob".to_string())).unwrap_err();
    assert_eq!(e.message, "permission denied to change type owner to \"bob\"");
    let e = alter("ann", &mood(true), true, AlterUserType::Owner("ann".to_string())).unwrap_err();
    assert_eq!(e.code, "42809");
    let to = |schema: &str, schema_known, taken| AlterUserType::SetSchema {
        schema_name: schema.to_string(),
        schema_known,
        taken,
    };
    assert!(matches!(
        alter("ann", &mood(true), false, to("Public", true, true)).unwrap(),
        TypeChange::Nothing
    ));
    assert!(matches!(
        alter("ann", &mood(true), false, to("app", true, false)).unwrap(),
        TypeChange::Relocate(s) if s == "app"
    ));
    assert_eq!(alter("ann", &mood(true), false, to("app", true, true)).unwrap_err().code, "42710");
    assert_eq!(
        alter("ann", &mood(true), false, to("app", false, false)).unwrap_err().kind,
        SqlErrorKind::InvalidCollection
    );
    assert_eq!(
        alter("ann", &missing(), false, to("app", true, false)).unwrap_err().kind,
        SqlErrorKind::UndefinedType
    );
}

#[test]
fn comments_on_types_are_checked() {
    let c = catalog();
    assert!(session("ann").comment_on_type(&c, &mood(true), false, false).unwrap());
    assert!(!session("ann").comment_on_type(&c, &missing(), false, true).unwrap());
    assert!(session("ann").comment_on_type(&c, &missing(), false, false).is_err());
    assert_eq!(
        session("ann").comment_on_type(&c, &mood(true), true, false).unwrap_err().message,
        "public.mood has the wrong object type"
    );
    assert_eq!(
        type_authority::execute_raw_comment(&names(&[
            "comment on type mood is 'x'",
            "comment on table t is 'y'"
        ])),
        Some(vec![true, false])
    );
    assert_eq!(
        type_authority::execute_raw_comment(&names(&["comment on type a is 'x'", "select 1"])),
        None
    );
    assert_eq!(type_authority::execute_raw_comment(&vec![]), None);
}

#[test]
fn a_vanished_type_is_for_superusers() {
    let c = catalog();
    let grants = vec![];
    assert!(session("bob").ensure_user_type_usage(&c, &grants, None, None).is_ok());
    let e = session("bob").ensure_user_type_usage(&c, &grants, Some(77), None).unwrap_err();
    assert_eq!(e.message, "permission denied for type with oid 77");
    assert!(session("bicdb").ensure_user_type_usage(&c, &grants, Some(77), None).is_err());
    let trusted = SqlSession::new(start());
    assert!(trusted.ensure_user_type_usage(&c, &grants, Some(77), None).is_ok());
    let t = mood(true).loaded.unwrap();
    let e = session("bob").ensure_user_type_usage(&c, &grants, Some(5), Some(&t)).unwrap_err();
    assert_eq!(e.message, "permission denied for type public.mood");
}

#[test]
fn names_that_ranges_have_by_default() {
    assert_eq!(bicdb_sql::type_definitions::default_range_opclass_name(bicdb_sql::type_definitions::RangeSubtype::Int4), "int4_ops");
    assert_eq!(
        bicdb_sql::type_definitions::default_range_opclass_name(bicdb_sql::type_definitions::RangeSubtype::Timestamptz),
        "timestamptz_ops"
    );
    assert_eq!(
        bicdb_sql::type_definitions::default_range_subdiff_name(bicdb_sql::type_definitions::RangeSubtype::Numeric),
        "numrange_subdiff"
    );
}
