//! Routines: their frames, their calls, their types, and what is remembered of them.
use bicdb_sql::caches::{
    routine_key, CatalogState, RelationMemo, RoutineCache, RoutineKind, TemplateCache,
};
use bicdb_sql::error::{SqlError, SqlErrorKind};
use bicdb_sql::named::Named;
use bicdb_sql::pseudo_types;
use bicdb_sql::pseudo_types::{ArgumentMode, InternalBody, ReturnType};
use bicdb_sql::routine_calls;
use bicdb_sql::routine_calls::{ElementAssigned, RoutineArgument, RowItem};
use bicdb_sql::routine_frame;
use bicdb_sql::routine_frame::{
    Assigned, RoutineDecl, RoutineFrame, RoutineFrameTemplate, RoutineParam, RoutineType,
};
use bicdb_sql::routine_types;
use bicdb_sql::values::SqlValue;

fn names(list: &[&str]) -> Vec<String> {
    list.iter().map(|s| s.to_string()).collect()
}

fn text(s: &str) -> SqlValue {
    SqlValue::Text(s.to_string())
}

fn param(name: Option<&str>, index: usize, mode: ArgumentMode, pg_type: Option<&str>) -> RoutineParam {
    RoutineParam {
        name: name.map(str::to_string),
        index,
        mode,
        declared: pg_type
            .map(|t| RoutineType { pg_type: t.to_string(), type_modifier: None }),
    }
}

fn shown(v: &SqlValue) -> String {
    format!("{v:?}")
}

#[test]
fn a_template_has_types_slots_and_outputs() {
    let params = vec![
        param(Some("a"), 0, ArgumentMode::Input, Some("int8")),
        param(None, 1, ArgumentMode::Output, Some("text")),
        param(Some("c"), 2, ArgumentMode::Both, None),
    ];
    let declarations = vec![
        RoutineDecl::Variable {
            name: "v".to_string(),
            declared: Some(RoutineType { pg_type: "date".to_string(), type_modifier: None }),
        },
        RoutineDecl::Alias { name: "first".to_string(), position: 1 },
        RoutineDecl::Alias { name: "none".to_string(), position: 9 },
        RoutineDecl::Other,
    ];
    let t = RoutineFrameTemplate::build_with_declarations(
        &params,
        &names(&["a", "v", "", "a", "found"]),
        &declarations,
    );
    assert_eq!(t.slot_names, names(&["a", "v", "found"]));
    assert_eq!(t.output_names, names(&["arg2", "c"]));
    let of = |name: &str| t.assignment_types.get(name).map(|t| t.pg_type.clone());
    assert_eq!(of("$1").as_deref(), Some("int8"));
    assert_eq!(of("a").as_deref(), Some("int8"));
    assert_eq!(of("$2").as_deref(), Some("text"));
    assert_eq!(of("v").as_deref(), Some("date"));
    assert_eq!(of("first").as_deref(), Some("int8"));
    assert_eq!(of("none"), None);
    assert_eq!(of("c"), None);
}

#[test]
fn a_frame_reads_back_what_was_written() {
    let mut f = RoutineFrame::with_slots(&names(&["a", "b"]));
    assert!(matches!(f.get("a"), SqlValue::Null));
    f.set("a", text("1"));
    f.set("loose", text("2"));
    assert_eq!(shown(&f.get("a")), shown(&text("1")));
    assert_eq!(shown(&f.get("loose")), shown(&text("2")));
    assert!(matches!(f.get("b"), SqlValue::Null));
    assert!(f.set_slot_by_key("b", text("3")));
    assert!(!f.set_slot_by_key("c", text("4")));
    assert_eq!(shown(&f.get("b")), shown(&text("3")));
    f.set("a", text("5"));
    let map = f.materialized_values();
    assert_eq!(map.get("a").map(shown), Some(shown(&text("5"))));
    assert_eq!(map.get("b").map(shown), Some(shown(&text("3"))));
    assert_eq!(map.get("loose").map(shown), Some(shown(&text("2"))));
    assert!(f.slot_value_by_key("loose").is_none());
}

#[test]
fn assignments_are_cast_but_for_rows() {
    let mut types: Named<RoutineType> = Named::new();
    types.insert(
        "n".to_string(),
        RoutineType { pg_type: "int8".to_string(), type_modifier: None },
    );
    types.insert(
        "r".to_string(),
        RoutineType { pg_type: "record".to_string(), type_modifier: None },
    );
    let given = || Assigned { value: text("raw"), cast: Ok(text("cast")) };
    let mut f = RoutineFrame::with_slots(&names(&["n", "r"]));
    f.assign(&types, "n", given()).unwrap();
    f.assign(&types, "r", given()).unwrap();
    f.assign(&types, "x", given()).unwrap();
    assert_eq!(shown(&f.get("n")), shown(&text("cast")));
    assert_eq!(shown(&f.get("r")), shown(&text("raw")));
    assert_eq!(shown(&f.get("x")), shown(&text("raw")));
    let bad = Assigned {
        value: text("raw"),
        cast: Err(SqlError::invalid_sql("no number".to_string())),
    };
    assert_eq!(f.assign(&types, "n", bad).unwrap_err().message, "no number");
    assert_eq!(shown(&f.get("n")), shown(&text("cast")));
    assert!(routine_frame::assignment_type(&types, "r").is_none());
}

#[test]
fn arrays_grow_with_nulls() {
    match routine_frame::routine_array_set_value("a", SqlValue::Null, None, 2, "7".to_string()) {
        Ok(SqlValue::Array(items)) => assert_eq!(items, names(&["null", "null", "7"])),
        _ => panic!("an array"),
    }
    let v = SqlValue::Array(names(&["1", "2"]));
    match routine_frame::routine_array_set_value("a", v, None, 0, "9".to_string()) {
        Ok(SqlValue::Array(items)) => assert_eq!(items, names(&["9", "2"])),
        _ => panic!("an array"),
    }
    match routine_frame::routine_array_set_value(
        "a",
        text("1 2"),
        Some(names(&["1", "2"])),
        1,
        "5".to_string(),
    ) {
        Ok(SqlValue::Array(items)) => assert_eq!(items, names(&["1", "5"])),
        _ => panic!("an array"),
    }
    match routine_frame::routine_array_set_value("a", text("x"), None, 1, "5".to_string()) {
        Err((e, kept)) => {
            assert_eq!(
                e.message,
                "cannot assign array element on non-array routine variable a"
            );
            assert_eq!(shown(&kept), shown(&text("x")));
        }
        _ => panic!("a text is no array"),
    }
}

#[test]
fn elements_are_assigned_through_the_declared_type() {
    let mut types: Named<RoutineType> = Named::new();
    types.insert(
        "list".to_string(),
        RoutineType { pg_type: "int8[]".to_string(), type_modifier: None },
    );
    types.insert(
        "one".to_string(),
        RoutineType { pg_type: "int8".to_string(), type_modifier: None },
    );
    let element = || ElementAssigned {
        offset: 1,
        element: "raw".to_string(),
        cast: Ok("5".to_string()),
        vector: None,
    };
    let mut f = RoutineFrame::with_slots(&names(&["list"]));
    f.set_array_element(&types, "list", "List", element()).unwrap();
    match f.get("list") {
        SqlValue::Array(items) => assert_eq!(items, names(&["null", "5"])),
        _ => panic!("an array"),
    }
    let e = f.set_array_element(&types, "one", "One", element()).unwrap_err();
    assert_eq!(e.message, "cannot assign array element on non-array routine variable One");
}

#[test]
fn found_follows_rows_and_tags() {
    assert!(routine_frame::sql_result_found(1, None));
    assert!(routine_frame::sql_result_found(0, Some("UPDATE 2")));
    assert!(routine_frame::sql_result_found(0, Some("INSERT 0 1")));
    assert!(!routine_frame::sql_result_found(0, Some("INSERT 0 0")));
    assert!(!routine_frame::sql_result_found(0, Some("CREATE TABLE")));
    assert!(!routine_frame::sql_result_found(0, None));
}

#[test]
fn arguments_are_bound_in_their_order() {
    let arg = |name, index, mode, default| RoutineArgument {
        param: param(Some(name), index, mode, None),
        default,
    };
    let list = vec![
        arg("a", 0, ArgumentMode::Input, None),
        arg("o", 1, ArgumentMode::Output, None),
        arg("b", 2, ArgumentMode::Both, Some(Ok(text("default")))),
    ];
    let t = RoutineFrameTemplate::build(&vec![], &names(&["a", "o", "b"]));
    let call = RoutineFrame::from_template(&t, &list, &vec![text("1")]).unwrap();
    assert_eq!(shown(&call.frame.get("a")), shown(&text("1")));
    assert_eq!(shown(&call.frame.get("$1")), shown(&text("1")));
    assert!(matches!(call.frame.get("o"), SqlValue::Null));
    assert_eq!(shown(&call.frame.get("b")), shown(&text("default")));
    assert_eq!(call.positional.len(), 2);
    let e = RoutineFrame::from_template(&t, &list, &vec![]).err().expect("nothing is given");
    assert_eq!(e.message, "stored routine argument 1 is missing");
}

#[test]
fn into_fills_its_targets() {
    let row = vec![
        RowItem { value: text("1"), document: "1".to_string() },
        RowItem { value: text("2"), document: "\"2\"".to_string() },
    ];
    let columns = names(&["a", "b"]);
    let one =
        routine_calls::assign_routine_targets_with_columns(1, &columns, Some(&row), false).unwrap();
    match &one[0] {
        SqlValue::Row(fields) => {
            assert_eq!(fields.get("a"), Some("1"));
            assert_eq!(fields.get("b"), Some("\"2\""));
        }
        _ => panic!("one target takes the row"),
    }
    let three =
        routine_calls::assign_routine_targets_with_columns(3, &columns, Some(&row), false).unwrap();
    assert_eq!(shown(&three[1]), shown(&text("2")));
    assert!(matches!(three[2], SqlValue::Null));
    let none = routine_calls::assign_routine_targets_with_columns(2, &columns, None, false).unwrap();
    assert!(none.iter().all(|v| matches!(v, SqlValue::Null)));
    let e = routine_calls::assign_routine_targets_with_columns(2, &columns, None, true).unwrap_err();
    assert_eq!(e.kind, SqlErrorKind::NoDataFound);
    let mut f = RoutineFrame::with_slots(&names(&["x"]));
    let types: Named<RoutineType> = Named::new();
    routine_calls::assign_routine_targets(
        &mut f,
        &types,
        &names(&["x", "y"]),
        &vec![
            Assigned { value: text("1"), cast: Ok(SqlValue::Null) },
            Assigned { value: text("2"), cast: Ok(SqlValue::Null) },
        ],
    )
    .unwrap();
    assert_eq!(shown(&f.get("y")), shown(&text("2")));
}

#[test]
fn returned_values_are_cast_by_normal_names() {
    assert_eq!(routine_calls::cast_routine_return_value(" void ", None, "void"), None);
    assert_eq!(
        routine_calls::cast_routine_return_value("INT", Some("int4"), "INT").as_deref(),
        Some("int4")
    );
    assert_eq!(
        routine_calls::cast_routine_return_value("My  Type", None, "My Type").as_deref(),
        Some("my type")
    );
    assert_eq!(
        routine_calls::routine_schema_and_name("App.f", "app", "f"),
        ("app".to_string(), "f".to_string())
    );
    assert_eq!(
        routine_calls::routine_schema_and_name("f", "", "f"),
        ("public".to_string(), "f".to_string())
    );
}

#[test]
fn a_cached_routine_lasts_as_long_as_the_catalog() {
    assert_eq!(routine_key(RoutineKind::Function, "f"), "f:f");
    assert_eq!(routine_key(RoutineKind::Procedure, "f"), "p:f");
    let mut cache = RoutineCache::new();
    assert_eq!(cache.look_up(RoutineKind::Function, "F", 1), None);
    assert_eq!(cache.resolve_routine_cached(RoutineKind::Function, "F", 1, Some(9)), Some(9));
    assert_eq!(cache.resolve_routine_cached(RoutineKind::Function, "f", 1, None), Some(9));
    assert_eq!(cache.look_up(RoutineKind::Procedure, "f", 1), None);
    cache.remember(RoutineKind::Procedure, "f", 1, None);
    assert_eq!(cache.look_up(RoutineKind::Procedure, "f", 1), Some(None));
    assert_eq!(cache.look_up(RoutineKind::Function, "f", 1), Some(Some(9)));
    assert_eq!(cache.look_up(RoutineKind::Function, "f", 2), None);
    cache.remember(RoutineKind::Procedure, "f", 2, Some(3));
    assert_eq!(cache.look_up(RoutineKind::Function, "f", 2), None);
}

#[test]
fn names_are_remembered_by_state() {
    let mut memo = RelationMemo::new();
    let state = |n| CatalogState { schema_generation: n, view_generation: 0, collection_count: 1 };
    let tables = names(&["orders"]);
    assert_eq!(
        memo.resolve_relation_name_memoized(1, state(1), "orders", &tables).as_deref(),
        Some("orders")
    );
    assert_eq!(memo.resolve_relation_name_memoized(1, state(1), "Orders", &tables), None);
    assert_eq!(memo.resolve_relation_name_memoized(1, state(2), "orders", &vec![]), None);
    for i in 0..1030 {
        memo.resolve_relation_name_memoized(1, state(2), &format!("t{i}"), &vec![]);
    }
    assert_eq!(memo.resolve_relation_name_memoized(1, state(2), "t1029", &vec![]), None);
}

#[test]
fn templates_are_taken_out_and_put_back() {
    let mut cache = TemplateCache::new();
    assert_eq!(cache.check_out("select $1"), None);
    cache.make_room(1);
    cache.check_in("select $1", 4);
    assert_eq!(cache.check_out("select $1"), Some(4));
    assert_eq!(cache.check_out("select $1"), None);
    cache.check_in("select $1", 4);
    cache.make_room(1);
    assert_eq!(cache.check_out("select $1"), None);
}

#[test]
fn pseudo_types_are_checked() {
    let pseudo = names(&["anyelement", "trigger", "void"]);
    assert_eq!(
        pseudo_types::routine_pseudo_type_name("pg_catalog.AnyElement", &pseudo).as_deref(),
        Some("anyelement")
    );
    assert_eq!(pseudo_types::routine_pseudo_type_name("int4", &pseudo), None);
    assert!(pseudo_types::polymorphic_result_is_deducible("anyelement", &names(&["anyarray"])));
    assert!(!pseudo_types::polymorphic_result_is_deducible("anyelement", &names(&["int4"])));
    assert_eq!(
        pseudo_types::routine_argument_directions(
            &vec![ArgumentMode::Input, ArgumentMode::Both, ArgumentMode::Output],
            &names(&["a", "b", "c"])
        ),
        (names(&["a", "b"]), names(&["b", "c"]))
    );
    assert_eq!(
        pseudo_types::raw_routine_argument_directions(
            &vec![
                vec![None, Some(ArgumentMode::Output)],
                vec![],
                vec![None, None, Some(ArgumentMode::Output)],
            ],
            &names(&["a", "b", "c"])
        ),
        (names(&["b", "c"]), names(&["a"]))
    );
    assert!(pseudo_types::explicit_return_type_schemas(ReturnType::Missing).unwrap().is_empty());
    assert_eq!(
        pseudo_types::explicit_return_type_schemas(ReturnType::Table(vec![
            Ok("int4".to_string()),
            Ok("text".to_string())
        ]))
        .unwrap(),
        names(&["int4", "text"])
    );
    let e = pseudo_types::explicit_return_type_schemas(ReturnType::Plain(Err(
        SqlError::unsupported("no such type".to_string()),
    )))
    .unwrap_err();
    assert_eq!(e.message, "no such type");
}

#[test]
fn internal_functions_name_a_symbol() {
    assert_eq!(
        pseudo_types::create_function_internal_symbol(&InternalBody::Literal("Foo".to_string()))
            .unwrap(),
        "foo"
    );
    assert_eq!(
        pseudo_types::create_function_internal_symbol(&InternalBody::Expression)
            .unwrap_err()
            .message,
        "LANGUAGE internal symbol must be a string literal"
    );
    assert_eq!(
        pseudo_types::create_function_internal_symbol(&InternalBody::LinkedOrMissing)
            .unwrap_err()
            .kind,
        SqlErrorKind::Unsupported
    );
}

#[test]
fn routine_types_match_without_case() {
    assert!(routine_types::routine_type_matches("TEXT", "text"));
    assert!(!routine_types::routine_type_matches("text", "int4"));
}
