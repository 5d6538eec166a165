//! Rows, their columns and their values.
use bicdb_sql::aggregates::KeyOrder;
use bicdb_sql::ast::{Expr, ExprKind, Operand, OrderByOptions, Role, SelectItem};
use bicdb_sql::bounded::Bounded;
use bicdb_sql::clauses;
use bicdb_sql::databases;
use bicdb_sql::databases::{Creation, DatabaseSchema, ViewSchema};
use bicdb_sql::distinct_keys::{
    sql_value_distinct_key, sql_value_text, DistinctValue, SqlValueDistinctKey,
};
use bicdb_sql::dotted;
use bicdb_sql::error::{SqlError, SqlErrorKind};
use bicdb_sql::execution;
use bicdb_sql::execution::{CopyColumn, OutputCell};
use bicdb_sql::foreign_keys;
use bicdb_sql::foreign_keys::{ChildTable, ForeignKey, KeyChange, ReferentialAction};
use bicdb_sql::histograms::histogram_quantiles;
use bicdb_sql::parent_paths::parent_store_path_for_id;
use bicdb_sql::projections;
use bicdb_sql::projections::{CollatedColumn, IndexedExpr, ReturnedColumn, SqlColumnMetadata};
use bicdb_sql::row_columns;
use bicdb_sql::row_columns::{CatalogRowColumns, JoinedSlotSource, WildcardQualifier};
use bicdb_sql::slot_rows;
use bicdb_sql::slot_rows::{AssignedColumn, IndexEntry};
use bicdb_sql::sql_rows;
use bicdb_sql::sql_rows::{PathValues, SqlRow};
use bicdb_sql::store::Store;
use bicdb_sql::typed_order;
use bicdb_sql::typed_order::OrderedPair;
use bicdb_sql::values::SqlValue;

fn names(list: &[&str]) -> Vec<String> {
    list.iter().map(|s| s.to_string()).collect()
}

fn text(s: &str) -> SqlValue {
    SqlValue::Text(s.to_string())
}

fn shown(v: Option<&SqlValue>) -> Option<String> {
    v.map(|v| format!("{v:?}"))
}

fn row(list: &[(&str, &str)]) -> SqlRow {
    let mut r = SqlRow::new();
    for (name, value) in list {
        r.insert(name.to_string(), text(value));
    }
    r
}

fn value(r: &SqlRow, name: &str) -> Option<String> {
    match r.get(name) {
        Some(SqlValue::Text(s)) => Some(s.clone()),
        _ => None,
    }
}

#[test]
fn names_split_at_their_dots() {
    for s in ["", "a", "a.b", "a.b.c", ".a", "a.", "."] {
        assert_eq!(
            dotted::split_once_dot(s),
            s.split_once('.').map(|(a, b)| (a.to_string(), b.to_string()))
        );
        assert_eq!(
            dotted::rsplit_once_dot(s),
            s.rsplit_once('.').map(|(a, b)| (a.to_string(), b.to_string()))
        );
    }
}

#[test]
fn a_name_is_found_exactly_or_by_its_letters() {
    let r = row(&[("B", "upper"), ("b", "lower"), ("C", "only")]);
    assert_eq!(shown(sql_rows::row_value_for_key(&r, "b")), shown(Some(&text("lower"))));
    assert_eq!(shown(sql_rows::row_value_for_key(&r, "c")), shown(Some(&text("only"))));
    assert!(sql_rows::row_value_for_key(&r, "d").is_none());
    let r = row(&[("Ab", "1"), ("aB", "2")]);
    assert_eq!(shown(sql_rows::row_value_for_key(&r, "ab")), shown(Some(&text("1"))));
}

#[test]
fn merged_rows_prefer_qualified_names_of_the_right() {
    let left = row(&[("id", "l"), ("t.id", "l")]);
    let right = row(&[("id", "r"), ("t.id", "r"), ("x", "r")]);
    let merged = sql_rows::merge_rows(&left, &right);
    assert_eq!(value(&merged, "id").as_deref(), Some("l"));
    assert_eq!(value(&merged, "t.id").as_deref(), Some("r"));
    assert_eq!(value(&merged, "x").as_deref(), Some("r"));
    let again = sql_rows::merge_rows(&merged, &right);
    assert_eq!(value(&again, "id").as_deref(), Some("l"));
}

#[test]
fn a_column_is_put_in_under_all_its_names() {
    let mut r = row(&[("id", "old")]);
    sql_rows::insert_row_value(&mut r, "orders", "o", "id", text("new"));
    assert_eq!(value(&r, "id").as_deref(), Some("old"));
    assert_eq!(value(&r, "o.id").as_deref(), Some("new"));
    assert_eq!(value(&r, "orders.id").as_deref(), Some("new"));
    let r = sql_rows::btree_null_row_for_columns(&names(&["a", "b", "a"]));
    assert_eq!(r.names().len(), 2);
    assert!(matches!(r.get("b"), Some(SqlValue::Null)));
}

#[test]
fn a_result_makes_a_row() {
    let r = sql_rows::result_row_map(&names(&["a", "a"]), &vec![text("1"), text("2")]).unwrap();
    assert_eq!(value(&r, "a").as_deref(), Some("2"));
    let e = sql_rows::result_row_map(&names(&["a"]), &vec![]).err().expect("a value is missing");
    assert_eq!(e.message, "result row has 0 values for 1 columns");
}

#[test]
fn dotted_names_lead_into_documents() {
    let paths = || PathValues {
        below_qualified: Some(text("q")),
        below_metadata: Some(text("m")),
        below_head: Some(text("h")),
    };
    let nothing = || PathValues { below_qualified: None, below_metadata: None, below_head: None };
    let look = |r: &SqlRow, parts: &[&str], p: PathValues| {
        sql_rows::row_value_from_parts_opt(r, &names(parts), &p)
            .map(|v| shown(Some(&v)).unwrap())
    };
    let t = |s: &str| shown(Some(&text(s)));
    let r = row(&[("t.c", "1"), ("d", "2"), ("metadata", "3"), ("z", "4")]);
    assert_eq!(look(&r, &[], paths()), None);
    assert_eq!(look(&r, &["d"], paths()), t("2"));
    assert_eq!(look(&r, &["t", "c"], paths()), t("1"));
    assert_eq!(look(&r, &["t", "c", "k"], paths()), t("q"));
    assert_eq!(look(&r, &["Metadata", "k"], paths()), t("m"));
    assert_eq!(look(&r, &["d", "k"], paths()), t("h"));
    assert_eq!(look(&r, &["d", "z"], nothing()), t("4"));
    assert_eq!(look(&r, &["x", "y"], paths()), None);
    assert!(matches!(
        sql_rows::row_value_from_parts(&r, &names(&["x", "y"]), &nothing()),
        SqlValue::Null
    ));
}

#[test]
fn variables_are_found_unless_quoted() {
    let vars = row(&[("total", "1")]);
    assert!(sql_rows::routine_var_from_ident(&vars, "total", "Total", false).is_some());
    assert!(sql_rows::routine_var_from_ident(&vars, "total", "Total", true).is_none());
    assert!(sql_rows::routine_var_from_value(&vars, "total", Some("total")).is_some());
    assert!(sql_rows::routine_var_from_value(&vars, "total", None).is_none());
    assert!(sql_rows::routine_var_from_name(&vars, "x", "TOTAL").is_some());
    let none = None;
    assert!(matches!(
        sql_rows::routine_var_from_parts(&vars, "total", &names(&["total", "k"]), &none),
        Some(SqlValue::Null)
    ));
    let mut docs = SqlRow::new();
    docs.insert("d".to_string(), SqlValue::Document("{}".to_string()));
    let below = Some(text("in"));
    assert_eq!(
        sql_rows::routine_var_from_parts(&docs, "d", &names(&["d", "k"]), &below)
            .map(|v| format!("{v:?}")),
        shown(Some(&text("in")))
    );
}

#[test]
fn aliases_name_all_columns_or_none() {
    assert_eq!(
        row_columns::table_alias_columns("t", "x", &vec![], &names(&["a"])).unwrap(),
        names(&["a"])
    );
    assert_eq!(
        row_columns::cte_columns("t", &names(&["b"]), &names(&["a"])).unwrap(),
        names(&["b"])
    );
    let e = row_columns::table_alias_columns("t", "x", &names(&["b"]), &names(&["a", "c"]))
        .unwrap_err();
    assert_eq!(
        e.message,
        "table alias \"x\" has 2 columns available but 1 columns specified for \"t\""
    );
}

#[test]
fn joined_columns_have_their_sources() {
    let left = names(&["a", "b"]);
    let right = names(&["b", "c"]);
    assert_eq!(
        row_columns::merge_row_set_columns(left.clone(), &right),
        names(&["a", "b", "c"])
    );
    assert_eq!(
        row_columns::merged_slot_sources(&left, &right),
        vec![JoinedSlotSource::Left(0), JoinedSlotSource::Left(1), JoinedSlotSource::Right(1)]
    );
    let mut columns = names(&["a"]);
    row_columns::add_virtual_tableoid_column(true, &mut columns);
    row_columns::add_virtual_tableoid_column(true, &mut columns);
    assert_eq!(columns, names(&["tableoid", "a"]));
    assert_eq!(row_columns::aliased_row_output_columns("t", &names(&["a"])), names(&["t.a"]));
    assert_eq!(row_columns::row_wildcard_output_column("t.a"), "a");
    assert_eq!(row_columns::row_wildcard_output_column("a"), "a");
}

#[test]
fn a_qualified_wildcard_is_one_table() {
    let q = |object: &str, relation: &str| WildcardQualifier::ObjectName {
        object: object.to_string(),
        relation: relation.to_string(),
    };
    let columns = names(&["T.a", "t.ctid", "u.b"]);
    let found: Vec<(String, String)> =
        row_columns::qualified_wildcard_columns(&q("app.t", "app__t"), &columns)
            .unwrap()
            .into_iter()
            .map(|c| (c.column, c.output))
            .collect();
    assert_eq!(found, vec![("T.a".to_string(), "a".to_string())]);
    let plain = row_columns::qualified_wildcard_columns(&q("t", "t"), &names(&["a", "xmin"])).unwrap();
    assert_eq!(plain.len(), 1);
    let e = row_columns::qualified_wildcard_columns(&q("v", "v"), &columns).unwrap_err();
    assert_eq!(e.message, "missing FROM-clause entry for table \"v\"");
    let e = row_columns::qualified_wildcard_columns(
        &WildcardQualifier::Expr("(x)".to_string()),
        &columns,
    )
    .unwrap_err();
    assert_eq!(e.kind, SqlErrorKind::Unsupported);
}

#[test]
fn empty_joins_have_the_columns_of_catalog_tables() {
    let rows = CatalogRowColumns {
        pg_class: names(&["oid", "relname"]),
        pg_index: vec![],
        pg_constraint: vec![],
        pg_type: vec![],
    };
    assert_eq!(
        row_columns::virtual_table_columns_for_empty_join("pg_catalog.pg_namespace", &rows),
        Some(names(&["nspacl", "nspname", "nspowner", "oid"]))
    );
    assert_eq!(
        row_columns::virtual_table_columns_for_empty_join("pg_class", &rows),
        Some(names(&["oid", "relname"]))
    );
    assert_eq!(row_columns::virtual_table_columns_for_empty_join("orders", &rows), None);
}

#[test]
fn returning_reads_the_new_record() {
    let shown = |list: Vec<SqlValue>| list.iter().map(|v| format!("{v:?}")).collect::<Vec<_>>();
    let old = || vec![text("1"), text("2"), text("3")];
    let from = slot_rows::update_returning_slot_row_from_assignment(
        &vec![text("n")],
        &names(&["t.a", "t.b"]),
        &names(&["t.a", "t.b", "x"]),
        &old(),
    );
    assert_eq!(shown(from), shown(vec![text("n"), SqlValue::Null, text("3")]));
    let patched = slot_rows::update_returning_slot_row_patched(
        "orders",
        "o",
        &names(&["o.a", "orders.a", "u.a"]),
        &old(),
        &vec![AssignedColumn { name: "a".to_string(), value: text("n") }],
    );
    assert_eq!(shown(patched), shown(vec![text("n"), text("n"), text("3")]));
}

fn expr(kind: ExprKind, list: &[&str], operands: Vec<Expr>) -> Expr {
    Expr {
        kind,
        names: names(list),
        operands: operands
            .into_iter()
            .map(|expr| Operand { role: Role::Operand, expr })
            .collect(),
        data_type: None,
        constant_path: false,
        call: None,
        query: None,
    }
}

#[test]
fn index_definitions_are_found_beside_their_numbers() {
    let e = expr(
        ExprKind::Cast,
        &[],
        vec![expr(ExprKind::CompoundIdentifier, &["i", "IndexRelId"], vec![])],
    );
    let keys: Vec<(String, String)> = slot_rows::pg_indexdef_row_key_candidates(&e)
        .into_iter()
        .map(|k| (k.oid_key, k.definition_key))
        .collect();
    assert_eq!(
        keys,
        vec![
            ("i.indexrelid".to_string(), "i.indexdef".to_string()),
            ("indexrelid".to_string(), "indexdef".to_string()),
        ]
    );
    let entry = |oid, definition: Option<Option<&str>>| IndexEntry {
        oid,
        definition: definition.map(|d| d.map(str::to_string)),
    };
    let found = vec![entry(Some(1), Some(Some("a"))), entry(Some(2), Some(Some("b")))];
    assert_eq!(slot_rows::pg_indexdef_from_row(Some(2), &found).as_deref(), Some("b"));
    assert_eq!(slot_rows::pg_indexdef_from_row(None, &found), None);
    let gone = vec![entry(None, None), entry(Some(2), Some(Some("b")))];
    assert_eq!(slot_rows::pg_indexdef_from_row(Some(2), &gone), None);
}

#[test]
fn typed_values_are_ordered_by_their_keys() {
    let pair = |a: Option<Vec<u8>>, b: Option<Vec<u8>>| OrderedPair {
        left_null: false,
        right_null: false,
        documents: None,
        left_key: a,
        right_key: b,
        plain: Some(KeyOrder::Greater),
        collated: None,
    };
    let up = OrderByOptions { asc: None, nulls_first: None };
    let down = OrderByOptions { asc: Some(false), nulls_first: None };
    let p = pair(Some(vec![1, 2]), Some(vec![1, 2, 0]));
    assert_eq!(typed_order::typed_order_value_ordering(&p, up), KeyOrder::Less);
    assert_eq!(typed_order::typed_order_value_ordering(&p, down), KeyOrder::Greater);
    let p = pair(None, Some(vec![1]));
    assert_eq!(typed_order::typed_order_value_ordering(&p, up), KeyOrder::Greater);
    let mut p = pair(None, None);
    p.collated = Some(KeyOrder::Less);
    assert_eq!(typed_order::typed_order_collation_value_ordering(&p, down), KeyOrder::Greater);
    p.collated = None;
    p.left_null = true;
    assert_eq!(typed_order::typed_order_collation_value_ordering(&p, up), KeyOrder::Greater);
}

#[test]
fn distinct_keys_take_nans_and_zeros_together() {
    let key = |v: f64| match sql_value_distinct_key(&DistinctValue::Float(v.to_bits())) {
        SqlValueDistinctKey::Float(bits) => bits,
        _ => panic!("a number stays one"),
    };
    assert_eq!(key(0.0), key(-0.0));
    assert_eq!(key(f64::NAN), key(-f64::NAN));
    assert_eq!(key(f64::NAN), f64::NAN.to_bits());
    assert_eq!(key(f64::INFINITY), f64::INFINITY.to_bits());
    assert_eq!(key(1.5), 1.5f64.to_bits());
    assert_ne!(key(1.5), key(-1.5));
    match sql_value_distinct_key(&DistinctValue::Composite(vec![
        DistinctValue::Int(1),
        DistinctValue::Text("a".to_string()),
    ])) {
        SqlValueDistinctKey::Composite(fields) => assert_eq!(fields.len(), 2),
        _ => panic!("a row stays one"),
    }
    assert_eq!(sql_value_text(&DistinctValue::Int(-5)).as_deref(), Some("-5"));
    assert_eq!(sql_value_text(&DistinctValue::Bool(true)), None);
}

#[test]
fn paths_run_from_the_top() {
    let mut parents: Store<i64, Option<i64>> = Store::new();
    parents.insert(1, None);
    parents.insert(2, Some(1));
    parents.insert(3, Some(2));
    parents.insert(4, Some(99));
    parents.insert(5, Some(6));
    parents.insert(6, Some(5));
    let mut cache = Store::new();
    assert_eq!(parent_store_path_for_id(3, &parents, &mut cache).unwrap(), "1/2/3/");
    assert_eq!(cache.get(&2).map(String::as_str), Some("1/2/"));
    assert_eq!(parent_store_path_for_id(2, &parents, &mut cache).unwrap(), "1/2/");
    assert_eq!(parent_store_path_for_id(4, &parents, &mut cache).unwrap(), "4/");
    assert_eq!(parent_store_path_for_id(-7, &parents, &mut cache).unwrap(), "-7/");
    let e = parent_store_path_for_id(5, &parents, &mut cache).unwrap_err();
    assert_eq!(e.message, "cycle detected while computing parent_path");
}

#[test]
fn values_are_kept_once_for_each_key() {
    let mut b: Bounded<String, u64> = Bounded::new();
    b.insert("a".to_string(), 1);
    b.insert("b".to_string(), 2);
    b.insert("a".to_string(), 3);
    assert_eq!(b.len(), 2);
    assert_eq!(b.get(&"a".to_string()), Some(&3));
    assert_eq!(b.take(&"a".to_string()), Some(3));
    assert_eq!(b.len(), 1);
    b.clear();
    assert_eq!(b.len(), 0);
}

#[test]
fn databases_are_listed_by_name() {
    let d = |name: &str, owner: &str| DatabaseSchema {
        name: name.to_string(),
        owner: owner.to_string(),
    };
    let list = databases::list_databases(
        databases::default_database_schema("bicdb"),
        vec![d("zoo", "a"), d("BicDB", "b"), d("app", "c")],
    );
    let seen: Vec<(&str, &str)> =
        list.iter().map(|d| (d.name.as_str(), d.owner.as_str())).collect();
    assert_eq!(seen, vec![("BicDB", "b"), ("app", "c"), ("zoo", "a")]);
    assert!(databases::database_exists(&list, "APP"));
    let e = databases::ensure_database_exists(&list, "none").unwrap_err();
    assert_eq!(e.message, "database \"none\" does not exist");
    let e = databases::save_database_if_missing(&list, "App").unwrap_err();
    assert_eq!(e.message, "database \"App\" already exists");
    assert_eq!(databases::save_database_if_missing(&list, "\"New\"").unwrap(), "new");
    let owned = databases::save_database_owner(&list, "ZOO", "me".to_string()).unwrap();
    assert_eq!((owned.name.as_str(), owned.owner.as_str()), ("zoo", "me"));
    assert_eq!(databases::namespace_owner(None, "me"), "me");
    assert_eq!(databases::namespace_owner(Some("you"), "me"), "you");
}

#[test]
fn objects_are_created_once() {
    assert_eq!(
        databases::save_namespace_if_missing("app", false, false).unwrap(),
        Creation::Insert
    );
    assert_eq!(
        databases::save_namespace_if_missing("app", true, true).unwrap(),
        Creation::Nothing
    );
    assert_eq!(
        databases::save_namespace_if_missing("app", true, false).unwrap_err().message,
        "schema \"app\" already exists"
    );
    assert_eq!(
        databases::save_extension_if_missing("PLpgSQL", false, false).unwrap_err().message,
        "extension \"plpgsql\" already exists"
    );
    assert_eq!(
        databases::save_extension_if_missing("vector", false, false).unwrap(),
        Creation::Insert
    );
    let v = |name: &str| ViewSchema { name: name.to_string(), definition: String::new() };
    let listed: Vec<String> =
        databases::list_views(vec![v("b"), v("a")]).into_iter().map(|v| v.name).collect();
    assert_eq!(listed, names(&["a", "b"]));
}

#[test]
fn foreign_keys_point_at_their_parents() {
    let key = |name: &str, parent: &str| ForeignKey {
        name: name.to_string(),
        columns: names(&["p"]),
        foreign_table: parent.to_string(),
        referred_columns: names(&["id"]),
        on_update: ReferentialAction::Cascade,
        on_delete: ReferentialAction::Restrict,
    };
    let children = vec![
        ChildTable {
            name: "c1".to_string(),
            foreign_keys: vec![key("k1", "Parent"), key("k2", "other")],
        },
        ChildTable { name: "c2".to_string(), foreign_keys: vec![key("k3", "parent")] },
    ];
    let updates =
        foreign_keys::inbound_foreign_key_update_constraints_uncached(&children, "parent");
    let seen: Vec<(&str, &str)> =
        updates.iter().map(|k| (k.child.name.as_str(), k.key.name.as_str())).collect();
    assert_eq!(seen, vec![("c1", "k1"), ("c2", "k3")]);
    assert!(updates.iter().all(|k| k.action == ReferentialAction::Cascade));
    let deletes =
        foreign_keys::inbound_foreign_key_delete_constraints_uncached(&children, "parent");
    assert!(deletes.iter().all(|k| k.action == ReferentialAction::Restrict));
}

#[test]
fn an_old_key_counts_once() {
    let change = |same, label: &str| KeyChange {
        same_key: Ok(same),
        old_label: Ok(names(&[label])),
    };
    assert_eq!(
        foreign_keys::changed_parent_update_keys(&vec![
            change(true, "a"),
            change(false, "b"),
            change(false, "b"),
            change(false, "c"),
        ])
        .unwrap(),
        vec![1, 3]
    );
    let failing = KeyChange {
        same_key: Err(SqlError::invalid_sql("bad".to_string())),
        old_label: Ok(vec![]),
    };
    assert_eq!(
        foreign_keys::changed_parent_update_keys(&vec![failing]).unwrap_err().message,
        "bad"
    );
}

#[test]
fn returned_columns_are_described() {
    let columns = vec![
        ReturnedColumn { name: "id".to_string(), hidden: false, type_modifier: -1 },
        ReturnedColumn { name: "h".to_string(), hidden: true, type_modifier: -1 },
        ReturnedColumn { name: "n".to_string(), hidden: false, type_modifier: 9 },
    ];
    let items = vec![
        SelectItem::Wildcard("*".to_string()),
        SelectItem::UnnamedExpr(expr(
            ExprKind::Nested,
            &[],
            vec![expr(ExprKind::CompoundIdentifier, &["t", "N"], vec![])],
        )),
        SelectItem::UnnamedExpr(expr(ExprKind::Identifier, &["h"], vec![])),
        SelectItem::Other("x".to_string()),
    ];
    let m = |number, modifier| SqlColumnMetadata {
        table_oid: 5,
        attribute_number: number,
        type_modifier: modifier,
    };
    let none = SqlColumnMetadata { table_oid: 0, attribute_number: 0, type_modifier: 0 };
    assert_eq!(
        projections::returning_projection_column_metadata(5, &items, Some(&columns)),
        vec![m(1, -1), m(3, 9), m(3, 9), none]
    );
    assert!(projections::returning_projection_column_metadata(5, &items, None).is_empty());
    assert_eq!(
        projections::returning_projection_column_types(
            &items,
            &vec![Some("int8".to_string()), None],
            &vec![None, Some("text".to_string()), Some("date".to_string()), None]
        ),
        vec![Some("int8".to_string()), None, Some("text".to_string()), Some("date".to_string())]
    );
}

#[test]
fn indexed_expressions_have_collations() {
    let columns = vec![
        CollatedColumn { name: "t".to_string(), collatable: true, collation_oid: 950 },
        CollatedColumn { name: "n".to_string(), collatable: false, collation_oid: 100 },
    ];
    let oid = |e: IndexedExpr| projections::index_expr_collation_oid(&columns, &e);
    assert_eq!(oid(IndexedExpr::Column("T".to_string())).unwrap(), 950);
    assert_eq!(oid(IndexedExpr::Column("n".to_string())).unwrap(), 0);
    assert_eq!(oid(IndexedExpr::Nested(Box::new(IndexedExpr::Literal))).unwrap(), 100);
    assert_eq!(oid(IndexedExpr::Cast(Ok(false))).unwrap(), 0);
    let collate = |inner| IndexedExpr::Collate {
        inner: Box::new(inner),
        written: "n".to_string(),
        collation: Ok(Some(12)),
    };
    assert_eq!(oid(collate(IndexedExpr::Literal)).unwrap(), 12);
    let e = oid(collate(IndexedExpr::Column("n".to_string()))).unwrap_err();
    assert_eq!(e.code, "42804");
    assert_eq!(e.message, "collations are not supported by type of expression n");
}

#[test]
fn statement_lists_end_with_their_last_result() {
    assert_eq!(execution::execute_statement_list(vec![Ok(1), Ok(2)]).unwrap(), 2);
    let e = execution::execute_statement_list(vec![
        Ok(1),
        Err(SqlError::invalid_sql("second".to_string())),
    ])
    .unwrap_err();
    assert_eq!(e.message, "second");
    let e = execution::execute_statement_list::<u8>(vec![]).unwrap_err();
    assert_eq!(e.message, "empty SQL statement");
    assert_eq!(execution::call_procedure("Pay", true).unwrap(), "pay");
    assert_eq!(
        execution::call_procedure("Pay", false).unwrap_err().message,
        "procedure \"pay\" does not exist"
    );
    assert!(execution::sql_contains_identifier("select a", "select b"));
    assert!(!execution::sql_contains_identifier("select a", "select a"));
}

#[test]
fn copy_fills_the_columns_it_can() {
    let c = |name: &str, hidden, generated| CopyColumn { name: name.to_string(), hidden, generated };
    let schema = vec![c("a", false, false), c("b", true, false), c("g", false, true)];
    assert_eq!(execution::copy_columns(&vec![], Some(&schema)).unwrap(), names(&["a"]));
    assert_eq!(execution::copy_columns(&names(&["g"]), None).unwrap(), names(&["g"]));
    assert_eq!(
        execution::copy_columns(&vec![], None).unwrap_err().message,
        "COPY without a column list requires a table schema"
    );
    let r = execution::copy_row(&names(&["a", "b"]), &vec![Some("x".to_string()), None]).unwrap();
    assert_eq!(value(&r, "a").as_deref(), Some("x"));
    assert!(matches!(r.get("b"), Some(SqlValue::Null)));
    let e = execution::copy_row(&names(&["a"]), &vec![]).err().expect("a field is missing");
    assert_eq!(e.message, "COPY expected 1 columns, got 0");
}

#[test]
fn binary_strings_are_escaped_on_request() {
    let types = vec![Some("bytea".to_string()), Some("text".to_string())];
    let cells = || {
        vec![
            OutputCell { value: Some("\\x00".to_string()), escaped: Some("\\000".to_string()) },
            OutputCell { value: Some("t".to_string()), escaped: Some("no".to_string()) },
        ]
    };
    let sent = |setting, default| {
        execution::apply_bytea_output(setting, default, &types, &cells())
            .into_iter()
            .map(|v| v.unwrap())
            .collect::<Vec<_>>()
    };
    assert_eq!(sent(Some("escape"), None), names(&["\\000", "t"]));
    assert_eq!(sent(Some("hex"), Some("escape")), names(&["\\x00", "t"]));
    assert_eq!(sent(None, Some("escape")), names(&["\\000", "t"]));
    assert_eq!(sent(None, None), names(&["\\x00", "t"]));
}

#[test]
fn quantiles_keep_both_ends() {
    let list = names(&["a", "b", "c", "d", "e"]);
    assert_eq!(histogram_quantiles(&list, 3), names(&["a", "c", "e"]));
    assert_eq!(histogram_quantiles(&list, 9), list);
}

#[test]
fn clauses_are_cut_out_of_statements() {
    assert_eq!(
        clauses::split_words("  a \tbc\u{a0}d "),
        names(&["a", "bc", "d"])
    );
    assert_eq!(clauses::split_top_level("a, f(b, c) ,, d "), names(&["a", "f(b, c)", "", "d"]));
    assert_eq!(clauses::split_top_level(" "), Vec::<String>::new());
    assert_eq!(
        clauses::clause_list("x dimensions (a, (b)) y", "DIMENSIONS").as_deref(),
        Some("a, (b)")
    );
    assert_eq!(clauses::clause_list("dimensions (a", "DIMENSIONS"), None);
    assert_eq!(clauses::clause_list("x", "DIMENSIONS"), None);
}
