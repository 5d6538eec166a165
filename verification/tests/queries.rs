//! Windows, aggregates, set operations and filters of queries.
use bicdb_sql::aggregates::{
    order_value_ordering, row_extreme_value, AggregateKind, AggregateRow, Aggregated, Datum,
    KeyOrder, RowAggregate,
};
use bicdb_sql::ast::{
    Expr, ExprKind, Function, GroupByExpr, Ident, NamedWindowDefinition, NamedWindowExpr, Operand, OrderByExpr, OrderByOptions, Query, Role, Select, SelectItem, SetExpr, WindowSpec, WindowType,
};
use bicdb_sql::error::{SqlError, SqlErrorKind};
use bicdb_sql::filters;
use bicdb_sql::filters::{Constant, FilterExpr, FilterShape, OidSource};
use bicdb_sql::row_evaluation::{RowFailures, RowGroup, CHECKED_ROWS};
use bicdb_sql::rows;
use bicdb_sql::rows::{KeyedRow, ResultRows, SetOperator, SetQuantifier};
use bicdb_sql::set_exprs;
use bicdb_sql::shape;
use bicdb_sql::windows;

fn expr(kind: ExprKind, names: &[&str], operands: Vec<Expr>) -> Expr {
    Expr {
        kind,
        names: names.iter().map(|n| n.to_string()).collect(),
        operands: operands
            .into_iter()
            .map(|expr| Operand { role: Role::Operand, expr })
            .collect(),
        data_type: None,
        constant_path: false,
        call: None,
        query: None,
    }
}

fn column(name: &str) -> Expr {
    expr(ExprKind::Identifier, &[name], vec![])
}

fn call(name: &str, args: Vec<Expr>, aggregate: bool, over: Option<WindowType>) -> Expr {
    let text = format!("{name}({})", args.len());
    let mut e = expr(ExprKind::Function, &[], vec![]);
    e.call = Some(Box::new(Function {
        name: name.to_string(),
        text,
        args,
        star: false,
        distinct: false,
        aggregate,
        spatial_predicate: false,
        order_by: vec![],
        filter: None,
        within_group: vec![],
        null_treatment: false,
        over,
    }));
    e
}

fn plain_window() -> WindowType {
    WindowType::WindowSpec(WindowSpec {
        window_name: None,
        partition_by: vec![column("a")],
        order_by: vec![],
        window_frame: None,
    })
}

fn select(projection: Vec<SelectItem>) -> Select {
    Select {
        projection,
        selection: None,
        group_by: GroupByExpr::Expressions(vec![], 0),
        having: None,
        named_window: vec![],
    }
}

fn empty_query() -> Query {
    Query { body: Box::new(SetExpr::Other), order_by: None }
}

#[test]
fn window_functions_are_collected_once_by_their_text() {
    let twice = expr(
        ExprKind::BinaryOp,
        &[],
        vec![
            call("rank", vec![], false, Some(plain_window())),
            call("rank", vec![], false, Some(plain_window())),
        ],
    );
    let mut found = Vec::new();
    windows::collect_window_functions(&twice, &mut found);
    assert!(found.iter().all(|f| f.name == "rank"));
    let s = select(vec![SelectItem::UnnamedExpr(twice)]);
    let q = empty_query();
    let unique = windows::query_window_functions(&s, &q).unwrap();
    assert_eq!(unique.len(), 1);
    assert!(windows::select_has_window_functions(&s, &q).unwrap());
    let none = select(vec![SelectItem::UnnamedExpr(column("a"))]);
    assert!(!windows::select_has_window_functions(&none, &q).unwrap());
}

#[test]
fn a_named_window_must_be_there() {
    let over = WindowType::NamedWindow(Ident {
        value: "w".to_string(),
        quoted: false,
        text: "w".to_string(),
    });
    let e = call("rank", vec![], false, Some(over));
    let s = select(vec![]);
    let f = e.call.as_ref().unwrap();
    let refused = windows::resolve_window_spec(f, &s).err().expect("no such window");
    assert!(refused.message.contains("w"), "{}", refused.message);
    let inline = call("rank", vec![], false, Some(plain_window()));
    let resolved = windows::resolve_window_spec(inline.call.as_ref().unwrap(), &s).unwrap();
    assert_eq!(resolved.partition_by.len(), 1);
}

#[test]
fn names_on_the_way_to_a_window_are_taken_out_again() {
    let ident = |name: &str| Ident { value: name.to_string(), quoted: false, text: name.to_string() };
    let defs = vec![
        NamedWindowDefinition { name: ident("a"), window: NamedWindowExpr::NamedWindow(ident("b")) },
        NamedWindowDefinition {
            name: ident("b"),
            window: NamedWindowExpr::WindowSpec(match plain_window() {
                WindowType::WindowSpec(spec) => spec,
                WindowType::NamedWindow(_) => unreachable!(),
            }),
        },
        NamedWindowDefinition { name: ident("c"), window: NamedWindowExpr::NamedWindow(ident("c")) },
        NamedWindowDefinition { name: ident("d"), window: NamedWindowExpr::NamedWindow(ident("x")) },
    ];
    let mut visiting = Vec::new();
    for _ in 0..2 {
        assert!(windows::resolve_named_window_spec(&ident("A"), &defs, &mut visiting).is_ok());
        assert!(visiting.is_empty());
    }
    let e = windows::resolve_named_window_spec(&ident("c"), &defs, &mut visiting).err().unwrap();
    assert_eq!(e.message, "cyclic named window definition involving c");
    assert!(visiting.is_empty());
    let e = windows::resolve_named_window_spec(&ident("d"), &defs, &mut visiting).err().unwrap();
    assert_eq!(e.message, "window x does not exist");
    assert_eq!(visiting, vec!["x".to_string()]);
}

#[test]
fn volatile_functions_are_found_in_nested_queries() {
    assert!(shape::expr_contains_volatile_function(&call("random", vec![], false, None)));
    assert!(!shape::expr_contains_volatile_function(&call("lower", vec![column("a")], false, None)));
    let inner = select(vec![SelectItem::UnnamedExpr(call("random", vec![], false, None))]);
    let q = Query { body: Box::new(SetExpr::Select(Box::new(inner))), order_by: None };
    assert!(shape::query_contains_volatile_function(&q));
    let body = SetExpr::SetOperation {
        left: Box::new(SetExpr::Other),
        right: Box::new(SetExpr::Query(Box::new(q))),
    };
    assert!(shape::set_expr_contains_volatile_function(&body));
    assert!(!shape::set_expr_contains_volatile_function(&SetExpr::Insert("x".to_string())));
}

#[test]
fn a_body_that_is_a_statement_is_found_through_queries() {
    let body = SetExpr::Query(Box::new(set_exprs::query_from_body(SetExpr::Insert(
        "INSERT INTO t VALUES (1)".to_string(),
    ))));
    assert_eq!(
        set_exprs::set_expr_insert(&body).map(String::as_str),
        Some("INSERT INTO t VALUES (1)")
    );
    assert!(set_exprs::set_expr_update(&body).is_none());
    assert!(set_exprs::set_expr_delete(&body).is_none());
    let update = SetExpr::Update("u".to_string());
    assert_eq!(set_exprs::set_expr_update(&update).map(String::as_str), Some("u"));
    let delete = SetExpr::Delete("d".to_string());
    assert_eq!(set_exprs::set_expr_delete(&delete).map(String::as_str), Some("d"));
}

#[test]
fn tiles_are_as_even_as_they_can_be() {
    let tiles: Vec<usize> = (0..7).map(|i| rows::window_ntile(i, 7, 3)).collect();
    assert_eq!(tiles, vec![1, 1, 1, 2, 2, 3, 3]);
    let tiles: Vec<usize> = (0..2).map(|i| rows::window_ntile(i, 2, 5)).collect();
    assert_eq!(tiles, vec![1, 2]);
}

#[test]
fn frames_are_clamped_to_the_partition() {
    assert_eq!(rows::window_clamped_frame(-2, 3, 10), Some((0, 3)));
    assert_eq!(rows::window_clamped_frame(4, 20, 10), Some((4, 9)));
    assert_eq!(rows::window_clamped_frame(5, 4, 10), None);
    assert_eq!(rows::window_clamped_frame(0, 0, 0), None);
}

#[test]
fn peers_have_equal_keys() {
    let keys = vec![vec![1u64], vec![1], vec![2], vec![2], vec![3]];
    let partition = [0usize, 1, 2, 3, 4];
    assert_eq!(rows::window_peer_start(&partition, &keys, 3), 2);
    assert_eq!(rows::window_peer_end(&partition, &keys, 2), 3);
    assert_eq!(rows::window_peer_groups(&partition, &keys), vec![(0, 1), (2, 3), (4, 4)]);
    assert!(!rows::window_keys_are_peers(&[1, 2], &[1]));
}

#[test]
fn limits_and_the_rows_to_keep() {
    let mut list: Vec<i32> = (0..10).collect();
    rows::apply_row_limit(&mut list, Some(3), Some(4));
    assert_eq!(list, vec![3, 4, 5, 6]);
    let mut list: Vec<i32> = (0..3).collect();
    rows::apply_row_limit(&mut list, Some(5), None);
    assert!(list.is_empty());
    assert_eq!(rows::order_by_keep_bound(Some(3), Some(4)), Some(7));
    assert_eq!(rows::order_by_keep_bound(Some(3), None), None);
    assert_eq!(rows::order_by_keep_bound(Some(usize::MAX), Some(4)), Some(usize::MAX));
    // Keeping that many rows first gives the same page.
    let all: Vec<i32> = (0..20).collect();
    let mut kept: Vec<i32> = all.iter().copied().take(7).collect();
    let mut page = all;
    rows::apply_row_limit(&mut kept, Some(3), Some(4));
    rows::apply_row_limit(&mut page, Some(3), Some(4));
    assert_eq!(kept, page);
}

fn keyed(keys: &[u64]) -> Vec<KeyedRow<u64>> {
    keys.iter().map(|k| KeyedRow { key: *k, row: *k }).collect()
}

fn result(keys: &[u64], columns: usize) -> ResultRows<u64> {
    ResultRows {
        columns: (0..columns).map(|i| format!("c{i}")).collect(),
        column_types: (0..columns).map(|_| None).collect(),
        rows: keyed(keys),
    }
}

fn keys(rows: &[KeyedRow<u64>]) -> Vec<u64> {
    rows.iter().map(|r| r.key).collect()
}

#[test]
fn duplicate_rows_go_and_the_first_stay() {
    assert_eq!(
        keys(&rows::deduplicate_sql_rows_typed(keyed(&[3, 1, 3, 2, 1]))),
        vec![3, 1, 2]
    );
}

#[test]
fn set_operations_have_the_rows_they_should() {
    let combine = |op, q| {
        rows::combine_set_results(result(&[1, 2, 2, 3], 1), op, q, result(&[2, 4], 1)).map(|r| keys(&r.rows))
    };
    assert_eq!(combine(SetOperator::Union, SetQuantifier::All).unwrap(), vec![1, 2, 2, 3, 2, 4]);
    assert_eq!(combine(SetOperator::Union, SetQuantifier::Distinct).unwrap(), vec![1, 2, 3, 4]);
    assert_eq!(combine(SetOperator::Intersect, SetQuantifier::Unquantified).unwrap(), vec![2]);
    assert_eq!(combine(SetOperator::Except, SetQuantifier::Distinct).unwrap(), vec![1, 3]);
    assert!(combine(SetOperator::Union, SetQuantifier::ByName).is_err());
    let e = rows::combine_set_results(
        result(&[1], 1),
        SetOperator::Union,
        SetQuantifier::All,
        result(&[1], 2),
    )
    .err()
    .expect("the columns differ");
    assert!(e.message.contains("right has 2"), "{}", e.message);
}

fn datum(rank: i64) -> Datum {
    Datum { null: false, class: rank as u64, rank }
}

fn null() -> Datum {
    Datum { null: true, class: 0, rank: 0 }
}

fn row(value: Datum, text: &str) -> AggregateRow {
    AggregateRow {
        accepted: true,
        value,
        value_text: text.to_string(),
        value_json: format!("\"{text}\""),
        value_shape: None,
        other: datum(0),
        other_text: Some(",".to_string()),
        keys: vec![value],
        against_extreme: None,
    }
}

fn against(order: KeyOrder, row: AggregateRow) -> AggregateRow {
    AggregateRow { against_extreme: Some(order), ..row }
}

fn aggregate(kind: AggregateKind) -> RowAggregate<'static> {
    RowAggregate {
        kind,
        expr: None,
        other: None,
        distinct: false,
        intersect: false,
        order_by: None,
        filter: None,
        binary: false,
        strict: false,
        unique: false,
        standard: false,
        returning: None,
    }
}

#[test]
fn nulls_stand_where_the_options_put_them() {
    let up = OrderByOptions { asc: None, nulls_first: None };
    let down = OrderByOptions { asc: Some(false), nulls_first: None };
    let first = OrderByOptions { asc: Some(true), nulls_first: Some(true) };
    assert_eq!(order_value_ordering(null(), datum(1), up), KeyOrder::Greater);
    assert_eq!(order_value_ordering(null(), datum(1), down), KeyOrder::Less);
    assert_eq!(order_value_ordering(null(), datum(1), first), KeyOrder::Less);
    assert_eq!(order_value_ordering(datum(1), datum(2), down), KeyOrder::Greater);
    assert_eq!(order_value_ordering(datum(2), datum(2), down), KeyOrder::Equal);
}

#[test]
fn aggregates_come_to_what_they_should() {
    let list = vec![
        row(datum(3), "c"),
        row(null(), ""),
        against(KeyOrder::Less, row(datum(1), "a")),
        against(KeyOrder::Equal, row(datum(3), "c")),
    ];
    assert!(matches!(aggregate(AggregateKind::CountAll).evaluate_rows(&list, None), Ok(Aggregated::Count(4))));
    assert!(matches!(aggregate(AggregateKind::CountExpr).evaluate_rows(&list, None), Ok(Aggregated::Count(3))));
    let mut distinct = aggregate(AggregateKind::CountExpr);
    distinct.distinct = true;
    assert!(matches!(distinct.evaluate_rows(&list, None), Ok(Aggregated::Count(2))));
    match aggregate(AggregateKind::Min).evaluate_rows(&list, None) {
        Ok(Aggregated::Value(r)) => assert_eq!(r.value_text, "a"),
        _ => panic!("there is a least value"),
    }
    match aggregate(AggregateKind::Max).evaluate_rows(&list, None) {
        Ok(Aggregated::Value(r)) => assert_eq!(r.value_text, "c"),
        _ => panic!("there is a greatest value"),
    }
    assert!(row_extreme_value(&vec![row(null(), "")], true).is_none());
    let mixed = vec![
        row(datum(1), "text"),
        row(datum(5), "number"),
        against(KeyOrder::Greater, row(datum(2), "later")),
    ];
    assert_eq!(row_extreme_value(&mixed, true).unwrap().value_text, "later");
    assert_eq!(row_extreme_value(&mixed, false).unwrap().value_text, "text");
    match aggregate(AggregateKind::StringAgg).evaluate_rows(&list, None) {
        Ok(Aggregated::Text(s)) => assert_eq!(s, "c,a,c"),
        _ => panic!("there is a text"),
    }
    let e = aggregate(AggregateKind::Sum).evaluate_rows(&list, Some("oid")).err().expect("refused");
    assert_eq!(e.message, "function sum(oid) does not exist");
    assert_eq!(e.kind, SqlErrorKind::UndefinedFunction);
    let e = aggregate(AggregateKind::RangeAgg).evaluate_rows(&list, None).err().expect("refused");
    assert_eq!(e.message, "range aggregate requires a range or multirange argument");
}

#[test]
fn ordered_aggregates_follow_their_keys() {
    let list = vec![row(datum(3), "c"), row(datum(1), "a"), row(datum(2), "b")];
    let order = vec![OrderByExpr {
        expr: column("a"),
        options: OrderByOptions { asc: Some(false), nulls_first: None },
    }];
    let mut a = aggregate(AggregateKind::StringAgg);
    a.order_by = Some(&order);
    match a.evaluate_rows(&list, None) {
        Ok(Aggregated::Text(s)) => assert_eq!(s, "c,b,a"),
        _ => panic!("there is a text"),
    };
}

#[test]
fn duplicate_object_keys_are_refused_where_they_must_differ() {
    let mut list = vec![row(datum(1), "a"), row(datum(2), "b")];
    for r in list.iter_mut() {
        r.other_text = Some("k\"".to_string());
    }
    let mut a = aggregate(AggregateKind::JsonObjectAgg);
    a.unique = true;
    let e = a.evaluate_rows(&list, None).err().expect("the key is there twice");
    assert_eq!((e.kind, e.code.as_str()), (SqlErrorKind::ConstraintViolation, "22030"));
    assert_eq!(e.message, "duplicate JSON object key value: \"k\"\"");
    a.unique = false;
    match a.evaluate_rows(&list, None).unwrap() {
        Aggregated::JsonText(s) => {
            assert_eq!(s, "{ \"k\\\"\" : \"a\", \"k\\\"\" : \"b\" }");
        }
        _ => panic!("a JSON text"),
    };
}

fn constant(text: &str) -> FilterExpr {
    FilterExpr {
        shape: FilterShape::Other,
        constant: Ok(Constant {
            text: Some(text.to_string()),
            elements: None,
            column_list: None,
            truth: None,
        }),
        oid: OidSource::Value(Ok(None)),
    }
}

fn named(parts: &[&str]) -> FilterExpr {
    FilterExpr {
        shape: FilterShape::Column(parts.iter().map(|p| p.to_string()).collect()),
        constant: Err(bicdb_sql::error::SqlError::unsupported("a column".to_string())),
        oid: OidSource::Value(Ok(None)),
    }
}

fn equal(a: FilterExpr, b: FilterExpr) -> FilterExpr {
    FilterExpr {
        shape: FilterShape::Equal(Box::new(a), Box::new(b)),
        constant: Err(bicdb_sql::error::SqlError::unsupported("a test".to_string())),
        oid: OidSource::Value(Ok(None)),
    }
}

#[test]
fn equalities_narrow_a_column() {
    let fields = ["table_name"];
    let term = equal(named(&["c", "table_name"]), constant("orders"));
    assert_eq!(
        filters::string_filter_values_from_term(&term, "c", "columns", &fields).unwrap(),
        Some(vec!["orders".to_string()])
    );
    let other = equal(named(&["x", "table_name"]), constant("orders"));
    assert_eq!(
        filters::string_filter_values_from_term(&other, "c", "columns", &fields).unwrap(),
        None
    );
    assert_eq!(
        filters::intersect_optional_string_filters(
            Some(vec!["a".to_string(), "b".to_string()]),
            Some(vec!["b".to_string(), "c".to_string()])
        ),
        Some(vec!["b".to_string()])
    );
    assert_eq!(
        filters::intersect_optional_string_filters(None, Some(vec!["b".to_string()])),
        Some(vec!["b".to_string()])
    );
}

#[test]
fn anchored_patterns_list_their_names() {
    assert_eq!(
        filters::exact_values_from_anchored_regex("^(a|b_1)$"),
        Some(vec!["a".to_string(), "b_1".to_string()])
    );
    assert_eq!(filters::exact_values_from_anchored_regex("^a.*$"), None);
    assert_eq!(filters::exact_values_from_anchored_regex("a"), None);
}

fn failed(what: &str) -> Option<SqlError> {
    Some(SqlError::invalid_sql(what.to_string()))
}

fn sound() -> RowFailures {
    RowFailures { filter: None, value: None, other: None, keys: vec![None], comparison: None }
}

fn outcome(kind: AggregateKind, g: &RowGroup) -> Result<String, String> {
    let plain = aggregate(kind).evaluate(g, Some("int8")).map_err(|e| e.message);
    let bound = aggregate(kind).evaluate_bound(g, Some("int8")).map_err(|e| e.message);
    assert_eq!(format!("{plain:?}"), format!("{bound:?}"));
    match aggregate(kind).evaluate_bound(g, Some("int8")) {
        Ok(value) => Ok(format!("{value:?}")),
        Err(e) => Err(e.message),
    }
}

#[test]
fn the_first_row_that_fails_decides() {
    let mut g = RowGroup {
        rows: vec![row(datum(1), "a"), row(datum(2), "b")],
        failures: vec![sound(), sound()],
        checks: vec![],
    };
    assert_eq!(outcome(AggregateKind::CountExpr, &g), Ok("Count(2)".to_string()));
    g.failures[1].value = failed("value");
    g.failures[1].other = failed("other");
    g.failures[1].filter = failed("filter");
    assert_eq!(outcome(AggregateKind::CountAll, &g), Ok("Count(2)".to_string()));
    assert_eq!(outcome(AggregateKind::CountExpr, &g), Err("value".to_string()));
    assert_eq!(outcome(AggregateKind::StringAgg, &g), Err("filter".to_string()));
    g.failures[1].filter = None;
    assert_eq!(outcome(AggregateKind::StringAgg, &g), Err("value".to_string()));
    assert_eq!(outcome(AggregateKind::JsonObjectAgg, &g), Err("other".to_string()));
    g.rows[1].accepted = false;
    assert_eq!(outcome(AggregateKind::StringAgg, &g), Ok("Text(\"a\")".to_string()));
    g.failures[0].keys = vec![None, failed("key")];
    assert_eq!(outcome(AggregateKind::ArrayAgg, &g), Err("key".to_string()));
    let e = aggregate(AggregateKind::Sum).evaluate_bound(&g, Some("oid")).err().expect("refused");
    assert_eq!(e.message, "function sum(oid) does not exist");
}

#[test]
fn comparisons_fail_once_there_is_a_value() {
    let mut g = RowGroup {
        rows: vec![row(null(), ""), row(datum(1), "a"), row(null(), ""), row(datum(2), "b")],
        failures: vec![sound(), sound(), sound(), sound()],
        checks: vec![],
    };
    for f in g.failures.iter_mut().take(3) {
        f.comparison = failed("early");
    }
    assert!(outcome(AggregateKind::Max, &g).is_ok());
    g.failures[3].comparison = failed("compared");
    assert_eq!(outcome(AggregateKind::Max, &g), Err("compared".to_string()));
    assert_eq!(outcome(AggregateKind::Min, &g), Err("compared".to_string()));
}

#[test]
fn cancellation_is_asked_for_every_so_many_rows() {
    let rows: Vec<AggregateRow> = (0..CHECKED_ROWS + 1).map(|_| row(datum(1), "a")).collect();
    let mut g = RowGroup { rows, failures: vec![], checks: vec![None, failed("cancelled")] };
    assert_eq!(outcome(AggregateKind::CountExpr, &g), Err("cancelled".to_string()));
    g.rows.pop();
    assert_eq!(outcome(AggregateKind::CountExpr, &g), Ok("Count(1024)".to_string()));
}
