//! Calls, groups, projections and the terms of WHERE clauses.
use bicdb_sql::aggregates::{
    row_aggregate_from_expr, AggregateKind, AggregateParts, JsonRules, RowAggregate,
};
use bicdb_sql::ast::{
    Expr, ExprKind, Function, GroupByExpr, Ident, Operand, OrderBy, OrderByExpr, OrderByOptions,
    Query, Role, Select, SelectItem, SetExpr, WindowSpec, WindowType,
};
use bicdb_sql::error::SqlError;
use bicdb_sql::filters;
use bicdb_sql::filters::{Constant, FilterExpr, FilterShape, OidSource};
use bicdb_sql::oid_filters;
use bicdb_sql::shape;
use bicdb_sql::shape::TableReference;
use bicdb_sql::virtual_tables;
use bicdb_sql::virtual_tables::{Scope, VirtualRead};
use bicdb_sql::windows;

fn expr(kind: ExprKind, list: &[&str], operands: Vec<Expr>) -> Expr {
    Expr {
        kind,
        names: list.iter().map(|s| s.to_string()).collect(),
        operands: operands
            .into_iter()
            .map(|expr| Operand { role: Role::Operand, expr })
            .collect(),
        data_type: None,
        constant_path: false,
        call: None,
        query: None,
    }
}

fn column(name: &str) -> Expr {
    expr(ExprKind::Identifier, &[name], vec![])
}

fn function(name: &str, args: Vec<Expr>) -> Function {
    Function {
        name: name.to_string(),
        text: format!("{name}({})", args.len()),
        args,
        star: false,
        distinct: false,
        aggregate: true,
        spatial_predicate: false,
        order_by: vec![],
        filter: None,
        within_group: vec![],
        null_treatment: false,
        over: None,
    }
}

fn call(f: Function) -> Expr {
    let mut e = expr(ExprKind::Function, &[], vec![]);
    e.call = Some(Box::new(f));
    e
}

fn no_json() -> JsonRules {
    JsonRules {
        array_flags: None,
        object_flags: None,
        options: Ok((false, None)),
        encoding_error: SqlError::unsupported("no such encoding".to_string()),
    }
}

fn no_parts() -> SqlError {
    SqlError::unsupported("no parts".to_string())
}

#[test]
fn calls_denote_aggregates() {
    let kind = |f: &Function| {
        RowAggregate::from_function(f, no_json(), Err(no_parts()))
            .map(|a| (a.kind, a.distinct, a.intersect))
            .map_err(|e| e.message)
    };
    let mut count = function("COUNT", vec![]);
    count.star = true;
    assert_eq!(kind(&count), Ok((AggregateKind::CountAll, false, false)));
    let mut sum = function("sum", vec![column("a")]);
    sum.distinct = true;
    assert_eq!(kind(&sum), Ok((AggregateKind::Sum, true, false)));
    let mut max = function("Max", vec![column("a")]);
    max.distinct = true;
    assert_eq!(kind(&max), Ok((AggregateKind::Max, false, false)));
    assert_eq!(
        kind(&function("pg_catalog.every", vec![column("a")])),
        Ok((AggregateKind::BoolAnd, false, false))
    );
    assert_eq!(
        kind(&function("range_intersect_agg", vec![column("a")])),
        Ok((AggregateKind::RangeAgg, false, true))
    );
    assert_eq!(
        kind(&function("sum", vec![])),
        Err("sum expects exactly one field argument".to_string())
    );
    assert_eq!(kind(&function("median", vec![])), Err("aggregate median is not supported".to_string()));
    assert_eq!(
        kind(&function("json_agg_encoding_error", vec![])),
        Err("no such encoding".to_string())
    );
    assert_eq!(kind(&function("array_agg", vec![])), Err("no parts".to_string()));
}

#[test]
fn ordered_aggregates_take_their_parts() {
    let f = function("string_agg", vec![column("a"), column("b")]);
    let order = vec![];
    let (a, b) = (column("a"), column("b"));
    let parts = AggregateParts { expr: &a, other: Some(&b), distinct: true, order_by: &order };
    let r = RowAggregate::from_function(&f, no_json(), Ok(parts)).unwrap();
    assert_eq!(r.kind, AggregateKind::StringAgg);
    assert!(r.distinct && r.other.is_some());
    assert_eq!(r.column_name("x"), "string_agg");
    let f = function("xmlagg", vec![column("a")]);
    let parts = AggregateParts { expr: &a, other: None, distinct: true, order_by: &order };
    let e = RowAggregate::from_function(&f, no_json(), Ok(parts)).err().expect("refused");
    assert_eq!(e.message, "could not identify an equality operator for type xml");
    let f = function("jsonb_object_agg_unique", vec![column("a"), column("b")]);
    let mut rules = no_json();
    rules.object_flags = Some((true, false, true));
    let parts = AggregateParts { expr: &a, other: Some(&b), distinct: false, order_by: &order };
    let r = RowAggregate::from_function(&f, rules, Ok(parts)).unwrap();
    assert_eq!(r.column_name("x"), "jsonb_object_agg_unique");
    let mut counted = function("count", vec![column("a")]);
    counted.distinct = true;
    let r = RowAggregate::from_function(&counted, no_json(), Err(no_parts())).unwrap();
    assert_eq!(r.column_name("a"), "COUNT(DISTINCT a)");
}

#[test]
fn casts_round_an_aggregate_are_looked_through() {
    let mut cast = expr(
        ExprKind::Cast,
        &[],
        vec![expr(ExprKind::Nested, &[], vec![call(function("sum", vec![column("a")]))])],
    );
    cast.data_type = Some("int4".to_string());
    let (f, target) = row_aggregate_from_expr(&cast).unwrap();
    assert_eq!(f.name, "sum");
    assert_eq!(target.map(String::as_str), Some("int4"));
    assert!(row_aggregate_from_expr(&column("a")).is_err());
}

fn select(projection: Vec<SelectItem>, group_by: GroupByExpr) -> Select {
    Select { projection, selection: None, group_by, having: None, named_window: vec![] }
}

fn query() -> Query {
    Query { body: Box::new(SetExpr::Other), order_by: None }
}

fn ident(name: &str) -> Ident {
    Ident { value: name.to_string(), quoted: false, text: name.to_string() }
}

#[test]
fn groups_are_plain_expressions() {
    let plain = select(vec![], GroupByExpr::Expressions(vec![column("a")], 0));
    assert!(windows::has_group_by(&plain).unwrap());
    assert!(!windows::has_group_by(&select(vec![], GroupByExpr::Expressions(vec![], 0))).unwrap());
    for (group_by, message) in [
        (GroupByExpr::Expressions(vec![], 1), "GROUP BY modifiers are not supported"),
        (GroupByExpr::All(0), "GROUP BY ALL is not supported"),
        (GroupByExpr::All(1), "GROUP BY ALL modifiers are not supported"),
    ] {
        let e = windows::has_group_by(&select(vec![], group_by)).unwrap_err();
        assert_eq!(e.message, message);
    }
}

#[test]
fn aggregates_of_a_query_are_found() {
    let s = select(
        vec![SelectItem::ExprWithAlias {
            expr: expr(
                ExprKind::BinaryOp,
                &[],
                vec![call(function("sum", vec![column("a")])), column("b")],
            ),
            alias: ident("total"),
        }],
        GroupByExpr::Expressions(vec![], 0),
    );
    let q = query();
    let found = windows::query_group_aggregate_functions(&s, &q).map_err(|e| e.message);
    assert_eq!(found.unwrap().len(), 1);
    let (_, alias) = windows::select_item_expr_and_alias(&s.projection[0]).map_err(|e| e.message).unwrap();
    assert_eq!(alias.as_deref(), Some("total"));
    assert!(windows::select_item_expr_and_alias(&SelectItem::Wildcard("*".to_string())).is_err());
    let order = vec![OrderByExpr {
        expr: column("total"),
        options: OrderByOptions { asc: None, nulls_first: None },
    }];
    let resolved = windows::resolve_order_by_projection_aliases(&order, &s.projection);
    assert_eq!(resolved[0].kind, ExprKind::BinaryOp);
    let all = Query { body: Box::new(SetExpr::Other), order_by: Some(OrderBy::All) };
    let e = windows::query_group_aggregate_functions(&s, &all).err().expect("refused");
    assert_eq!(e.message, "ORDER BY ALL is not supported");
}

#[test]
fn window_functions_are_validated() {
    let window = || {
        Some(WindowType::WindowSpec(WindowSpec {
            window_name: None,
            partition_by: vec![],
            order_by: vec![],
            window_frame: None,
        }))
    };
    let check = |f: Function| {
        let s = select(
            vec![SelectItem::UnnamedExpr(call(f))],
            GroupByExpr::Expressions(vec![], 0),
        );
        windows::validate_window_functions(&s, &query()).map_err(|e| e.message)
    };
    let mut rank = function("rank", vec![]);
    rank.aggregate = false;
    rank.over = window();
    assert_eq!(check(rank), Ok(()));
    let mut treated = function("rank", vec![]);
    treated.aggregate = false;
    treated.over = window();
    treated.null_treatment = true;
    assert_eq!(check(treated), Err("NULL treatment is not valid for RANK".to_string()));
    let mut filtered = function("rank", vec![]);
    filtered.aggregate = false;
    filtered.over = window();
    filtered.filter = Some(Box::new(column("a")));
    assert_eq!(check(filtered), Err("FILTER is not valid for RANK".to_string()));
    let mut sum = function("sum", vec![column("a")]);
    sum.over = window();
    assert!(windows::window_column_name(&sum).contains("sum"));
    assert!(windows::group_aggregate_column_name(&sum).contains("sum"));
}

#[test]
fn whole_rows_are_named_by_their_table() {
    let t = TableReference {
        alias: Some("o".to_string()),
        last_name: Some("orders".to_string()),
        has_args: false,
    };
    let item = |name: &str| SelectItem::UnnamedExpr(column(name));
    assert!(shape::select_item_is_whole_row_reference(&item("O"), &t));
    assert!(!shape::select_item_is_whole_row_reference(&item("id"), &t));
    assert!(!shape::select_item_needs_row_evaluator(&item("id")));
    let order = OrderBy::Expressions(vec![OrderByExpr {
        expr: column("id"),
        options: OrderByOptions { asc: None, nulls_first: None },
    }]);
    assert!(!shape::order_by_needs_row_evaluator(&order));
}

fn filter(shape: FilterShape) -> FilterExpr {
    FilterExpr {
        shape,
        constant: Err(SqlError::unsupported("not constant".to_string())),
        oid: OidSource::Value(Ok(None)),
    }
}

fn constant(text: Option<&str>) -> FilterExpr {
    let mut e = filter(FilterShape::Other);
    e.constant = Ok(Constant {
        text: text.map(str::to_string),
        elements: None,
        column_list: text.map(str::to_string),
        truth: Some(true),
    });
    e
}

fn named(parts: &[&str]) -> FilterExpr {
    filter(FilterShape::Column(parts.iter().map(|p| p.to_string()).collect()))
}

fn equal(a: FilterExpr, b: FilterExpr) -> FilterExpr {
    filter(FilterShape::Equal(Box::new(a), Box::new(b)))
}

fn number(n: i64) -> FilterExpr {
    let mut e = filter(FilterShape::Other);
    e.oid = OidSource::Value(Ok(Some(n)));
    e
}

#[test]
fn lists_and_patterns_narrow_a_column() {
    let fields = ["relname"];
    let list = filter(FilterShape::InList(
        Box::new(named(&["relname"])),
        vec![constant(Some("a")), constant(Some("b"))],
        false,
    ));
    assert_eq!(
        filters::string_filter_values_from_selection(&vec![list], "c", "pg_class", &fields).unwrap(),
        Some(vec!["a".to_string(), "b".to_string()])
    );
    let pattern = filter(FilterShape::RegexMatch(
        Box::new(named(&["c", "relname"])),
        Box::new(constant(Some("^(a|b)$"))),
    ));
    assert_eq!(
        filters::regex_exact_values_from_selection(&vec![pattern], "c", "pg_class", &fields).unwrap(),
        Some(vec!["a".to_string(), "b".to_string()])
    );
    let keys = equal(named(&["conkey"]), constant(Some("{1}")));
    assert_eq!(
        filters::column_list_filter_values_from_term(&keys, "c", "pg_constraint", &["conkey"])
            .unwrap(),
        Some(vec!["{1}".to_string()])
    );
    assert_eq!(
        filters::column_list_filter_values_from_selection(&vec![], "c", "pg_constraint", &["conkey"])
            .unwrap(),
        None
    );
}

#[test]
fn numbers_of_relations_are_compared() {
    let term = equal(named(&["a", "attrelid"]), number(77));
    assert_eq!(
        oid_filters::relation_oid_comparison(&term, "a", "pg_attribute", &["attrelid"]).unwrap(),
        Some(77)
    );
    let mut merged = None;
    oid_filters::merge_oid_filter(&mut merged, vec![1, 2, 3]);
    oid_filters::merge_oid_filter(&mut merged, vec![2, 3, 4]);
    assert_eq!(merged, Some(vec![2, 3]));
    assert_eq!(
        oid_filters::qualified_field_alias(&named(&["i", "IndRelId"]), "indrelid").as_deref(),
        Some("i")
    );
    assert!(oid_filters::pg_index_joins(&vec![], "c", &vec![]).unwrap().is_empty());
}

#[test]
fn reads_are_narrowed_by_their_terms() {
    let terms = vec![equal(named(&["attrelid"]), number(77))];
    let tables = vec![];
    let scope = Scope { terms: &terms, alias: "a", tables: &tables };
    assert!(matches!(
        virtual_tables::virtual_rows_with_selection("pg_catalog.pg_attribute", &scope, vec![]),
        Ok(VirtualRead::Attributes(oids)) if oids == vec![77]
    ));
    assert!(matches!(
        virtual_tables::virtual_rows_with_selection("pg_namespace", &scope, vec![]),
        Ok(VirtualRead::All)
    ));
    let terms = vec![equal(named(&["table_name"]), constant(Some("orders")))];
    let scope = Scope { terms: &terms, alias: "columns", tables: &tables };
    match virtual_tables::virtual_rows_with_selection("information_schema.columns", &scope, vec![]) {
        Ok(VirtualRead::Columns { tables: Some(list), schemas: None, columns: None }) => {
            assert_eq!(list, vec!["orders".to_string()]);
        }
        other => panic!("{other:?}"),
    }
}
