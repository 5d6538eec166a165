//! Reading queries off the trees of parsed statements.
use bicdb_sql::ast::{ExprKind, OrderBy, Query, Role, Select, SelectItem, SetExpr, WindowType};
use bicdb_sql::error::SqlError;
use bicdb_sql::filter_reading;
use bicdb_sql::filter_reading::Evaluation;
use bicdb_sql::filters;
use bicdb_sql::filters::{Constant, FilterShape, OidSource};
use bicdb_sql::json;
use bicdb_sql::json::{Json, Member};
use bicdb_sql::parse;
use bicdb_sql::parse::SqlLimits;
use bicdb_sql::reading;
use bicdb_sql::syntax;
use bicdb_sql::syntax::{Reader, WrittenPart};
use bicdb_sql::windows;

fn tree_of(sql: &str) -> Json {
    let limits = SqlLimits {
        sql_bytes: 100_000,
        parse_nesting_depth: 100,
        expression_depth: 100,
        expression_nodes: 10_000,
    };
    parse::parse_statements(sql, None, limits).unwrap().remove(0).tree
}

fn copy_of(tree: &Json) -> Json {
    match tree {
        Json::Null => Json::Null,
        Json::Bool(b) => Json::Bool(*b),
        Json::Number(n) => Json::Number(n.clone()),
        Json::Text(text) => Json::Text(text.clone()),
        Json::Array(items) => Json::Array(items.iter().map(copy_of).collect()),
        Json::Object(members) => Json::Object(
            members
                .iter()
                .map(|m| Member { name: m.name.clone(), value: copy_of(&m.value) })
                .collect(),
        ),
    }
}

fn value_of(tree: &Json) -> serde_json::Value {
    match tree {
        Json::Null => serde_json::Value::Null,
        Json::Bool(b) => serde_json::Value::Bool(*b),
        Json::Number(n) => n.parse().map(serde_json::Value::Number).unwrap(),
        Json::Text(text) => serde_json::Value::String(text.clone()),
        Json::Array(items) => serde_json::Value::Array(items.iter().map(value_of).collect()),
        Json::Object(members) => serde_json::Value::Object(
            members.iter().map(|m| (m.name.clone(), value_of(&m.value))).collect(),
        ),
    }
}

fn text_of(value: &serde_json::Value) -> Option<String> {
    if let Ok(part) = serde_json::from_value::<sqlparser::ast::Ident>(value.clone()) {
        return Some(part.to_string());
    }
    if let Ok(part) = serde_json::from_value::<sqlparser::ast::ObjectName>(value.clone()) {
        return Some(part.to_string());
    }
    if let Ok(part) = serde_json::from_value::<sqlparser::ast::Function>(value.clone()) {
        return Some(part.to_string());
    }
    if let Ok(part) = serde_json::from_value::<sqlparser::ast::SelectItem>(value.clone()) {
        return Some(part.to_string());
    }
    if let Ok(part) = serde_json::from_value::<sqlparser::ast::WindowFrame>(value.clone()) {
        let spec = sqlparser::ast::WindowSpec {
            window_name: None,
            partition_by: vec![],
            order_by: vec![],
            window_frame: Some(part),
        };
        return Some(spec.to_string());
    }
    serde_json::from_value::<sqlparser::ast::DataType>(value.clone())
        .ok()
        .map(|part| part.to_string())
}

fn add_parts(node: &Json, parts: &mut Vec<WrittenPart>) {
    if let Some(text) = text_of(&value_of(node)) {
        parts.push(WrittenPart { tree: copy_of(node), text });
    }
    match node {
        Json::Array(items) => items.iter().for_each(|item| add_parts(item, parts)),
        Json::Object(members) => members.iter().for_each(|m| add_parts(&m.value, parts)),
        _ => {}
    }
}

fn reader_of(tree: &Json) -> Reader {
    let mut parts = Vec::new();
    add_parts(tree, &mut parts);
    Reader {
        parts,
        aggregates: vec!["sum".to_string(), "count".to_string()],
        spatial_predicates: vec!["st_contains".to_string()],
        constant_paths: vec![],
    }
}

fn query_of(sql: &str) -> Query {
    let tree = tree_of(sql);
    let reader = reader_of(&tree);
    reading::read_query(json::variant_payload(&tree), &reader, 64).unwrap()
}

fn select_of(query: &Query) -> &Select {
    match &*query.body {
        SetExpr::Select(select) => select,
        other => panic!("not a select: {other:?}"),
    }
}

#[test]
fn window_functions_are_read_off_a_query() {
    let query = query_of(
        "SELECT a, RANK() OVER (PARTITION BY b ORDER BY c DESC NULLS LAST ROWS BETWEEN 1 PRECEDING AND CURRENT ROW) AS r, \
         sum(DISTINCT d) FILTER (WHERE e) OVER w FROM t WINDOW w AS (ORDER BY f)",
    );
    let select = select_of(&query);
    assert_eq!(select.projection.len(), 3);
    let functions = windows::query_window_functions(select, &query).unwrap();
    assert_eq!(functions.len(), 2);
    assert_eq!(functions[0].name, "RANK");
    assert!(!functions[0].aggregate);
    match &functions[0].over {
        Some(WindowType::WindowSpec(spec)) => {
            assert_eq!(spec.partition_by.len(), 1);
            assert_eq!(spec.partition_by[0].names, vec!["b".to_string()]);
            assert_eq!(spec.order_by[0].options.asc, Some(false));
            assert_eq!(spec.order_by[0].options.nulls_first, Some(false));
            assert_eq!(
                spec.window_frame.as_deref(),
                Some("ROWS BETWEEN 1 PRECEDING AND CURRENT ROW")
            );
            assert!(spec.window_name.is_none());
        }
        other => panic!("{other:?}"),
    }
    assert_eq!(functions[1].text, "sum(DISTINCT d) FILTER (WHERE e) OVER w");
    assert!(functions[1].aggregate && functions[1].distinct && functions[1].filter.is_some());
    match &functions[1].over {
        Some(WindowType::NamedWindow(name)) => assert_eq!(name.value, "w"),
        other => panic!("{other:?}"),
    }
    assert_eq!(select.named_window.len(), 1);
    assert_eq!(select.named_window[0].name.value, "w");
    let resolved = windows::resolve_window_spec(functions[1], select).unwrap();
    assert_eq!(resolved.order_by.len(), 1);
    match &select.projection[1] {
        SelectItem::ExprWithAlias { expr, alias } => {
            assert_eq!(expr.kind, ExprKind::Function);
            assert_eq!(alias.text, "r");
        }
        other => panic!("{other:?}"),
    }
}

#[test]
fn clauses_of_a_select_are_read() {
    let query = query_of(
        "SELECT *, t.*, \"Q\" FROM t WHERE t.x = 1 AND y IN (2, 3) GROUP BY x, y HAVING count(*) > 1 ORDER BY x ASC, y",
    );
    let select = select_of(&query);
    match &select.projection[0] {
        SelectItem::Wildcard(text) => assert_eq!(text, "*"),
        other => panic!("{other:?}"),
    }
    match &select.projection[1] {
        SelectItem::QualifiedWildcard(text) => assert_eq!(text, "t.*"),
        other => panic!("{other:?}"),
    }
    match &select.projection[2] {
        SelectItem::UnnamedExpr(e) => assert_eq!(e.names, vec!["Q".to_string()]),
        other => panic!("{other:?}"),
    }
    let selection = select.selection.as_ref().unwrap();
    assert_eq!(selection.kind, ExprKind::BinaryOp);
    assert_eq!(selection.operands.len(), 2);
    let equal = &selection.operands[0].expr;
    assert_eq!(equal.operands[0].expr.kind, ExprKind::CompoundIdentifier);
    assert_eq!(equal.operands[0].expr.names, vec!["t".to_string(), "x".to_string()]);
    assert_eq!(selection.operands[1].expr.kind, ExprKind::InList);
    assert_eq!(windows::group_by_exprs(select).unwrap().len(), 2);
    let having = select.having.as_ref().unwrap();
    let count = having.operands[0].expr.call.as_ref().unwrap();
    assert!(count.star && count.aggregate && count.args.is_empty());
    match &query.order_by {
        Some(OrderBy::Expressions(orders)) => {
            assert_eq!(orders.len(), 2);
            assert_eq!(orders[0].options.asc, Some(true));
            assert_eq!(orders[1].options.asc, None);
        }
        other => panic!("{other:?}"),
    }
}

#[test]
fn bodies_of_queries_are_read() {
    match *query_of("SELECT 1 UNION SELECT 2").body {
        SetExpr::SetOperation { left, right } => {
            assert!(matches!(*left, SetExpr::Select(_)));
            assert!(matches!(*right, SetExpr::Select(_)));
        }
        other => panic!("{other:?}"),
    }
    assert!(matches!(*query_of("(SELECT 1)").body, SetExpr::Query(_)));
    assert!(matches!(*query_of("VALUES (1)").body, SetExpr::Other));
    let query = query_of("SELECT EXISTS (SELECT 1), CAST(x AS INTEGER)");
    match &select_of(&query).projection[0] {
        SelectItem::UnnamedExpr(e) => assert!(e.query.is_some()),
        other => panic!("{other:?}"),
    }
    match &select_of(&query).projection[1] {
        SelectItem::UnnamedExpr(e) => {
            assert_eq!(e.kind, ExprKind::Cast);
            assert_eq!(e.data_type.as_deref(), Some("INTEGER"));
        }
        other => panic!("{other:?}"),
    }
}

#[test]
fn nothing_is_read_past_the_levels_or_without_the_texts() {
    let tree = tree_of("SELECT ((a + b)) FROM t");
    let reader = reader_of(&tree);
    assert!(reading::read_query(json::variant_payload(&tree), &reader, 4).is_some());
    assert!(reading::read_query(json::variant_payload(&tree), &reader, 3).is_none());

    let call = tree_of("SELECT f(a)");
    let known = reader_of(&call);
    let unknown =
        Reader { parts: vec![], aggregates: vec![], spatial_predicates: vec![], constant_paths: vec![] };
    assert!(reading::read_query(json::variant_payload(&call), &known, 8).is_some());
    assert!(reading::read_query(json::variant_payload(&call), &unknown, 8).is_none());
    assert!(reading::read_expr(None, &known, 8).is_none());
    assert!(reading::read_ident(None, &known).is_none());
}

#[test]
fn kinds_and_operands_of_expressions() {
    let tree = tree_of("SELECT CASE a WHEN b THEN c ELSE d END");
    let query = query_of("SELECT CASE a WHEN b THEN c ELSE d END");
    let e = match &select_of(&query).projection[0] {
        SelectItem::UnnamedExpr(e) => e,
        other => panic!("{other:?}"),
    };
    assert_eq!(e.kind, ExprKind::Case);
    let roles: Vec<(Role, &str)> =
        e.operands.iter().map(|o| (o.role, o.expr.names[0].as_str())).collect();
    assert_eq!(roles.len(), 4);
    assert!(syntax::expr_kind(&tree).is_none());
    assert!(syntax::same_json(&tree, &copy_of(&tree)));
    assert!(!syntax::same_json(&tree, &Json::Null));
    assert!(!syntax::same_json(
        &Json::Array(vec![Json::Bool(true)]),
        &Json::Array(vec![Json::Bool(false)])
    ));
}

fn selection_of(tree: &Json) -> &Json {
    let query = json::variant_payload(tree).unwrap();
    let body = json::get_field(query, "body").unwrap();
    json::get_field(json::variant_payload(body).unwrap(), "selection").unwrap()
}

fn no_constant() -> Evaluation {
    Evaluation {
        constant: Err(SqlError::unsupported("a column".to_string())),
        oid: OidSource::Value(Ok(None)),
    }
}

fn text_constant(text: &str) -> Evaluation {
    Evaluation {
        constant: Ok(Constant {
            text: Some(text.to_string()),
            elements: None,
            column_list: None,
            truth: None,
        }),
        oid: OidSource::Value(Ok(None)),
    }
}

#[test]
fn terms_are_read_with_their_evaluations() {
    let tree = tree_of("SELECT 1 FROM columns c WHERE (c.table_name = 'orders')");
    let term = filter_reading::read_filter(
        selection_of(&tree),
        vec![no_constant(), no_constant(), no_constant(), text_constant("orders")],
        8,
    )
    .unwrap();
    assert!(matches!(term.shape, FilterShape::Nested(_)));
    assert_eq!(
        filters::string_filter_values_from_term(&term, "c", "columns", &["table_name"]).unwrap(),
        Some(vec!["orders".to_string()])
    );

    let listed = tree_of("SELECT 1 FROM t WHERE name IN ('b', 'a')");
    let term = filter_reading::read_filter(
        selection_of(&listed),
        vec![no_constant(), no_constant(), text_constant("b"), text_constant("a")],
        2,
    )
    .unwrap();
    let mut names = filters::string_filter_values_from_term(&term, "t", "t", &["name"])
        .unwrap()
        .unwrap();
    names.sort();
    assert_eq!(names, vec!["a".to_string(), "b".to_string()]);

    let matched = tree_of("SELECT 1 FROM t WHERE name ~ '^(a)$'");
    let term = filter_reading::read_filter(
        selection_of(&matched),
        vec![no_constant(), no_constant(), text_constant("^(a)$")],
        2,
    )
    .unwrap();
    assert_eq!(
        filters::regex_exact_values_from_term(&term, "t", "t", &["name"]).unwrap(),
        Some(vec!["a".to_string()])
    );

    let any = tree_of("SELECT 1 FROM t WHERE name = ANY (x)");
    let term = filter_reading::read_filter(
        selection_of(&any),
        vec![no_constant(), no_constant(), no_constant()],
        2,
    )
    .unwrap();
    assert!(matches!(term.shape, FilterShape::EqualAny(_, _)));

    let less = tree_of("SELECT 1 FROM t WHERE a < b");
    let term = filter_reading::read_filter(selection_of(&less), vec![no_constant()], 1).unwrap();
    assert!(matches!(term.shape, FilterShape::Other));
}

#[test]
fn terms_need_an_evaluation_for_each_expression() {
    let tree = tree_of("SELECT 1 FROM t WHERE a = b");
    let term = selection_of(&tree);
    let some = |count: usize| (0..count).map(|_| no_constant()).collect::<Vec<_>>();
    assert!(filter_reading::read_filter(term, some(3), 2).is_some());
    assert!(filter_reading::read_filter(term, some(2), 2).is_none());
    assert!(filter_reading::read_filter(term, some(4), 2).is_none());
    assert!(filter_reading::read_filter(term, some(3), 1).is_none());
    assert!(filter_reading::read_filter(term, some(0), 0).is_none());
}
