//! Texts that are deep or long.
use bicdb_sql::chains;
use bicdb_sql::error::{SqlError, SqlErrorKind};
use bicdb_sql::json;
use bicdb_sql::json::Json;
use bicdb_sql::limit_clauses;
use bicdb_sql::parse;
use bicdb_sql::parse::SqlLimits;

fn limits() -> SqlLimits {
    SqlLimits {
        sql_bytes: 16_777_216,
        parse_nesting_depth: 40,
        expression_depth: 500,
        expression_nodes: 100_000,
    }
}

fn sum_of(terms: usize) -> String {
    format!("SELECT 1{}", "+1".repeat(terms))
}

#[test]
fn an_expression_may_be_as_deep_as_the_limit() {
    assert!(parse::parse_statements(&sum_of(499), None, limits()).is_ok());
    let e = parse::parse_statements(&sum_of(500), None, limits()).unwrap_err();
    assert_eq!((e.kind, e.code.as_str()), (SqlErrorKind::ResourceLimit, "54001"));
    assert_eq!(
        e.message,
        "expression nests deeper than the limit of 500; simplify the query or raise \
         BICDB_MAX_EXPRESSION_DEPTH"
    );
}

#[test]
fn very_deep_expressions_are_refused_all_the_same() {
    for terms in [1_000, 20_000, 60_000] {
        let e = parse::parse_statements(&sum_of(terms), None, limits()).unwrap_err();
        assert!(e.message.starts_with("expression nests deeper"), "{}", e.message);
    }
}

#[test]
fn wide_statements_are_refused_by_their_nodes() {
    let sql = format!("SELECT 1 WHERE 1 IN (1{})", ", 1".repeat(100_000));
    let e = parse::parse_statements(&sql, None, limits()).unwrap_err();
    assert!(e.message.starts_with("statement has more than 100000 expression nodes"), "{}", e.message);
    let sql = format!("INSERT INTO t VALUES (1){}", ", (1)".repeat(20_000));
    assert!(parse::parse_statements(&sql, None, limits()).is_ok());
}

#[test]
fn every_statement_is_bounded() {
    let sum = |terms: usize| vec!["1"; terms].join("+");
    let when = |terms: usize| format!("CASE WHEN {} > 0 THEN 1 END", sum(terms));
    let texts = |terms: usize| {
        vec![
            format!("UPDATE t SET a = {}", sum(terms)),
            format!("UPDATE t SET a = 1 WHERE {} = 1", sum(terms)),
            format!("UPDATE t SET a = 1 RETURNING {}", sum(terms)),
            format!("DELETE FROM t WHERE {} = 1", sum(terms)),
            format!("DELETE FROM t RETURNING {}", sum(terms)),
            format!("INSERT INTO t VALUES ({})", sum(terms)),
            format!("INSERT INTO t VALUES (1) ON CONFLICT (a) DO UPDATE SET a = {}", sum(terms)),
            format!("INSERT INTO t VALUES (1) RETURNING {}", sum(terms)),
            format!("SELECT {}", when(terms)),
            format!("SELECT a FROM t ORDER BY {}", sum(terms)),
            format!("CREATE VIEW v AS SELECT {}", sum(terms)),
            format!("CREATE TABLE t (a int CHECK ({} > 0))", sum(terms)),
        ]
    };
    for sql in texts(490) {
        assert!(parse::parse_statements(&sql, None, limits()).is_ok(), "{}", &sql[..40]);
    }
    for sql in texts(501) {
        let e = parse::parse_statements(&sql, None, limits()).unwrap_err();
        assert_eq!((e.kind, e.code.as_str()), (SqlErrorKind::ResourceLimit, "54001"), "{}", &sql[..40]);
        assert!(e.message.starts_with("expression nests deeper"), "{}", e.message);
    }
}

#[test]
fn an_expression_in_a_subquery_is_counted_by_itself() {
    let sql = format!("SELECT 1{} + (SELECT 1{})", "+1".repeat(300), "+1".repeat(300));
    assert!(parse::parse_statements(&sql, None, limits()).is_ok());
}

#[test]
fn names_of_functions_and_types_are_no_expressions() {
    let sql = format!("UPDATE t SET a = pg_catalog.abs(1){}", "+1".repeat(498));
    assert!(parse::parse_statements(&sql, None, limits()).is_ok());
    let sql = format!("UPDATE t SET a = (1{})::int[]", "+1".repeat(490));
    assert!(parse::parse_statements(&sql, None, limits()).is_ok());
}

#[test]
fn only_what_stands_in_the_place_of_an_expression_is_counted() {
    let mut flat = limits();
    flat.expression_depth = 1;
    for sql in [
        "SELECT ARRAY(SELECT 1)",
        "SELECT 1 FROM LATERAL f(1)",
        "UPDATE t SET a = 1 FROM f(1)",
        "SHOW TABLES LIKE 'a'",
        "SELECT CAST(1 AS INTEGER[])",
        "CREATE TABLE t (a INTEGER[], b INTERVAL, c INTEGER DEFAULT 1)",
    ] {
        let parsed = parse::parse_statements(sql, None, flat);
        assert_eq!(parsed.is_ok(), !sql.contains("CAST"), "{sql}: {parsed:?}");
    }
    for sql in ["SELECT f(1)", "SELECT 1 FROM LATERAL f(1 + 1)", "SELECT ARRAY(SELECT -1)"] {
        let e = parse::parse_statements(sql, None, flat).unwrap_err();
        assert_eq!(e.code, "54001", "{sql}");
    }
}

#[test]
fn endless_chains_are_refused_whatever_they_are_made_of() {
    for term in ["+1", " AND E'\\''", " /* ' */ || 'a,(b'", "::int", " IS NULL"] {
        for count in [20_000, 400_000] {
            let sql = format!("SELECT 1{}", term.repeat(count));
            let e = parse::parse_statements(&sql, None, limits()).unwrap_err();
            assert_eq!((e.kind, e.code.as_str()), (SqlErrorKind::ResourceLimit, "54001"), "{term}");
        }
    }
}

#[test]
fn chains_of_one_token_for_each_level_are_walked() {
    let sql = format!("SELECT a{}", " NOTNULL".repeat(299_990));
    let e = parse::parse_statements(&sql, None, limits()).unwrap_err();
    assert_eq!((e.kind, e.code.as_str()), (SqlErrorKind::ResourceLimit, "54001"));
}

#[test]
fn long_texts_that_do_not_nest_are_accepted() {
    let sql = format!("SELECT 1 FROM a{}", " CROSS JOIN b".repeat(150_000));
    assert!(parse::parse_statements(&sql, None, limits()).is_ok());
    let sql = format!("SELECT CASE{} END", " WHEN 1 THEN 1".repeat(40_000));
    assert!(parse::parse_statements(&sql, None, limits()).is_ok());
}

#[test]
fn long_lists_and_long_literals_are_no_chains() {
    let sql = format!("INSERT INTO t VALUES (1, 'a'){}", ", (1, 'a')".repeat(40_000));
    assert!(parse::parse_statements(&sql, None, limits()).is_ok());
    let sql = format!("SELECT '{}'", "a + (b; ".repeat(400_000));
    assert!(parse::parse_statements(&sql, None, limits()).is_ok());
    let sql = "SELECT 1;".repeat(20_000);
    assert_eq!(parse::parse_statements(&sql, None, limits()).unwrap().len(), 20_000);
}

fn tokens(list: &[&str]) -> Vec<String> {
    list.iter().map(|token| token.to_string()).collect()
}

#[test]
fn chains_are_measured_item_by_item() {
    assert_eq!(chains::chain_length(&tokens(&[])), 0);
    assert_eq!(chains::chain_length(&tokens(&["1", " ", "+", "--x\n", "1"])), 1);
    assert_eq!(chains::chain_length(&tokens(&["1", ",", "1", "+", "1", ",", "1"])), 1);
    assert_eq!(chains::chain_length(&tokens(&["f", "(", "a", ",", "b", ")", "+", "\"c\"", ".", "'d'"])), 4);
    assert_eq!(chains::chain_length(&tokens(&["a", ",", "b", "Union", "a", ",", "b"])), 3);
    assert_eq!(chains::chain_length(&tokens(&["a", "+", "b", ";", "c"])), 3);
    assert_eq!(chains::chain_length(&tokens(&["a", "(", "b"])), 3);
    assert_eq!(chains::chain_length(&tokens(&[")", ")"])), 2);
    assert_eq!(chains::chain_length(&tokens(&["a", "Cross", "JOIN", "b", "when", "1"])), 2);
}

#[test]
fn long_texts_are_refused_before_they_are_parsed() {
    let mut small = limits();
    small.sql_bytes = 10;
    let e = parse::parse_statements("SELECT 1 + 1", None, small).unwrap_err();
    assert_eq!(e.code, "54000");
    assert!(e.message.starts_with("SQL statement is 12 bytes, over the limit of 10"), "{}", e.message);
}

#[test]
fn long_chains_of_set_operations_are_walked() {
    let sql = format!("SELECT 1{}", " UNION ALL SELECT 1".repeat(3_000));
    assert_eq!(parse::parse_statements(&sql, None, limits()).unwrap().len(), 1);
    let sql = format!("SELECT 1, 2{}", " UNION SELECT 1, 2".repeat(15_000));
    assert!(parse::parse_statements(&sql, None, limits()).is_ok());
    let sql = format!("SELECT (SELECT 1){}", ", (SELECT 1)".repeat(10_000));
    assert!(parse::parse_statements(&sql, None, limits()).is_ok());
}

fn with_query<R>(sql: &str, read: impl Fn(&Json) -> R) -> R {
    let query = parse::parse_query(sql, None, limits()).unwrap();
    read(json::variant_payload(&query.tree).unwrap())
}

#[test]
fn limits_and_offsets_are_read_off_a_query() {
    let there = |sql: &str| {
        with_query(sql, |q| {
            let (limit, offset) = limit_clauses::query_limit_and_offset(q);
            (limit.is_some(), offset.is_some())
        })
    };
    assert_eq!(there("SELECT 1"), (false, false));
    assert_eq!(there("SELECT 1 LIMIT 2"), (true, false));
    assert_eq!(there("SELECT 1 OFFSET 2"), (false, true));
    assert_eq!(there("SELECT 1 LIMIT 2 OFFSET 3"), (true, true));
    assert_eq!(there("SELECT 1 OFFSET 3 ROWS"), (false, true));
}

#[test]
fn the_limit_of_a_query_leaves_its_rows() {
    let bad = || SqlError::invalid_sql("no number".to_string());
    let left = |sql: &str, offset: Result<usize, SqlError>, limit: Result<Option<usize>, SqlError>| {
        let query = parse::parse_query(sql, None, limits()).unwrap();
        let mut rows = vec![1, 2, 3, 4, 5];
        let tree = json::variant_payload(&query.tree).unwrap();
        let r = limit_clauses::apply_query_limit(&mut rows, tree, offset, limit);
        (rows, r.err().map(|e| e.message))
    };
    assert_eq!(left("SELECT 1 LIMIT 2 OFFSET 1", Ok(1), Ok(Some(2))), (vec![2, 3], None));
    assert_eq!(left("SELECT 1 LIMIT 2", Ok(1), Ok(Some(2))), (vec![1, 2], None));
    assert_eq!(left("SELECT 1 LIMIT ALL", Ok(0), Ok(None)), (vec![1, 2, 3, 4, 5], None));
    assert_eq!(left("SELECT 1", Err(bad()), Err(bad())), (vec![1, 2, 3, 4, 5], None));
    let e = Some("no number".to_string());
    assert_eq!(left("SELECT 1 LIMIT 2 OFFSET 1", Err(bad()), Ok(None)), (vec![1, 2, 3, 4, 5], e.clone()));
    assert_eq!(left("SELECT 1 LIMIT 2 OFFSET 1", Ok(1), Err(bad())), (vec![2, 3, 4, 5], e));
    let bound = |sql: &str, offset: usize, limit: Option<usize>| {
        with_query(sql, |q| limit_clauses::query_keep_bound(q, Ok(offset), Ok(limit)).unwrap())
    };
    assert_eq!(bound("SELECT 1 LIMIT 2 OFFSET 1", 1, Some(2)), Some(3));
    assert_eq!(bound("SELECT 1 LIMIT 2 OFFSET 1", usize::MAX, Some(2)), Some(usize::MAX));
    assert_eq!(bound("SELECT 1 OFFSET 1", 1, Some(2)), None);
}
