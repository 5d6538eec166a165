//! Scanning, parsing and classifying statements.
use bicdb_sql::ast::Ident;
use bicdb_sql::error::SqlErrorKind;
use bicdb_sql::json::{Json, Member};
use bicdb_sql::migration::{plan_migration_sql, split_migration_sql, MigrationStatementSafety};
use bicdb_sql::parse::{parse_query, parse_statements, SqlLimits};
use bicdb_sql::precedence::restore_postgres_distinct_boolean_precedence;
use bicdb_sql::scan;
use bicdb_sql::text;
use bicdb_sql::transaction;
use bicdb_sql::transaction::{IsolationLevel, TransactionControl, TransactionMode};

fn limits() -> SqlLimits {
    SqlLimits {
        sql_bytes: 1_000_000,
        parse_nesting_depth: 200,
        expression_depth: 500,
        expression_nodes: 100_000,
    }
}

#[test]
fn spaces_are_those_of_the_standard_library() {
    for code in 0u32..0x3100 {
        if let Some(c) = char::from_u32(code) {
            assert_eq!(text::space(c), c.is_whitespace(), "{code:x}");
            assert_eq!(text::to_lower_char(c), c.to_ascii_lowercase(), "{code:x}");
            assert_eq!(text::to_upper_char(c), c.to_ascii_uppercase(), "{code:x}");
        }
    }
    assert_eq!(text::trimmed(" \u{a0}x y\t"), "x y");
    assert_eq!(text::stripped("\"\"a\"b\"", '"'), "a\"b");
}

#[test]
fn numbers_are_read_and_written_as_the_standard_library_does() {
    for n in [0u64, 7, 10, 4096, u64::MAX] {
        assert_eq!(text::decimal_text(n), n.to_string());
    }
    for n in [0i64, -1, i64::MAX, i64::MIN] {
        assert_eq!(text::signed_text(n), n.to_string());
        assert_eq!(text::parse_signed(&n.to_string()), Some(n));
    }
    for s in ["", "+", "-", "+5", "5x", "99999999999999999999", "-9223372036854775809", "007"] {
        assert_eq!(text::parse_signed(s), s.parse::<i64>().ok(), "{s}");
        assert_eq!(text::parse_unsigned(s), s.parse::<usize>().ok(), "{s}");
    }
}

#[test]
fn pieces_join_to_the_text_they_came_from() {
    for s in ["", "a", "a.b", ".a..b."] {
        let parts = text::split_on(s, '.');
        assert_eq!(parts, s.split('.').map(str::to_string).collect::<Vec<_>>());
        assert_eq!(text::join(&parts, "."), s);
    }
}

#[test]
fn statements_are_split_outside_of_quotes_and_comments() {
    assert_eq!(
        scan::split_sql_statements("select ';'; select $$a;b$$; -- c;\n select \"x;y\" /* ; */"),
        vec![
            "select ';'".to_string(),
            "select $$a;b$$".to_string(),
            "-- c;\n select \"x;y\" /* ; */".to_string(),
        ]
    );
    assert!(scan::split_sql_statements(" ; ; ").is_empty());
    assert_eq!(scan::dollar_quote_delimiter("$tag$ body $tag$"), Some("$tag$".to_string()));
    assert_eq!(scan::dollar_quote_delimiter("$1"), None);
}

#[test]
fn a_text_without_statements_splits_to_none() {
    for sql in ["", "  ;; ", "-- only a note", "/* a */ ; /* b */"] {
        assert!(scan::sql_has_no_statements(sql), "{sql}");
        assert!(scan::split_sql_statements(sql).is_empty(), "{sql}");
    }
    for sql in ["select 1", "/* a */ x", "'"] {
        assert!(!scan::sql_has_no_statements(sql), "{sql}");
        assert!(!scan::split_sql_statements(sql).is_empty(), "{sql}");
    }
}

#[test]
fn oversized_texts_are_refused() {
    assert!(scan::reject_oversized_sql("12345", 5).is_ok());
    let e = scan::reject_oversized_sql("123456", 5).unwrap_err();
    assert_eq!(e.kind, SqlErrorKind::ResourceLimit);
    assert_eq!(e.code, "54000");
    assert!(e.message.starts_with("SQL statement is 6 bytes, over the limit of 5; split it"));
    let e = scan::reject_oversized_regex("äa", 2).unwrap_err();
    assert_eq!(
        e.message,
        "regular expression pattern is 3 bytes, over the limit of 2; shorten it or raise BICDB_MAX_REGEX_PATTERN_BYTES"
    );
    assert!(scan::reject_deep_parse_nesting("((1))", 2).is_ok());
    assert!(scan::reject_deep_parse_nesting("'((('", 2).is_ok());
    let e = scan::reject_deep_parse_nesting("(((1)))", 2).unwrap_err();
    assert_eq!((e.kind, e.code.as_str()), (SqlErrorKind::ResourceLimit, "54001"));
}

#[test]
fn limits_come_from_their_settings() {
    assert_eq!(scan::max_expression_depth(None), 500);
    assert_eq!(scan::max_expression_depth(Some("12")), 12);
    assert_eq!(scan::max_expression_nodes(None), 100_000);
    assert_eq!(scan::max_expression_nodes(Some("x")), 100_000);
}

#[test]
fn statements_are_parsed_by_the_parser() {
    let parsed = parse_statements("SELECT 1; select a from t", None, limits()).unwrap();
    assert_eq!(parsed.len(), 2);
    assert_eq!(parsed[0].text, "SELECT 1");
    assert_eq!(parsed[1].text, "SELECT a FROM t");
    let parsed = parse_statements("ignored", Some("SELECT 2"), limits()).unwrap();
    assert_eq!(parsed[0].text, "SELECT 2");
    let e = parse_statements("SELECT FROM WHERE (", None, limits()).unwrap_err();
    assert_eq!(e.kind, SqlErrorKind::InvalidSql);
    let mut small = limits();
    small.sql_bytes = 3;
    assert_eq!(parse_statements("SELECT 1", None, small).unwrap_err().code, "54000");
    let mut small = limits();
    small.parse_nesting_depth = 1;
    assert_eq!(parse_statements("SELECT ((1))", None, small).unwrap_err().code, "54001");
    let mut small = limits();
    small.expression_depth = 3;
    let e = parse_statements("SELECT 1+1+1+1+1", None, small).unwrap_err();
    assert_eq!(
        e.message,
        "expression nests deeper than the limit of 3; simplify the query or raise BICDB_MAX_EXPRESSION_DEPTH"
    );
    let mut small = limits();
    small.expression_nodes = 3;
    let e = parse_statements("SELECT a IN (1,2,3,4,5)", None, small).unwrap_err();
    assert!(e.message.starts_with("statement has more than 3 expression nodes;"));
}

#[test]
fn a_query_is_the_last_statement() {
    let q = parse_query("SELECT a FROM t", None, limits()).unwrap();
    assert_eq!(q.text, "SELECT a FROM t");
    let e = parse_query("DELETE FROM t", None, limits()).unwrap_err();
    assert_eq!(e.message, "invalid view query DELETE FROM t");
}

fn object(members: Vec<(&str, Json)>) -> Json {
    Json::Object(
        members
            .into_iter()
            .map(|(name, value)| Member { name: name.to_string(), value })
            .collect(),
    )
}

#[test]
fn a_tree_without_distinct_comparisons_is_kept() {
    let tree = object(vec![("a", Json::Array(vec![Json::Number("1".to_string()), Json::Null]))]);
    let kept = restore_postgres_distinct_boolean_precedence(tree);
    match kept {
        Json::Object(members) => {
            assert_eq!(members.len(), 1);
            assert_eq!(members[0].name, "a");
            assert!(matches!(&members[0].value, Json::Array(items) if items.len() == 2));
        }
        _ => panic!("an object stays one"),
    }
}

#[test]
fn distinct_binds_tighter_than_and() {
    let parsed =
        parse_statements("SELECT a IS DISTINCT FROM b AND c", None, limits()).unwrap();
    assert_eq!(parsed[0].text, "SELECT a IS DISTINCT FROM b AND c");
    let text = format!("{:?}", parsed[0].tree);
    let and = text.find("\"And\"").expect("the conjunction is there");
    let distinct = text.find("IsDistinctFrom").expect("the comparison is there");
    assert!(text.find("BinaryOp").unwrap() < distinct, "{text}");
    assert!(and > 0);
}

#[test]
fn migrations_are_planned_statement_by_statement() {
    let plans = plan_migration_sql(
        "CREATE TABLE t (a int); INSERT INTO t VALUES (1); ALTER TABLE t ADD COLUMN b int; SELECT 1",
        None,
        limits(),
    )
    .unwrap();
    let kinds: Vec<_> = plans.iter().map(|p| (p.ordinal, p.safety)).collect();
    assert_eq!(kinds.len(), 4);
    for (i, plan) in plans.iter().enumerate() {
        assert_eq!(plan.ordinal, i + 1);
    }
    assert_eq!(plans[0].safety, MigrationStatementSafety::TransactionalDdl);
    assert_eq!(plans[1].safety, MigrationStatementSafety::NonDdl);
    assert_eq!(
        plans[1].reason,
        "DML is allowed in migrations but is row-transactional, not DDL"
    );
    let parts = split_migration_sql("CREATE TABLE t (a int);\nSELECT 1;", None, limits()).unwrap();
    assert_eq!(parts.len(), 2);
    assert!(plan_migration_sql("CREATE", None, limits()).is_err());
}

#[test]
fn transaction_modes_are_checked() {
    assert!(transaction::validate_transaction_modes(&[TransactionMode::ReadWrite]).is_ok());
    assert!(transaction::validate_transaction_modes(&[
        TransactionMode::Isolation(IsolationLevel::RepeatableRead),
        TransactionMode::ReadOnly
    ])
    .is_ok());
    let e = transaction::validate_transaction_modes(&[TransactionMode::Isolation(
        IsolationLevel::RepeatableRead,
    )])
    .unwrap_err();
    assert_eq!(e.message, "transaction isolation level REPEATABLE READ requires READ ONLY");
    let e = transaction::validate_transaction_modes(&[TransactionMode::Isolation(
        IsolationLevel::Serializable,
    )])
    .unwrap_err();
    assert_eq!(e.message, "transaction isolation level SERIALIZABLE is not supported");
    assert_eq!(e.kind, SqlErrorKind::Unsupported);
}

#[test]
fn transaction_statements_are_recognised() {
    assert!(matches!(
        transaction::parse_transaction_control("BEGIN", None, limits()),
        Ok(Some(TransactionControl::Begin))
    ));
    assert!(matches!(
        transaction::parse_transaction_control("SET TRANSACTION READ ONLY", None, limits()),
        Ok(Some(TransactionControl::SetTransaction))
    ));
    assert!(matches!(
        transaction::parse_transaction_control("SELECT 1", None, limits()),
        Ok(None)
    ));
    assert!(transaction::parse_transaction_control(
        "START TRANSACTION ISOLATION LEVEL SERIALIZABLE",
        None,
        limits()
    )
    .is_err());
    let plain = Ident { value: "Mark".to_string(), quoted: false, text: "Mark".to_string() };
    let quoted = Ident { value: "Mark".to_string(), quoted: true, text: "\"Mark\"".to_string() };
    assert_eq!(transaction::savepoint_name(&plain), "mark");
    assert_eq!(transaction::savepoint_name(&quoted), "Mark");
}

#[test]
fn texts_without_statements_split_to_none() {
    for sql in ["", "\u{b}", "\u{a0};\u{2003}", "-- a\n\u{a0}-- b", ";;/* x", " \t\r\n"] {
        assert!(scan::sql_has_no_statements(sql), "{sql:?}");
        assert!(scan::split_sql_statements(sql).is_empty(), "{sql:?}");
        assert!(!scan::has_executable_sql(sql) || sql.contains(';'), "{sql:?}");
    }
    for sql in ["x", "\u{b}x", "/**/'", "$$;$$"] {
        assert!(!scan::sql_has_no_statements(sql), "{sql:?}");
        assert_eq!(scan::split_sql_statements(sql).len(), 1, "{sql:?}");
    }
}

#[test]
fn pieces_of_a_split_split_to_themselves() {
    let sql = " SELECT ';' ; -- ;\n ; $a$ ; $a$ ; \"x;\" /* ; */ ; 'open ; ";
    let pieces = scan::split_sql_statements(sql);
    assert_eq!(pieces, vec!["SELECT ';'", "$a$ ; $a$", "\"x;\" /* ; */", "'open ;"]);
    for piece in pieces {
        assert_eq!(piece.trim(), piece);
        assert_eq!(scan::split_sql_statements(&piece), vec![piece]);
    }
}
