//! Leading keywords of statements.
use bicdb_sql::scan::{leading_keyword_bypasses_raw_probes, leading_sql_keyword};

#[test]
fn first_keyword_skips_whitespace_semicolons_and_comments() {
    assert_eq!(leading_sql_keyword("CALL neword(1, 2)"), Some("CALL"));
    assert_eq!(
        leading_sql_keyword("  ;; -- note\n /* c */ update t set a=1"),
        Some("update")
    );
    assert_eq!(leading_sql_keyword("/* unterminated"), None);
    assert_eq!(leading_sql_keyword("   "), None);
    assert_eq!(leading_sql_keyword("$1"), None);
    assert_eq!(leading_sql_keyword("pg_catalog.now()"), Some("pg_catalog"));
}

#[test]
fn only_dml_and_call_bypass_the_raw_probes() {
    for sql in [
        "CALL p()",
        "insert into t values (1)",
        "UPDATE t SET a = 1",
        "delete from t",
    ] {
        assert!(leading_keyword_bypasses_raw_probes(sql), "{sql}");
    }
    for sql in [
        "SELECT 1",
        "CREATE TABLE t (a int)",
        "ANALYZE",
        "VACUUM",
        "RESET all",
        "COMMENT ON TABLE t IS 'x'",
        "DO $$ begin end $$",
        "GRANT SELECT ON t TO r",
        "MERGE MATERIALIZED AGGREGATE PROJECTION p",
        "WITH c AS (SELECT 1) INSERT INTO t SELECT * FROM c",
        "",
    ] {
        assert!(!leading_keyword_bypasses_raw_probes(sql), "{sql}");
    }
}
