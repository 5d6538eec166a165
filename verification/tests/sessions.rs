//! Sessions: settings, transactions, definitions that are undone, and authority.
use std::sync::Arc;

use bicdb_sql::authority;
use bicdb_sql::authority::{CollectionIndex, RelationOwner, ViewIndexes};
use bicdb_sql::ddl::{DdlCatalog, NamedDefinition, ObjectKey, ObjectKind};
use bicdb_sql::ddl_indexes::OwnedSequence;
use bicdb_sql::ddl_session::{DdlSession, SqlSessionDdlUndoLog};
use bicdb_sql::dispatch;
use bicdb_sql::dispatch::{Action, Answer, Round, SessionStatement, StatementAction};
use bicdb_sql::error::{SqlError, SqlErrorKind};
use bicdb_sql::guc::{SqlSessionGucState, SqlSettings};
use bicdb_sql::memory;
use bicdb_sql::memory::MapUsage;
use bicdb_sql::parse;
use bicdb_sql::parse::SqlLimits;
use bicdb_sql::roles;
use bicdb_sql::roles::{Role, RoleCatalog};
use bicdb_sql::security;
use bicdb_sql::security::SecurityContext;
use bicdb_sql::session::{SessionStart, SqlSession};
use bicdb_sql::set_statements::{Assignment, ResetStatement, SetStatement};
use bicdb_sql::settings::Settings;
use bicdb_sql::statement_kinds;
use bicdb_sql::statement_transaction::{StatementEnd, StatementPlace};

fn defaults() -> SqlSettings {
    SqlSettings { vector_search: 0, ef_search: 40 }
}

fn start() -> SessionStart {
    SessionStart { catalog: DdlCatalog::new(), schema_cache_generation: 1, defaults: defaults() }
}

fn settings(list: &[(&str, &str)]) -> Settings {
    let mut s = Settings::new();
    for (name, value) in list {
        s.insert(name.to_string(), value.to_string());
    }
    s
}

fn context() -> SecurityContext {
    SecurityContext {
        tenant_id: "acme".to_string(),
        workspace_id: None,
        user_id: "u1".to_string(),
        client_id: None,
        session_id: None,
        authentication_strength: "mfa".to_string(),
        roles: vec!["reader".to_string()],
        scopes: vec![],
        policy_attributes: Settings::new(),
    }
}

fn catalog() -> RoleCatalog {
    RoleCatalog {
        roles: vec![
            roles::default_role_schema("ann"),
            roles::default_role_schema("ops"),
            Role { superuser: true, ..roles::default_role_schema("root") },
        ],
        memberships: vec![],
    }
}

#[test]
fn protected_settings_come_from_the_context_alone() {
    assert!(security::is_protected_security_setting("BICDB.Current_Tenant"));
    assert!(security::is_protected_security_setting("carrier.current_user"));
    assert!(!security::is_protected_security_setting("timezone"));
    let mut s = settings(&[("bicdb.current_tenant", "evil"), ("timezone", "UTC")]);
    security::strip_protected_security_settings(&mut s);
    assert_eq!(s.get("bicdb.current_tenant"), None);
    assert_eq!(s.get("timezone"), Some("UTC"));
    let mut s = settings(&[("bicdb.current_tenant", "evil"), ("timezone", "UTC")]);
    security::bind_trusted_security_settings(&mut s, &Some(context()));
    assert_eq!(s.get("bicdb.current_tenant"), Some("acme"));
    assert_eq!(s.get("timezone"), Some("UTC"));
    let mut again = s.copied();
    security::bind_trusted_security_settings(&mut again, &Some(context()));
    assert_eq!(again.get("bicdb.current_tenant"), Some("acme"));
    security::bind_trusted_security_settings(&mut s, &None);
    assert_eq!(s.get("bicdb.current_tenant"), None);
    let plain = Arc::new(settings(&[("timezone", "UTC")]));
    let same = security::bind_trusted_security_settings_shared(plain.clone(), &None);
    assert!(Arc::ptr_eq(&plain, &same));
    let claimed = Arc::new(settings(&[("bicdb.current_tenant", "evil"), ("timezone", "UTC")]));
    let bare = security::bind_trusted_security_settings_shared(claimed.clone(), &None);
    assert_eq!(bare.get("bicdb.current_tenant"), None);
    assert_eq!(bare.get("timezone"), Some("UTC"));
    let held = security::bind_trusted_security_settings_shared(claimed.clone(), &Some(context()));
    assert_eq!(held.get("bicdb.current_tenant"), Some("acme"));
    assert_eq!(claimed.get("bicdb.current_tenant"), Some("evil"));
    let e = security::protected_security_setting_error("bicdb.current_user");
    assert_eq!(e.kind, SqlErrorKind::Authorization);
}

#[test]
fn system_columns_and_foreign_extensions_are_refused() {
    assert!(security::reject_postgres_system_column_name("id").is_ok());
    assert!(security::reject_postgres_system_column_name("ctid").is_err());
    assert!(security::reject_postgis_extension("postgis").is_err());
    assert!(security::reject_postgis_extension("vector").is_ok());
}

#[test]
fn a_rolled_back_transaction_restores_settings() {
    let mut state =
        SqlSessionGucState::from_session_gucs(settings(&[("timezone", "UTC")]), defaults());
    state.begin_transaction(100);
    assert!(state.transaction_active());
    assert_eq!(state.transaction_timestamp(), Some(100));
    state.begin_transaction(200);
    assert_eq!(state.transaction_timestamp(), Some(100));
    state.insert_session_guc("timezone".to_string(), "CET".to_string());
    state.rollback_transaction();
    assert!(!state.transaction_active());
    assert_eq!(state.session_gucs().get("timezone"), Some("UTC"));
    state.begin_transaction(300);
    state.insert_session_guc("timezone".to_string(), "CET".to_string());
    state.commit_transaction();
    assert_eq!(state.session_gucs().get("timezone"), Some("CET"));
}

#[test]
fn local_changes_end_with_the_transaction() {
    let mut session = SqlSession::new(start());
    session.begin_guc_transaction(1);
    let change = |local: bool, value: &str| Assignment {
        local,
        setting: "timezone".to_string(),
        values: 1,
        changes: vec![("timezone".to_string(), Some(value.to_string()))],
        settings: None,
        error: None,
    };
    session.execute_set(&catalog(), &SetStatement::Single(change(true, "CET"))).unwrap();
    assert_eq!(session.session_gucs().get("timezone"), Some("CET"));
    session.commit_guc_transaction();
    assert_eq!(session.session_gucs().get("timezone"), None);
    session.begin_guc_transaction(2);
    session.execute_set(&catalog(), &SetStatement::Single(change(false, "CET"))).unwrap();
    session.commit_guc_transaction();
    assert_eq!(session.session_gucs().get("timezone"), Some("CET"));
}

#[test]
fn statements_that_set_too_much_are_refused() {
    let mut session = SqlSession::new(start());
    let two = Assignment {
        local: false,
        setting: "timezone".to_string(),
        values: 2,
        changes: vec![],
        settings: None,
        error: None,
    };
    let e = session.execute_set(&catalog(), &SetStatement::Single(two)).unwrap_err();
    assert_eq!(e.message, "SET supports one value per BicDB setting");
    let e = session
        .execute_set(&catalog(), &SetStatement::Transaction { snapshot: true, modes_error: None })
        .unwrap_err();
    assert_eq!(e.message, "transaction snapshots are not supported");
    let e = session.execute_set(&catalog(), &SetStatement::Other("SET x".to_string())).unwrap_err();
    assert_eq!(e.message, "unsupported SET statement SET x");
}

#[test]
fn resetting_everything_keeps_who_acts() {
    let mut session =
        SqlSession::new(start()).with_session_gucs(settings(&[("role", "ann"), ("timezone", "CET")]));
    let all = ResetStatement {
        written: "RESET ALL".to_string(),
        normalized: "reset all".to_string(),
        bare_name: "all".to_string(),
    };
    assert!(session.execute_raw_reset(&catalog(), &vec![all]).unwrap());
    assert_eq!(session.session_gucs().get("timezone"), None);
    assert_eq!(session.session_gucs().get("role"), Some("ann"));
    let other = ResetStatement {
        written: "SELECT 1".to_string(),
        normalized: "select 1".to_string(),
        bare_name: "".to_string(),
    };
    assert!(!session.execute_raw_reset(&catalog(), &vec![other]).unwrap());
}

#[test]
fn definitions_are_undone_with_their_transaction() {
    let mut ddl = DdlSession {
        exclusive: true,
        transaction: Some(1),
        catalog: DdlCatalog::new(),
        log: SqlSessionDdlUndoLog::new(),
    };
    let key = || ObjectKey::single(ObjectKind::Sequence, "s".to_string());
    ddl.catalog.save(key(), "first".to_string());
    let mark = ddl.log.len();
    assert!(ddl.log.is_empty());
    ddl.save_session_object(key(), "second".to_string()).unwrap();
    ddl.create_session_collection("orders").unwrap();
    ddl.delete_session_object(&key()).unwrap();
    assert_eq!(ddl.catalog.load(&key()), None);
    assert_eq!(ddl.catalog.scan_collection("orders"), Some(vec![]));
    ddl.rollback_ddl_to_len(mark).unwrap();
    assert_eq!(ddl.catalog.load(&key()).as_deref(), Some("first"));
    assert_eq!(ddl.catalog.scan_collection("orders"), None);
    assert!(ddl.log.is_empty());
}

#[test]
fn a_shared_session_changes_no_definitions() {
    let mut session = SqlSession::new_shared(start());
    let key = ObjectKey::single(ObjectKind::Sequence, "s".to_string());
    let e = session.ddl.save_session_object(key, "x".to_string()).unwrap_err();
    assert!(!e.message.is_empty());
}

#[test]
fn namespaces_are_created_once() {
    let mut ddl = DdlSession {
        exclusive: true,
        transaction: None,
        catalog: DdlCatalog::new(),
        log: SqlSessionDdlUndoLog::new(),
    };
    ddl.create_session_namespace_if_missing("app", "d".to_string(), false).unwrap();
    ddl.create_session_namespace_if_missing("app", "e".to_string(), true).unwrap();
    assert!(ddl.create_session_namespace_if_missing("app", "f".to_string(), false).is_err());
    let key = ObjectKey::single(ObjectKind::Namespace, "app".to_string());
    assert_eq!(ddl.catalog.load(&key).as_deref(), Some("d"));
}

#[test]
fn savepoints_bring_back_what_was() {
    let mut session = SqlSession::new(start()).with_pending_transaction(7);
    assert!(session.in_transaction());
    session.create_savepoint("a", 1).unwrap();
    let key = || ObjectKey::single(ObjectKind::Sequence, "s".to_string());
    session.ddl.save_session_object(key(), "x".to_string()).unwrap();
    assert_eq!(session.savepoint_place("a").unwrap(), 1);
    session.rollback_to_savepoint("a", Ok(())).unwrap();
    assert_eq!(session.ddl.catalog.load(&key()), None);
    session.release_savepoint("a").unwrap();
    assert_eq!(session.release_savepoint("a").unwrap_err().kind, SqlErrorKind::InvalidSavepoint);
    let mut idle = SqlSession::new(start());
    let e = idle.create_savepoint("a", 1).unwrap_err();
    assert_eq!(e.kind, SqlErrorKind::InvalidTransactionState);
    assert_eq!(e.message, "SAVEPOINT can only be used in transaction blocks");
}

#[test]
fn a_failed_statement_leaves_nothing_behind() {
    let mut session = SqlSession::new(start()).with_pending_transaction(7);
    let mark = session.statement_mark();
    let key = || ObjectKey::single(ObjectKind::Routine, "f".to_string());
    session.ddl.save_session_object(key(), "x".to_string()).unwrap();
    session.undo_statement(&mark).unwrap();
    assert_eq!(session.ddl.catalog.load(&key()), None);
    assert!(session.in_transaction());
    assert_eq!(session.take_pending_transaction(), Some(7));
    assert!(!session.in_transaction());
}

#[test]
fn statements_see_one_time_and_the_settings_for_it() {
    let mut session = SqlSession::new(start());
    let scope = session.start_statement(55, &None, &None);
    assert!(scope.started);
    assert_eq!(scope.timestamp, 55);
    assert_eq!(scope.timezone, "UTC");
    assert_eq!(scope.interval_style, "postgres");
    session.finish_statement(scope.started, true);
    assert!(!session.guc.transaction_active());
}

#[test]
fn an_unprivileged_session_is_no_superuser() {
    let session = SqlSession::new_unprivileged(start(), "ann");
    assert!(!session.session_user_is_superuser(&catalog()));
    assert_eq!(roles::session_user_from_gucs(session.session_gucs()), "ann");
    assert!(SqlSession::new(start()).session_user_is_superuser(&catalog()));
    let e = session.require_superuser_for_admin_operation(&catalog(), "do that").unwrap_err();
    assert_eq!(e.message, "must be superuser to do that");
    assert_eq!(e.kind, SqlErrorKind::Authorization);
}

#[test]
fn acting_as_a_role_needs_the_right_to() {
    let mut session = SqlSession::new_unprivileged(start(), "ann");
    let e = session.apply_set_role(&catalog(), "ops").unwrap_err();
    assert_eq!(e.message, "permission denied to set role \"ops\"");
    session.apply_set_role(&catalog(), "none").unwrap();
    let mut root = SqlSession::new(start());
    root.apply_set_role(&catalog(), "ann").unwrap();
    assert!(!root.current_user_is_superuser(&catalog()));
    assert!(root.session_user_is_superuser(&catalog()));
    root.apply_set_session_authorization(&catalog(), Some("ops")).unwrap();
    assert_eq!(roles::session_user_from_gucs(root.session_gucs()), "ops");
    root.apply_set_session_authorization(&catalog(), None).unwrap();
    assert_eq!(roles::session_user_from_gucs(root.session_gucs()), "bicdb");
}

#[test]
fn owners_may_change_what_is_theirs() {
    let session = SqlSession::new_unprivileged(start(), "ann");
    let mine = RelationOwner::Table(Some("ann".to_string()));
    let other = RelationOwner::Table(Some("ops".to_string()));
    assert!(session.require_table_ownership(&catalog(), "t", &mine, "drop it").is_ok());
    let e = session.require_table_ownership(&catalog(), "t", &other, "drop it").unwrap_err();
    assert_eq!(e.message, "must be owner of relation t to drop it");
}

#[test]
fn sessions_keep_what_they_are_built_with() {
    let session = SqlSession::new(start())
        .with_snapshot_floor(9)
        .with_deferred_commit()
        .with_positional_parameters(vec![Some("x".to_string()), None])
        .with_signed_mutation_grants(vec![("orders".to_string(), 4)]);
    assert_eq!(session.snapshot_floor, 9);
    assert!(session.defer_commit);
    assert_eq!(session.parameters.len(), 2);
    assert_eq!(session.parameters[0].0, "$1");
    assert_eq!(session.signed_mutation_grant("orders"), Some(4));
    assert_eq!(session.signed_mutation_grant("other"), None);
    assert_eq!(session.into_catalog_cache().schema_cache_len(), 0);
}

#[test]
fn memory_is_estimated_from_above() {
    assert_eq!(memory::conservative_hash_map_table_memory_estimate(0, 100), 0);
    assert_eq!(memory::conservative_hash_map_table_memory_estimate(3, 9), 60);
    assert_eq!(
        memory::conservative_hash_map_table_memory_estimate(usize::MAX, usize::MAX),
        usize::MAX
    );
    let usage = MapUsage { capacity: 3, entry_size: 9, keys: vec![5, 5], values: vec![1] };
    assert_eq!(memory::map_memory_estimate(&usage), 71);
}

#[test]
fn a_state_is_estimated_by_what_it_holds() {
    let settings = SqlSettings { vector_search: 0, ef_search: 1 };
    let mut gucs = Settings::new();
    gucs.insert("a".repeat(1_000), "b".repeat(5_000));
    let mut state = SqlSessionGucState::with_settings(settings, gucs);
    let size = std::mem::size_of::<SqlSessionGucState>();
    let idle = state.memory_estimate();
    assert!(idle >= size + 6_000 && idle < size + 9_000, "{idle}");
    state.begin_transaction(7);
    let active = state.memory_estimate();
    assert!(active >= size + 12_000 && active >= idle + 6_000, "{active}");
}

#[test]
fn handlers_are_asked_in_their_order() {
    let first = dispatch::execute_inner("COMMENT ON TABLE t IS 'x'", None).unwrap();
    let (round, position, _) = match first {
        Action::Ask { round, position, handler } => (round, position, handler),
        other => panic!("someone is asked first, not {other:?}"),
    };
    assert_eq!(position, 0);
    let e = || SqlError::invalid_sql("unparsed".to_string());
    assert!(matches!(
        dispatch::after_answer(round, position, Answer::Handled, e()).unwrap(),
        Action::Finished
    ));
    assert!(dispatch::after_answer(round, position, Answer::Failed(e()), e()).is_err());
    assert!(matches!(
        dispatch::after_answer(round, position, Answer::Declined, e()).unwrap(),
        Action::Ask { position: 1, .. }
    ));
    assert!(matches!(dispatch::execute_inner("  ;", None).unwrap(), Action::Empty));
    assert!(dispatch::execute_inner("SELECT 1", Some(e())).is_err());
    let (round, parts) = dispatch::execute_split_statements_with_raw_fallback("a; b");
    assert_eq!(round, Round::Split);
    assert_eq!(parts, vec!["a", "b"]);
}

#[test]
fn parsed_statements_are_carried_out_by_kind() {
    assert_eq!(
        dispatch::execute_parsed_statement(&SessionStatement::Commit, 0, true).unwrap(),
        StatementAction::Commit
    );
    assert_eq!(
        dispatch::execute_parsed_statement(&SessionStatement::Other, 0, false).unwrap(),
        StatementAction::Execute
    );
    assert!(dispatch::execute_parsed_statement(
        &SessionStatement::StartTransaction {
            modes_error: Some(SqlError::unsupported("no".to_string()))
        },
        0,
        false
    )
    .is_err());
}

fn session_in_transaction() -> SqlSession {
    SqlSession::new(start()).with_pending_transaction(7)
}

#[test]
fn a_statement_alone_begins_and_ends_its_transaction() {
    let mut s = SqlSession::new(start());
    let place = s.open_statement(Ok(9)).unwrap();
    assert!(matches!(place, StatementPlace::Began));
    assert!(s.in_transaction());
    assert_eq!(s.statement_end(&place, true), StatementEnd::Commit);
    assert_eq!(s.statement_end(&place, false), StatementEnd::Rollback);
    s.close_statement(&place, None, Ok(())).unwrap();
    assert!(!s.in_transaction());
    let place = s.open_statement(Ok(10)).unwrap();
    let own = SqlError::invalid_sql("own".to_string());
    let e = s.close_statement(&place, Some(own), Ok(())).unwrap_err();
    assert_eq!(e.message, "own");
    assert!(!s.in_transaction());
    let place = s.open_statement(Ok(11)).unwrap();
    let own = SqlError::invalid_sql("own".to_string());
    let store = Err(SqlError::invalid_sql("store".to_string()));
    assert_eq!(s.close_statement(&place, Some(own), store).unwrap_err().message, "store");
    let e = s.open_statement(Err(SqlError::invalid_sql("none".to_string()))).unwrap_err();
    assert_eq!(e.message, "none");
    assert!(!s.in_transaction());
    let mut deferred = SqlSession::new(start()).with_deferred_commit();
    let place = deferred.open_statement(Ok(12)).unwrap();
    assert_eq!(deferred.statement_end(&place, true), StatementEnd::Keep);
    deferred.close_statement(&place, None, Ok(())).unwrap();
    assert!(deferred.in_transaction());
}

#[test]
fn a_statement_in_a_transaction_leaves_it_open() {
    let mut s = session_in_transaction();
    let place = s.open_statement(Ok(9)).unwrap();
    assert!(matches!(place, StatementPlace::Marked(_)));
    s.create_savepoint("inner", 1).unwrap();
    assert_eq!(s.statement_end(&place, false), StatementEnd::UndoWrites);
    assert_eq!(s.statement_end(&place, true), StatementEnd::Keep);
    let own = SqlError::invalid_sql("own".to_string());
    assert_eq!(s.close_statement(&place, Some(own), Ok(())).unwrap_err().message, "own");
    assert!(s.in_transaction());
    assert!(s.savepoint_place("inner").is_err());
    s.close_statement(&place, None, Ok(())).unwrap();
    assert_eq!(s.take_pending_transaction(), Some(7));
}

#[test]
fn sessions_recognise_their_statements() {
    let limits = || SqlLimits {
        sql_bytes: 1000,
        parse_nesting_depth: 100,
        expression_depth: 100,
        expression_nodes: 1000,
    };
    let kind = |sql: &str| {
        let statements = parse::parse_statements(sql, None, limits()).unwrap();
        statement_kinds::session_statement(&statements[0])
    };
    assert!(matches!(kind("BEGIN"), SessionStatement::StartTransaction { modes_error: None }));
    match kind("BEGIN ISOLATION LEVEL SERIALIZABLE") {
        SessionStatement::StartTransaction { modes_error: Some(e) } => assert_eq!(
            e.message,
            "transaction isolation level SERIALIZABLE is not supported"
        ),
        _ => panic!("a start that is refused"),
    }
    assert!(matches!(kind("COMMIT"), SessionStatement::Commit));
    assert!(matches!(kind("ROLLBACK"), SessionStatement::Rollback { savepoint: None }));
    match kind("ROLLBACK TO SAVEPOINT Mark") {
        SessionStatement::Rollback { savepoint: Some(name) } => assert_eq!(name, "mark"),
        _ => panic!("back to a savepoint"),
    }
    match kind("SAVEPOINT \"Mark\"") {
        SessionStatement::Savepoint { name } => assert_eq!(name, "Mark"),
        _ => panic!("a savepoint"),
    }
    match kind("RELEASE SAVEPOINT Mark") {
        SessionStatement::ReleaseSavepoint { name } => assert_eq!(name, "mark"),
        _ => panic!("a release"),
    }
    assert!(matches!(kind("SET search_path = app"), SessionStatement::Assign));
    assert!(matches!(kind("SELECT 1"), SessionStatement::Other));
}

fn in_transaction() -> DdlSession {
    DdlSession {
        exclusive: true,
        transaction: Some(3),
        catalog: DdlCatalog::new(),
        log: SqlSessionDdlUndoLog::new(),
    }
}

#[test]
fn an_unknown_index_is_dropped_without_exclusive_access() {
    let mut s = in_transaction();
    s.exclusive = false;
    let (dropped, listing) = s.drop_session_index("idx", &vec![], false).unwrap();
    assert!(!dropped && listing.is_empty());
    assert!(s.drop_session_index("idx", &vec![], true).unwrap().0);
    s.exclusive = true;
    s.create_session_index("idx", "on orders".to_string(), SqlError::invalid_sql(String::new())).unwrap();
    s.exclusive = false;
    let e = s.drop_session_index("idx", &vec![], false).unwrap_err();
    assert_eq!(e.message, "operation requires exclusive database access");
}

#[test]
fn indexes_and_collections_come_back() {
    let mut s = in_transaction();
    s.create_session_collection("orders").unwrap();
    let duplicate = || SqlError::invalid_sql("there already".to_string());
    s.create_session_index("idx", "on orders".to_string(), duplicate()).unwrap();
    assert_eq!(
        s.create_session_index("idx", "again".to_string(), duplicate()).unwrap_err().message,
        "there already"
    );
    let mark = s.log.len();
    assert!(s.rename_session_index("idx", "idx2").unwrap());
    assert!(s.drop_session_collection("orders").unwrap());
    assert!(s.catalog.scan_collection("orders").is_none());
    s.rollback_ddl_to_len(mark).unwrap();
    assert!(s.catalog.scan_collection("orders").is_some());
    let idx = ObjectKey::single(ObjectKind::Index, "idx".to_string());
    assert_eq!(s.catalog.load(&idx).as_deref(), Some("on orders"));
    let (dropped, _) = s.drop_session_index("idx", &vec![], false).unwrap();
    assert!(dropped);
    s.rollback_ddl_to_len(0).unwrap();
    assert!(s.catalog.load(&idx).is_none());
    assert!(s.catalog.scan_collection("orders").is_none());
}

#[test]
fn owned_sequences_go_with_their_table() {
    let mut s = in_transaction();
    let definition = |name: &str| NamedDefinition {
        name: name.to_string(),
        definition: "d".to_string(),
    };
    s.save_session_sequence("a_seq", "d".to_string(), &vec![definition("grant")]).unwrap();
    s.save_session_sequence("b_seq", "d".to_string(), &vec![]).unwrap();
    s.save_session_view("v", "select 1".to_string(), &vec![]).unwrap();
    let owned = |name: &str, table: &str| OwnedSequence {
        name: name.to_string(),
        owned_by_table: Some(table.to_string()),
    };
    s.drop_owned_sequences_for_table(&vec![owned("a_seq", "Orders"), owned("b_seq", "notes")], "orders")
        .unwrap();
    let key = |name: &str| ObjectKey::single(ObjectKind::Sequence, name.to_string());
    assert!(s.catalog.load(&key("a_seq")).is_none());
    assert!(s.catalog.load(&key("b_seq")).is_some());
    s.rollback_ddl_to_len(0).unwrap();
    assert!(s.catalog.load(&key("b_seq")).is_none());
    assert!(s.log.is_empty());
}

#[test]
fn roles_are_managed_by_those_who_may() {
    let c = catalog();
    let trusted = SqlSession::new(start());
    let plain = SqlSession::new_unprivileged(start(), "ann");
    assert!(trusted.session_user_can_manage_roles(&c));
    assert!(!plain.session_user_can_manage_roles(&c));
    assert!(trusted.require_role_management_privilege(&c, "CREATE ROLE").is_ok());
    assert_eq!(
        plain.require_role_management_privilege(&c, "CREATE ROLE").unwrap_err().kind,
        SqlErrorKind::Authorization
    );
    assert!(plain.require_superuser_for_privileged_role_attributes(&c, "CREATE ROLE").is_err());
    assert!(trusted.require_superuser_for_privileged_role_attributes(&c, "CREATE ROLE").is_ok());
    let mut chief = roles::default_role_schema("chief");
    chief.superuser = true;
    assert!(plain.ensure_role_target_manageable(&c, &chief, "ALTER ROLE").is_err());
    assert!(trusted.ensure_role_target_manageable(&c, &chief, "ALTER ROLE").is_ok());
    assert!(plain.require_settable_new_owner(&c, "chief", "table t").is_err());
    assert!(trusted.require_settable_new_owner(&c, "chief", "table t").is_ok());
    let owned = RelationOwner::Table(Some("ann".to_string()));
    assert!(plain.require_relation_ownership(&c, "t", &owned, "DROP").is_ok());
    let other = RelationOwner::Table(Some("bob".to_string()));
    assert!(plain.require_relation_ownership(&c, "t", &other, "DROP").is_err());
}

#[test]
fn users_of_row_level_checks() {
    let plain = settings(&[("role", "ann")]);
    assert_eq!(
        roles::rls_check_user_from_gucs(&plain),
        roles::current_user_from_gucs(&plain)
    );
    let checked = settings(&[("role", "ann"), ("bicdb.rls_check_as", "ops")]);
    assert_eq!(roles::rls_check_user_from_gucs(&checked), "ops");
    assert!(roles::session_role_is_superuser(&catalog().roles, &settings(&[("role", "root")])));
    assert!(!roles::session_role_is_superuser(&catalog().roles, &plain));
    assert!(bicdb_sql::user_types::pg_role_is_superuser(&catalog().roles, "root"));
    assert!(!bicdb_sql::user_types::pg_role_is_superuser(&catalog().roles, "ann"));
}

#[test]
fn owners_of_indexes_and_tables_that_are_referred_to() {
    let views =
        vec![ViewIndexes { view: "totals".to_string(), indexes: vec!["by_day".to_string()] }];
    let definitions =
        vec![CollectionIndex { name: "by_name".to_string(), collection: "people".to_string() }];
    assert_eq!(
        authority::table_owning_index(&vec![], &views, &definitions, "BY_DAY").as_deref(),
        Some("totals")
    );
    assert_eq!(
        authority::table_owning_index(&vec![], &views, &definitions, "by_name").as_deref(),
        Some("people")
    );
    assert_eq!(authority::table_owning_index(&vec![], &views, &definitions, "other"), None);
    let foreign = vec!["Orders".to_string(), "people".to_string()];
    assert_eq!(
        authority::require_reference_privilege("orders", &foreign),
        vec!["people".to_string()]
    );
}

#[test]
fn everything_is_discarded_outside_of_transactions() {
    let mut session = SqlSession::new_secure(start(), context());
    assert!(session.discard_all().is_ok());
    assert_eq!(bicdb_sql::user_types::user_type_key("public", "a\"b"), "[\"public\",\"a\\\"b\"]");
}
