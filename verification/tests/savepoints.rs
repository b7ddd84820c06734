use aiondb_engine::auth::StartupParams;
use aiondb_engine::datum::DataType;
use aiondb_engine::engine::Engine;
use aiondb_engine::engine::EngineBuilder;
use aiondb_engine::engine::SessionHandle;
use aiondb_engine::fault::SqlState;
use aiondb_engine::fixtures::startup_as;
use aiondb_engine::harness;
use aiondb_engine::txn::CatalogSide;
use aiondb_engine::txn::FailingCreateCatalogTxnParticipant;
use aiondb_engine::txn::FailingReleaseCatalogTxnParticipant;
use aiondb_engine::txn::FailingRollbackCatalogTxnParticipant;
use aiondb_engine::txn::RecordingSavepointStorageTxnParticipant;
use aiondb_engine::txn::StorageSide;
use aiondb_engine::txn::TxnId;
use aiondb_engine::value::ResultColumn;
use aiondb_engine::value::Row;
use aiondb_engine::value::StatementResult;
use aiondb_engine::value::Value;

fn startup_params() -> StartupParams {
    startup_as("alice")
}

fn query_rows(engine: &mut Engine, session: &SessionHandle, sql: &str) -> Vec<Row> {
    harness::query_rows(engine, session, sql).expect("query rows")
}

#[test]
fn savepoint_within_transaction_succeeds() {
    let mut engine = EngineBuilder::for_testing().build().unwrap();
    let (session, _) = engine.startup(startup_params()).expect("startup");

    engine
        .execute_sql(&session, "CREATE TABLE t (id INT, name TEXT)")
        .expect("create");
    engine.execute_sql(&session, "BEGIN").expect("begin");

    let result = engine
        .execute_sql(&session, "SAVEPOINT sp1")
        .expect("savepoint");
    assert_eq!(
        result,
        vec![StatementResult::Command {
            tag: "SAVEPOINT".to_owned(),
            rows_affected: 0,
        }]
    );
}

#[test]
fn savepoint_create_cleans_up_storage_if_catalog_create_fails() {
    let storage_txn = RecordingSavepointStorageTxnParticipant::default();
    let catalog_txn = CatalogSide::FailingCreate(FailingCreateCatalogTxnParticipant::default());
    let mut engine = EngineBuilder::for_testing()
        .with_storage_txn(storage_txn)
        .with_catalog_txn(catalog_txn)
        .build()
        .expect("build engine");
    let (session, _) = engine.startup(startup_params()).expect("startup");

    engine.execute_sql(&session, "BEGIN").expect("begin");
    let txn_id = engine.current_txn_id(&session).expect("txn id");

    let error = engine
        .execute_sql(&session, "SAVEPOINT sp1")
        .expect_err("catalog savepoint create should fail");
    assert!(error
        .report()
        .message
        .contains("forced catalog savepoint create failure"));
    let StorageSide::Recording(storage_txn) = engine.storage_txn() else {
        panic!("expected the recording storage side");
    };
    assert_eq!(storage_txn.created(), vec![(txn_id, 0)]);
    assert_eq!(storage_txn.released(), vec![(txn_id, 0)]);
}

#[test]
fn rollback_to_savepoint_aborts_transaction_if_catalog_rollback_fails() {
    let storage_txn = RecordingSavepointStorageTxnParticipant::default();
    let catalog_txn = CatalogSide::FailingRollback(FailingRollbackCatalogTxnParticipant::default());
    let mut engine = EngineBuilder::for_testing()
        .with_storage_txn(storage_txn)
        .with_catalog_txn(catalog_txn)
        .build()
        .expect("build engine");
    let (session, _) = engine.startup(startup_params()).expect("startup");

    engine.execute_sql(&session, "BEGIN").expect("begin");
    let txn_id = engine.current_txn_id(&session).expect("txn id");
    engine
        .execute_sql(&session, "SAVEPOINT sp1")
        .expect("create user savepoint");

    let error = engine
        .execute_sql(&session, "ROLLBACK TO SAVEPOINT sp1")
        .expect_err("catalog rollback should fail");
    assert!(error
        .report()
        .message
        .contains("forced catalog savepoint rollback failure"));
    assert!(error
        .report()
        .client_detail
        .as_deref()
        .unwrap_or_default()
        .contains(
            "transaction was rolled back because ROLLBACK TO SAVEPOINT could not be completed"
        ));
    let StorageSide::Recording(storage_txn) = engine.storage_txn() else {
        panic!("expected the recording storage side");
    };
    let CatalogSide::FailingRollback(catalog_txn) = engine.catalog_txn() else {
        panic!("expected the catalog side that refuses rollbacks");
    };
    assert_eq!(storage_txn.created(), vec![(txn_id, 0)]);
    assert_eq!(storage_txn.rolled_back(), vec![(txn_id, 0)]);
    assert!(storage_txn.released().is_empty());
    assert!(catalog_txn.released().is_empty());
    assert_eq!(storage_txn.rolled_back_txns(), vec![txn_id]);
    assert_eq!(catalog_txn.rolled_back_txns(), vec![txn_id]);
    assert_eq!(
        engine.current_txn_id(&session).expect("txn id"),
        TxnId::default()
    );
    engine
        .execute_sql(&session, "BEGIN")
        .expect("session remains usable");
}

#[test]
fn release_savepoint_reports_partial_success_if_catalog_release_fails() {
    let storage_txn = RecordingSavepointStorageTxnParticipant::default();
    let catalog_txn = CatalogSide::FailingRelease(FailingReleaseCatalogTxnParticipant::default());
    let mut engine = EngineBuilder::for_testing()
        .with_storage_txn(storage_txn)
        .with_catalog_txn(catalog_txn)
        .build()
        .expect("build engine");
    let (session, _) = engine.startup(startup_params()).expect("startup");

    engine.execute_sql(&session, "BEGIN").expect("begin");
    let txn_id = engine.current_txn_id(&session).expect("txn id");
    engine
        .execute_sql(&session, "SAVEPOINT sp1")
        .expect("create savepoint");

    let error = engine
        .execute_sql(&session, "RELEASE SAVEPOINT sp1")
        .expect_err("catalog release should fail");
    let StorageSide::Recording(storage_txn) = engine.storage_txn() else {
        panic!("expected the recording storage side");
    };
    assert_eq!(storage_txn.released(), vec![(txn_id, 0)]);
    assert_eq!(
        error.report().client_detail.as_deref(),
        Some("savepoint release may already have partially succeeded")
    );
    assert_eq!(
        error.report().client_hint.as_deref(),
        Some("ROLLBACK the transaction if you need a clean savepoint state")
    );

    let rollback_error = engine
        .execute_sql(&session, "ROLLBACK TO SAVEPOINT sp1")
        .expect_err("released savepoint should not remain in session state");
    assert!(rollback_error
        .report()
        .message
        .contains("savepoint \"sp1\" does not exist"));

    let release_error = engine
        .execute_sql(&session, "RELEASE SAVEPOINT sp1")
        .expect_err("released savepoint should not be releasable twice");
    assert!(release_error
        .report()
        .message
        .contains("current transaction is aborted"));
}

#[test]
fn savepoint_outside_transaction_fails() {
    let mut engine = EngineBuilder::for_testing().build().unwrap();
    let (session, _) = engine.startup(startup_params()).expect("startup");

    let error = engine
        .execute_sql(&session, "SAVEPOINT sp1")
        .expect_err("expected error");
    assert_eq!(
        error.sqlstate(),
        SqlState::NoActiveSqlTransaction
    );
}

#[test]
fn rollback_to_savepoint_undoes_inserts() {
    let mut engine = EngineBuilder::for_testing().build().unwrap();
    let (session, _) = engine.startup(startup_params()).expect("startup");

    engine
        .execute_sql(&session, "CREATE TABLE t (id INT)")
        .expect("create");
    engine.execute_sql(&session, "BEGIN").expect("begin");
    engine
        .execute_sql(&session, "INSERT INTO t VALUES (1)")
        .expect("insert 1");

    engine
        .execute_sql(&session, "SAVEPOINT sp1")
        .expect("savepoint");

    engine
        .execute_sql(&session, "INSERT INTO t VALUES (2)")
        .expect("insert 2");

    // Both rows should be visible before rollback.
    let before = engine
        .execute_sql(&session, "SELECT id FROM t")
        .expect("select before");
    assert_eq!(
        before,
        vec![StatementResult::Query {
            columns: vec![ResultColumn {
                name: "id".to_owned(),
                data_type: DataType::Int,
                text_type_modifier: None,
                nullable: true,
            }],
            rows: vec![
                Row::new(vec![Value::Int(1)]),
                Row::new(vec![Value::Int(2)]),
            ],
        }]
    );

    engine
        .execute_sql(&session, "ROLLBACK TO SAVEPOINT sp1")
        .expect("rollback to sp1");

    // Only the first row should remain after rollback to savepoint.
    let after = engine
        .execute_sql(&session, "SELECT id FROM t")
        .expect("select after");
    assert_eq!(
        after,
        vec![StatementResult::Query {
            columns: vec![ResultColumn {
                name: "id".to_owned(),
                data_type: DataType::Int,
                text_type_modifier: None,
                nullable: true,
            }],
            rows: vec![Row::new(vec![Value::Int(1)])],
        }]
    );

    engine.commit_transaction(&session).expect("commit");
}

#[test]
fn release_savepoint_preserves_work() {
    let mut engine = EngineBuilder::for_testing().build().unwrap();
    let (session, _) = engine.startup(startup_params()).expect("startup");

    engine
        .execute_sql(&session, "CREATE TABLE t (id INT)")
        .expect("create");
    engine.execute_sql(&session, "BEGIN").expect("begin");

    engine
        .execute_sql(&session, "SAVEPOINT sp1")
        .expect("savepoint");
    engine
        .execute_sql(&session, "INSERT INTO t VALUES (1)")
        .expect("insert");

    let result = engine
        .execute_sql(&session, "RELEASE SAVEPOINT sp1")
        .expect("release");
    assert_eq!(
        result,
        vec![StatementResult::Command {
            tag: "RELEASE".to_owned(),
            rows_affected: 0,
        }]
    );

    // After release, the insert should still be visible.
    let rows = engine
        .execute_sql(&session, "SELECT id FROM t")
        .expect("select");
    assert!(matches!(
        &rows[0],
        StatementResult::Query { rows, .. } if rows.len() == 1
    ));

    engine.commit_transaction(&session).expect("commit");
}

#[test]
fn released_savepoint_cannot_be_rolled_back_to() {
    let mut engine = EngineBuilder::for_testing().build().unwrap();
    let (session, _) = engine.startup(startup_params()).expect("startup");

    engine
        .execute_sql(&session, "CREATE TABLE t (id INT)")
        .expect("create");
    engine.execute_sql(&session, "BEGIN").expect("begin");
    engine
        .execute_sql(&session, "SAVEPOINT sp1")
        .expect("savepoint");
    engine
        .execute_sql(&session, "RELEASE SAVEPOINT sp1")
        .expect("release");

    let error = engine
        .execute_sql(&session, "ROLLBACK TO SAVEPOINT sp1")
        .expect_err("expected error");
    assert_eq!(
        error.sqlstate(),
        SqlState::InvalidSavepointSpecification
    );
}

#[test]
fn nested_savepoints() {
    let mut engine = EngineBuilder::for_testing().build().unwrap();
    let (session, _) = engine.startup(startup_params()).expect("startup");

    engine
        .execute_sql(&session, "CREATE TABLE t (id INT)")
        .expect("create");
    engine.execute_sql(&session, "BEGIN").expect("begin");

    engine
        .execute_sql(&session, "INSERT INTO t VALUES (1)")
        .expect("insert 1");
    engine
        .execute_sql(&session, "SAVEPOINT sp1")
        .expect("savepoint sp1");

    engine
        .execute_sql(&session, "INSERT INTO t VALUES (2)")
        .expect("insert 2");
    engine
        .execute_sql(&session, "SAVEPOINT sp2")
        .expect("savepoint sp2");

    engine
        .execute_sql(&session, "INSERT INTO t VALUES (3)")
        .expect("insert 3");

    // Three rows visible.
    let three_rows = engine
        .execute_sql(&session, "SELECT id FROM t")
        .expect("select 3 rows");
    assert!(matches!(
        &three_rows[0],
        StatementResult::Query { rows, .. } if rows.len() == 3
    ));

    // Rollback to sp2 -- removes the third row only.
    engine
        .execute_sql(&session, "ROLLBACK TO SAVEPOINT sp2")
        .expect("rollback to sp2");

    let two_rows = engine
        .execute_sql(&session, "SELECT id FROM t")
        .expect("select 2 rows");
    assert!(matches!(
        &two_rows[0],
        StatementResult::Query { rows, .. } if rows.len() == 2
    ));

    // Rollback to sp1 -- removes the second row.
    engine
        .execute_sql(&session, "ROLLBACK TO SAVEPOINT sp1")
        .expect("rollback to sp1");

    let one_row = engine
        .execute_sql(&session, "SELECT id FROM t")
        .expect("select 1 row");
    assert!(matches!(
        &one_row[0],
        StatementResult::Query { rows, .. } if rows.len() == 1
    ));

    engine.commit_transaction(&session).expect("commit");
}

#[test]
fn rollback_to_savepoint_outside_transaction_fails() {
    let mut engine = EngineBuilder::for_testing().build().unwrap();
    let (session, _) = engine.startup(startup_params()).expect("startup");

    let error = engine
        .execute_sql(&session, "ROLLBACK TO SAVEPOINT sp1")
        .expect_err("expected error");
    assert_eq!(
        error.sqlstate(),
        SqlState::NoActiveSqlTransaction
    );
}

#[test]
fn release_savepoint_outside_transaction_fails() {
    let mut engine = EngineBuilder::for_testing().build().unwrap();
    let (session, _) = engine.startup(startup_params()).expect("startup");

    let error = engine
        .execute_sql(&session, "RELEASE SAVEPOINT sp1")
        .expect_err("expected error");
    assert_eq!(
        error.sqlstate(),
        SqlState::NoActiveSqlTransaction
    );
}

#[test]
fn rollback_to_nonexistent_savepoint_fails() {
    let mut engine = EngineBuilder::for_testing().build().unwrap();
    let (session, _) = engine.startup(startup_params()).expect("startup");

    engine.execute_sql(&session, "BEGIN").expect("begin");

    let error = engine
        .execute_sql(&session, "ROLLBACK TO SAVEPOINT noexist")
        .expect_err("expected error");
    assert_eq!(
        error.sqlstate(),
        SqlState::InvalidSavepointSpecification
    );
}

#[test]
fn release_nonexistent_savepoint_fails() {
    let mut engine = EngineBuilder::for_testing().build().unwrap();
    let (session, _) = engine.startup(startup_params()).expect("startup");

    engine.execute_sql(&session, "BEGIN").expect("begin");

    let error = engine
        .execute_sql(&session, "RELEASE SAVEPOINT noexist")
        .expect_err("expected error");
    assert_eq!(
        error.sqlstate(),
        SqlState::InvalidSavepointSpecification
    );
}

#[test]
fn rollback_to_savepoint_can_be_repeated() {
    let mut engine = EngineBuilder::for_testing().build().unwrap();
    let (session, _) = engine.startup(startup_params()).expect("startup");

    engine
        .execute_sql(&session, "CREATE TABLE t (id INT)")
        .expect("create");
    engine.execute_sql(&session, "BEGIN").expect("begin");
    engine
        .execute_sql(&session, "SAVEPOINT sp1")
        .expect("savepoint");

    // First batch of work.
    engine
        .execute_sql(&session, "INSERT INTO t VALUES (1)")
        .expect("insert 1");
    engine
        .execute_sql(&session, "ROLLBACK TO SAVEPOINT sp1")
        .expect("first rollback");

    let empty = engine
        .execute_sql(&session, "SELECT id FROM t")
        .expect("select empty");
    assert!(matches!(
        &empty[0],
        StatementResult::Query { rows, .. } if rows.is_empty()
    ));

    // Second batch of work.
    engine
        .execute_sql(&session, "INSERT INTO t VALUES (2)")
        .expect("insert 2");
    engine
        .execute_sql(&session, "ROLLBACK TO SAVEPOINT sp1")
        .expect("second rollback");

    let empty_again = engine
        .execute_sql(&session, "SELECT id FROM t")
        .expect("select empty again");
    assert!(matches!(
        &empty_again[0],
        StatementResult::Query { rows, .. } if rows.is_empty()
    ));

    engine.commit_transaction(&session).expect("commit");
}

#[test]
fn commit_clears_savepoints() {
    let mut engine = EngineBuilder::for_testing().build().unwrap();
    let (session, _) = engine.startup(startup_params()).expect("startup");

    engine
        .execute_sql(&session, "CREATE TABLE t (id INT)")
        .expect("create");
    engine.execute_sql(&session, "BEGIN").expect("begin");
    engine
        .execute_sql(&session, "SAVEPOINT sp1")
        .expect("savepoint");
    engine
        .execute_sql(&session, "INSERT INTO t VALUES (1)")
        .expect("insert");
    engine.execute_sql(&session, "COMMIT").expect("commit");

    // Start a new transaction -- old savepoint should not exist.
    engine.execute_sql(&session, "BEGIN").expect("begin 2");
    let error = engine
        .execute_sql(&session, "ROLLBACK TO SAVEPOINT sp1")
        .expect_err("expected error");
    assert_eq!(
        error.sqlstate(),
        SqlState::InvalidSavepointSpecification
    );
}

#[test]
fn rollback_clears_savepoints() {
    let mut engine = EngineBuilder::for_testing().build().unwrap();
    let (session, _) = engine.startup(startup_params()).expect("startup");

    engine.execute_sql(&session, "BEGIN").expect("begin");
    engine
        .execute_sql(&session, "SAVEPOINT sp1")
        .expect("savepoint");
    engine.execute_sql(&session, "ROLLBACK").expect("rollback");

    // Start a new transaction -- old savepoint should not exist.
    engine.execute_sql(&session, "BEGIN").expect("begin 2");
    let error = engine
        .execute_sql(&session, "ROLLBACK TO SAVEPOINT sp1")
        .expect_err("expected error");
    assert_eq!(
        error.sqlstate(),
        SqlState::InvalidSavepointSpecification
    );
}

#[test]
fn savepoint_with_table_creation_rollback() {
    let mut engine = EngineBuilder::for_testing().build().unwrap();
    let (session, _) = engine.startup(startup_params()).expect("startup");

    engine.execute_sql(&session, "BEGIN").expect("begin");
    engine
        .execute_sql(&session, "SAVEPOINT sp1")
        .expect("savepoint");

    engine
        .execute_sql(&session, "CREATE TABLE new_table (id INT)")
        .expect("create table");
    let within = engine
        .execute_sql(&session, "SELECT id FROM new_table")
        .expect("query within savepoint");
    assert!(matches!(
        &within[0],
        StatementResult::Query { rows, .. } if rows.is_empty()
    ));

    engine
        .execute_sql(&session, "ROLLBACK TO SAVEPOINT sp1")
        .expect("rollback to sp1");

    let txn_id = engine
        .current_txn_id(&session)
        .expect("txn id after rollback");
    assert_ne!(
        txn_id,
        TxnId::default(),
        "rollback to savepoint should keep the outer transaction active"
    );
    assert!(
        !engine
            .sees_table(&session, "public", "new_table")
            .expect("catalog lookup after rollback"),
        "catalog savepoint rollback should discard the created table"
    );

    // The table created within the savepoint should no longer exist.
    let error = engine
        .execute_sql(&session, "SELECT id FROM new_table")
        .expect_err("table should not exist");
    assert_eq!(error.sqlstate(), SqlState::UndefinedTable);
}

#[test]
fn rollback_to_savepoint_restores_session_variables_and_limits() {
    let mut engine = EngineBuilder::for_testing().build().unwrap();
    let (session, _) = engine.startup(startup_params()).expect("startup");

    engine.execute_sql(&session, "BEGIN").expect("begin");
    engine
        .execute_sql(&session, "SET application_name = outer_app")
        .expect("set outer application_name");
    engine
        .execute_sql(&session, "SET statement_timeout = 1000")
        .expect("set outer statement_timeout");
    engine
        .execute_sql(&session, "SAVEPOINT sp1")
        .expect("savepoint");

    engine
        .execute_sql(&session, "SET application_name = inner_app")
        .expect("set inner application_name");
    engine
        .execute_sql(&session, "SET statement_timeout = 5000")
        .expect("set inner statement_timeout");

    engine
        .execute_sql(&session, "ROLLBACK TO SAVEPOINT sp1")
        .expect("rollback to savepoint");

    assert_eq!(
        engine
            .session_variable(&session, "application_name")
            .expect("inspect restored session state")
            .as_deref(),
        Some("outer_app")
    );
    assert_eq!(
        engine
            .session_variable(&session, "statement_timeout")
            .expect("inspect restored session state")
            .as_deref(),
        Some("1000")
    );
    assert_eq!(
        std::time::Duration::from_millis(
            engine
                .session_info(&session)
                .expect("inspect restored session state")
                .limits
                .statement_timeout
        ),
        std::time::Duration::from_secs(1)
    );
}

#[test]
fn rollback_to_savepoint_restores_set_local_override() {
    let mut engine = EngineBuilder::for_testing().build().unwrap();
    let (session, _) = engine.startup(startup_params()).expect("startup");

    engine.execute_sql(&session, "BEGIN").expect("begin");
    engine
        .execute_sql(&session, "SET LOCAL statement_timeout = 1000")
        .expect("set local outer timeout");
    engine
        .execute_sql(&session, "SAVEPOINT sp1")
        .expect("savepoint");
    engine
        .execute_sql(&session, "SET LOCAL statement_timeout = 5000")
        .expect("set local inner timeout");

    let info = engine.session_info(&session).expect("session info");
    assert_eq!(
        std::time::Duration::from_millis(info.limits.statement_timeout),
        std::time::Duration::from_secs(5)
    );

    engine
        .execute_sql(&session, "ROLLBACK TO SAVEPOINT sp1")
        .expect("rollback to savepoint");

    let info = engine.session_info(&session).expect("session info");
    assert_eq!(
        std::time::Duration::from_millis(info.limits.statement_timeout),
        std::time::Duration::from_secs(1)
    );
    let rows = query_rows(&mut engine, &session, "SHOW statement_timeout");
    assert_eq!(rows[0].values[0], Value::Text("1000".to_owned()));
}

#[test]
fn rollback_to_savepoint_restores_pending_notices() {
    let mut engine = EngineBuilder::for_testing().build().unwrap();
    let (session, _) = engine.startup(startup_params()).expect("startup");

    engine.execute_sql(&session, "BEGIN").expect("begin");
    engine
        .push_notice(&session, "outer notice")
        .expect("seed outer notice");
    engine
        .execute_sql(&session, "SAVEPOINT sp1")
        .expect("savepoint");
    engine
        .push_notice(&session, "inner notice")
        .expect("seed inner notice");

    let results = engine
        .execute_sql(&session, "ROLLBACK TO SAVEPOINT sp1")
        .expect("rollback to savepoint");
    assert_eq!(
        results,
        vec![
            StatementResult::Notice {
                message: "outer notice".to_owned()
            },
            StatementResult::Command {
                tag: "ROLLBACK".to_owned(),
                rows_affected: 0,
            },
        ]
    );

    let notices = engine
        .drain_pending_notices(&session)
        .expect("drain pending notices");
    assert!(notices.is_empty());
}
