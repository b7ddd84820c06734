use aiondb_engine::auth::StartupParams;
use aiondb_engine::engine::EngineBuilder;
use aiondb_engine::fixtures::startup_as;
use aiondb_engine::txn::CountingTransactionManager;

fn startup_params() -> StartupParams {
    startup_as("alice")
}

#[test]
fn autocommit_read_only_select_skips_implicit_transaction_runtime() {
    let tx_manager = CountingTransactionManager::default();
    let mut engine = EngineBuilder::for_testing()
        .with_transaction_manager(tx_manager)
        .build()
        .unwrap();
    let (session, _) = engine.startup(startup_params()).expect("startup");

    engine
        .execute_sql(
            &session,
            "CREATE TABLE readonly_fast_path (id INT NOT NULL); \
             INSERT INTO readonly_fast_path VALUES (1), (2), (3)",
        )
        .expect("setup");
    let after_setup = engine.transaction_manager().counts();
    assert_eq!(after_setup.0, after_setup.1);
    assert_eq!(after_setup.2, 0);

    engine
        .execute_sql(&session, "SELECT COUNT(*) FROM readonly_fast_path")
        .expect("read-only select");
    assert_eq!(
        engine.transaction_manager().counts(),
        after_setup,
        "pure autocommit SELECT should not allocate and commit a transaction"
    );

    engine
        .execute_sql(&session, "INSERT INTO readonly_fast_path VALUES (4)")
        .expect("write");
    let after_write = engine.transaction_manager().counts();
    assert_eq!(after_write.0, after_setup.0 + 1);
    assert_eq!(after_write.1, after_setup.1 + 1);
    assert_eq!(after_write.2, 0);
}

#[test]
fn multi_statement_dml_batch_uses_one_implicit_transaction() {
    let tx_manager = CountingTransactionManager::default();
    let mut engine = EngineBuilder::for_testing()
        .with_transaction_manager(tx_manager)
        .build()
        .unwrap();
    let (session, _) = engine.startup(startup_params()).expect("startup");

    engine
        .execute_sql(&session, "CREATE TABLE dml_batch (id INT PRIMARY KEY)")
        .expect("create table");
    let before_batch = engine.transaction_manager().counts();

    engine
        .execute_sql(
            &session,
            "DELETE FROM dml_batch WHERE id = 100; INSERT INTO dml_batch VALUES (1)",
        )
        .expect("dml batch");

    let after_batch = engine.transaction_manager().counts();
    assert_eq!(after_batch.0, before_batch.0 + 1);
    assert_eq!(after_batch.1, before_batch.1 + 1);
    assert_eq!(after_batch.2, before_batch.2);
}
