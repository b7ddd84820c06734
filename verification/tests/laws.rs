use aiondb_engine::engine::Engine;
use aiondb_engine::engine::EngineBuilder;
use aiondb_engine::engine::SessionHandle;
use aiondb_engine::engine::Store;
use aiondb_engine::fault::DbError;
use aiondb_engine::fault::SqlState;
use aiondb_engine::fixtures;
use aiondb_engine::harness;
use aiondb_engine::txn::CountingTransactionManager;
use aiondb_engine::txn::RecordingSavepointStorageTxnParticipant;
use aiondb_engine::txn::TxnId;
use aiondb_engine::value::Row;
use aiondb_engine::value::StatementResult;
use aiondb_engine::value::Value;

fn started() -> (Engine, SessionHandle) {
    let mut engine = EngineBuilder::for_testing().build().unwrap();
    let (session, _) = engine.startup(fixtures::startup_as("alice")).unwrap();
    (engine, session)
}

fn other(engine: &mut Engine) -> SessionHandle {
    engine.startup(fixtures::startup_as("bob")).unwrap().0
}

fn run(engine: &mut Engine, session: &SessionHandle, sql: &str) -> Vec<StatementResult> {
    engine.execute_sql(session, sql).unwrap()
}

fn fails(engine: &mut Engine, session: &SessionHandle, sql: &str) -> DbError {
    engine.execute_sql(session, sql).unwrap_err()
}

fn ints(engine: &mut Engine, session: &SessionHandle, sql: &str) -> Vec<i32> {
    harness::query_rows(engine, session, sql)
        .unwrap()
        .iter()
        .map(|row| harness::int_col(row, 0))
        .collect()
}

fn shown(engine: &mut Engine, session: &SessionHandle, name: &str) -> String {
    let rows = harness::query_rows(engine, session, &format!("SHOW {name}")).unwrap();
    harness::text_col(&rows[0], 0)
}

fn command(tag: &str, rows_affected: u64) -> StatementResult {
    StatementResult::Command {
        tag: tag.to_owned(),
        rows_affected,
    }
}

fn bools(engine: &mut Engine, session: &SessionHandle, sql: &str) -> Vec<Value> {
    harness::query_rows(engine, session, sql).unwrap()[0]
        .values
        .clone()
}

#[test]
fn the_order_of_values_is_total() {
    let (mut e, s) = started();
    assert_eq!(
        bools(&mut e, &s, "SELECT 1 < 2, 2 > 1, 'a' < 'b', 'b' > 'a', 2 = 2, 2 < 2"),
        vec![
            Value::Boolean(true),
            Value::Boolean(true),
            Value::Boolean(true),
            Value::Boolean(true),
            Value::Boolean(true),
            Value::Boolean(false),
        ]
    );
}

#[test]
fn the_order_of_values_is_transitive() {
    let (mut e, s) = started();
    assert_eq!(
        bools(&mut e, &s, "SELECT 'ab' < 'b', 'b' < 'ba', 'ab' < 'ba'"),
        vec![Value::Boolean(true); 3]
    );
}

#[test]
fn equal_texts_are_the_same_value() {
    let (mut e, s) = started();
    run(&mut e, &s, "CREATE TABLE t (a TEXT); INSERT INTO t VALUES ('x'), ('y'), ('x')");
    assert_eq!(
        ints(&mut e, &s, "SELECT 1 FROM t WHERE a = 'x'"),
        vec![1, 1]
    );
    assert_eq!(
        harness::query_rows(&mut e, &s, "SELECT DISTINCT a FROM t")
            .unwrap()
            .len(),
        2
    );
}

#[test]
fn de_morgan_holds_with_null() {
    let (mut e, s) = started();
    assert_eq!(
        bools(
            &mut e,
            &s,
            "SELECT NOT (NULL AND FALSE), (NOT NULL) OR (NOT FALSE), NOT (NULL OR FALSE)"
        ),
        vec![Value::Boolean(true), Value::Boolean(true), Value::Null]
    );
}

#[test]
fn a_quotient_and_its_remainder_give_the_dividend_back() {
    let (mut e, s) = started();
    assert_eq!(
        ints(&mut e, &s, "SELECT -7 / 2 UNION ALL SELECT -7 % 2 UNION ALL SELECT (-7 / 2) * 2 + -7 % 2"),
        vec![-3, -1, -7]
    );
}

#[test]
fn distinct_keeps_every_row_once() {
    let (mut e, s) = started();
    assert_eq!(
        ints(
            &mut e,
            &s,
            "SELECT DISTINCT a FROM (VALUES (3), (1), (3), (1)) AS v (a) ORDER BY a"
        ),
        vec![1, 3]
    );
}

#[test]
fn set_operations_hold_the_rows_that_they_should() {
    let (mut e, s) = started();
    run(&mut e, &s, "CREATE TABLE a (x INT); INSERT INTO a VALUES (1), (2), (2), (NULL)");
    run(&mut e, &s, "CREATE TABLE b (x INT); INSERT INTO b VALUES (2), (3), (NULL)");
    let count = |e: &mut Engine, sql: &str| harness::query_rows(e, &s, sql).unwrap().len();
    assert_eq!(count(&mut e, "SELECT x FROM a UNION SELECT x FROM b"), 4);
    assert_eq!(count(&mut e, "SELECT x FROM a INTERSECT SELECT x FROM b"), 2);
    assert_eq!(count(&mut e, "SELECT x FROM a EXCEPT SELECT x FROM b"), 1);
    assert_eq!(ints(&mut e, &s, "SELECT x FROM a EXCEPT SELECT x FROM b"), vec![1]);
}

#[test]
fn set_operations_with_itself() {
    let (mut e, s) = started();
    run(&mut e, &s, "CREATE TABLE a (x INT); INSERT INTO a VALUES (1), (1), (2)");
    assert_eq!(ints(&mut e, &s, "SELECT x FROM a EXCEPT SELECT x FROM a"), Vec::<i32>::new());
    assert_eq!(ints(&mut e, &s, "SELECT x FROM a UNION SELECT x FROM a ORDER BY x"), vec![1, 2]);
    assert_eq!(
        ints(&mut e, &s, "SELECT x FROM a INTERSECT SELECT x FROM a ORDER BY x"),
        vec![1, 2]
    );
}

#[test]
fn sorting_keeps_all_rows() {
    let (mut e, s) = started();
    assert_eq!(
        ints(
            &mut e,
            &s,
            "SELECT a FROM (VALUES (2), (3), (1), (2)) AS v (a) ORDER BY a DESC"
        ),
        vec![3, 2, 2, 1]
    );
}

#[test]
fn limits_cut_and_no_more() {
    let (mut e, s) = started();
    let from = "SELECT a FROM (VALUES (1), (2), (3)) AS v (a) ORDER BY a";
    assert_eq!(ints(&mut e, &s, &format!("{from} LIMIT 3 OFFSET 0")), vec![1, 2, 3]);
    assert_eq!(ints(&mut e, &s, &format!("{from} LIMIT 0")), Vec::<i32>::new());
    assert_eq!(ints(&mut e, &s, &format!("{from} LIMIT 1 OFFSET 1")), vec![2]);
    assert_eq!(ints(&mut e, &s, &format!("{from} OFFSET 5")), Vec::<i32>::new());
}

/// An engine with a superuser and two plain roles, and a table of the superuser.
fn with_roles() -> (Engine, SessionHandle, SessionHandle, SessionHandle) {
    let (mut e, s) = started();
    run(
        &mut e,
        &s,
        "CREATE ROLE alice SUPERUSER LOGIN; CREATE ROLE reader LOGIN; CREATE ROLE writer LOGIN; \
         CREATE TABLE t (a INT); INSERT INTO t VALUES (1)",
    );
    let reader = e.startup(fixtures::startup_as("reader")).unwrap().0;
    let writer = e.startup(fixtures::startup_as("writer")).unwrap().0;
    (e, s, reader, writer)
}

#[test]
fn what_was_granted_is_held() {
    let (mut e, s, reader, _) = with_roles();
    run(&mut e, &s, "GRANT SELECT ON t TO reader; GRANT INSERT ON t TO reader");
    assert_eq!(ints(&mut e, &reader, "SELECT a FROM t"), vec![1]);
    assert_eq!(run(&mut e, &reader, "INSERT INTO t VALUES (2)"), vec![command("INSERT", 1)]);
}

#[test]
fn a_second_grant_changes_nothing() {
    let (mut e, s, reader, _) = with_roles();
    run(&mut e, &s, "GRANT SELECT ON t TO reader; GRANT SELECT ON t TO reader");
    assert_eq!(ints(&mut e, &reader, "SELECT a FROM t"), vec![1]);
    run(&mut e, &s, "REVOKE SELECT ON t FROM reader");
    assert_eq!(
        fails(&mut e, &reader, "SELECT a FROM t").sqlstate(),
        SqlState::InsufficientPrivilege
    );
}

#[test]
fn what_was_revoked_is_not_held() {
    let (mut e, s, reader, _) = with_roles();
    run(&mut e, &s, "GRANT ALL PRIVILEGES ON t TO reader; REVOKE INSERT ON t FROM reader");
    assert_eq!(ints(&mut e, &reader, "SELECT a FROM t"), vec![1]);
    assert_eq!(
        fails(&mut e, &reader, "INSERT INTO t VALUES (2)").sqlstate(),
        SqlState::InsufficientPrivilege
    );
}

#[test]
fn a_grant_leaves_other_roles_alone() {
    let (mut e, s, reader, writer) = with_roles();
    run(&mut e, &s, "GRANT SELECT ON t TO reader");
    assert_eq!(ints(&mut e, &reader, "SELECT a FROM t"), vec![1]);
    assert_eq!(
        fails(&mut e, &writer, "SELECT a FROM t").sqlstate(),
        SqlState::InsufficientPrivilege
    );
}

#[test]
fn a_dropped_role_holds_nothing() {
    let (mut e, s, reader, _) = with_roles();
    run(&mut e, &s, "GRANT SELECT ON t TO reader; DROP ROLE reader; CREATE ROLE reader LOGIN");
    assert_eq!(
        fails(&mut e, &reader, "SELECT a FROM t").sqlstate(),
        SqlState::InsufficientPrivilege
    );
}

#[test]
fn identifiers_of_transactions_are_their_numbers() {
    assert!(TxnId::new(7) == TxnId::new(7));
    assert!(TxnId::new(7) != TxnId::new(8));
    assert_eq!(TxnId::new(7).get(), 7);
    assert_eq!(TxnId::default().get(), 0);
}

#[test]
fn a_rollback_to_a_savepoint_can_be_repeated() {
    let mut side = RecordingSavepointStorageTxnParticipant::default();
    let txn = TxnId::new(1);
    let first = side.create_savepoint(txn).unwrap();
    side.create_savepoint(txn).unwrap();
    assert!(side.rollback_to_savepoint(txn, first).is_ok());
    assert!(side.rollback_to_savepoint(txn, first).is_ok());
    assert_eq!(side.rolled_back(), vec![(txn, first), (txn, first)]);
}

#[test]
fn a_released_savepoint_is_gone() {
    let mut side = RecordingSavepointStorageTxnParticipant::default();
    let (one, two) = (TxnId::new(1), TxnId::new(2));
    let a = side.create_savepoint(one).unwrap();
    let b = side.create_savepoint(two).unwrap();
    assert!(side.release_savepoint(one, a).is_ok());
    assert!(side.rollback_to_savepoint(one, a).is_err());
    assert!(side.rollback_to_savepoint(two, b).is_ok());
}

#[test]
fn an_insertion_keeps_the_rows_that_were_there() {
    let (mut e, s) = started();
    run(&mut e, &s, "CREATE TABLE t (a INT); INSERT INTO t VALUES (5), (4)");
    run(&mut e, &s, "INSERT INTO t VALUES (3), (9)");
    assert_eq!(ints(&mut e, &s, "SELECT a FROM t"), vec![5, 4, 3, 9]);
}

#[test]
fn unique_columns_stay_unique() {
    let (mut e, s) = started();
    run(&mut e, &s, "CREATE TABLE t (a INT UNIQUE, b INT); INSERT INTO t VALUES (1, 1), (NULL, 2)");
    for sql in [
        "INSERT INTO t VALUES (1, 3)",
        "INSERT INTO t VALUES (2, 3), (2, 4)",
        "UPDATE t SET a = 7",
        "INSERT INTO t SELECT a, b FROM t WHERE a = 1",
    ] {
        assert_eq!(fails(&mut e, &s, sql).sqlstate(), SqlState::UniqueViolation, "{sql}");
    }
    run(&mut e, &s, "INSERT INTO t VALUES (NULL, 3); UPDATE t SET a = 7 WHERE b = 3");
    assert_eq!(ints(&mut e, &s, "SELECT a FROM t WHERE a IS NOT NULL ORDER BY a"), vec![1, 7]);
}

#[test]
fn an_accepted_password_meets_the_rules() {
    let store = started().0.into_store();
    let mut e = fixtures::password_policy_engine(6, true, true, true, true, true, store);
    let s = e.startup(fixtures::startup_as("alice")).unwrap().0;
    for weak in ["Aa1!", "aaaa1!", "AAAA1!", "Aaaaa!", "Aaaaa1"] {
        assert_eq!(
            fails(&mut e, &s, &format!("CREATE ROLE r LOGIN PASSWORD '{weak}'")).sqlstate(),
            SqlState::InvalidAuthorizationSpecification,
            "{weak}"
        );
    }
    run(&mut e, &s, "CREATE ROLE r LOGIN PASSWORD 'Aaaa1!'");
    assert!(e.role("r").unwrap().has_password);
}

#[test]
fn a_user_is_locked_out_after_as_many_failures_as_allowed() {
    let mut e = fixtures::auth_hardened_engine(2);
    let s = e.startup(fixtures::startup_as("alice")).unwrap().0;
    run(&mut e, &s, "CREATE ROLE r LOGIN PASSWORD 'secret'");
    e.set_clock(100);
    for _ in 0..2 {
        let error = e
            .startup(fixtures::startup_with_password("r", "wrong"))
            .unwrap_err();
        assert_eq!(error.sqlstate(), SqlState::InvalidAuthorizationSpecification);
    }
    let locked = e
        .startup(fixtures::startup_with_password("r", "secret"))
        .unwrap_err();
    assert_eq!(locked.sqlstate(), SqlState::TooManyAuthenticationFailures);
    e.set_clock(161);
    assert!(e.startup(fixtures::startup_with_password("r", "secret")).is_ok());
}

#[test]
fn a_success_clears_the_failures() {
    let mut e = fixtures::auth_hardened_engine(2);
    let s = e.startup(fixtures::startup_as("alice")).unwrap().0;
    run(&mut e, &s, "CREATE ROLE r LOGIN PASSWORD 'secret'");
    for _ in 0..3 {
        assert!(e.startup(fixtures::startup_with_password("r", "wrong")).is_err());
        assert!(e.startup(fixtures::startup_with_password("r", "secret")).is_ok());
    }
}

#[test]
fn a_setting_has_the_value_that_it_was_given_last() {
    let (mut e, s) = started();
    run(&mut e, &s, "SET application_name = first; SET application_name = second");
    assert_eq!(shown(&mut e, &s, "application_name"), "second");
}

#[test]
fn a_setting_leaves_the_others_alone() {
    let (mut e, s) = started();
    run(&mut e, &s, "SET application_name = app; SET TimeZone TO 'PST8PDT'");
    assert_eq!(shown(&mut e, &s, "application_name"), "app");
    assert_eq!(shown(&mut e, &s, "timezone"), "PST8PDT");
}

#[test]
fn sorted_rows_are_the_rows_in_order() {
    let mut rows = vec![
        Row::new(vec![Value::Text("b".to_owned())]),
        Row::new(vec![Value::Null]),
        Row::new(vec![Value::Text("a".to_owned())]),
        Row::new(vec![Value::Text("b".to_owned())]),
    ];
    harness::sort_rows_for_comparison(&mut rows);
    assert_eq!(
        rows,
        vec![
            Row::new(vec![Value::Null]),
            Row::new(vec![Value::Text("a".to_owned())]),
            Row::new(vec![Value::Text("b".to_owned())]),
            Row::new(vec![Value::Text("b".to_owned())]),
        ]
    );
}

#[test]
fn a_query_changes_nothing() {
    let (mut e, s) = started();
    run(&mut e, &s, "CREATE TABLE t (a INT); INSERT INTO t VALUES (1)");
    let before = e.transaction_manager().counts();
    assert_eq!(ints(&mut e, &s, "SELECT a FROM t"), vec![1]);
    assert_eq!(ints(&mut e, &s, "SELECT a FROM t"), vec![1]);
    assert_eq!(e.transaction_manager().counts(), before);
}

#[test]
fn a_failed_block_takes_nothing_but_a_way_out() {
    let (mut e, s) = started();
    run(&mut e, &s, "CREATE TABLE t (a INT); BEGIN");
    fails(&mut e, &s, "SELECT b FROM t");
    for sql in ["SELECT 1", "INSERT INTO t VALUES (1)", "SAVEPOINT x", "SHOW timezone"] {
        assert_eq!(
            fails(&mut e, &s, sql).sqlstate(),
            SqlState::InFailedSqlTransaction,
            "{sql}"
        );
    }
    assert_eq!(run(&mut e, &s, "COMMIT"), vec![command("ROLLBACK", 0)]);
    assert_eq!(ints(&mut e, &s, "SELECT 1"), vec![1]);
}

#[test]
fn a_failure_fails_the_block_and_commits_nothing() {
    let (mut e, s) = started();
    run(&mut e, &s, "CREATE TABLE t (a INT NOT NULL); BEGIN; INSERT INTO t VALUES (1)");
    assert_eq!(
        fails(&mut e, &s, "INSERT INTO t VALUES (NULL)").sqlstate(),
        SqlState::NotNullViolation
    );
    run(&mut e, &s, "ROLLBACK");
    assert_eq!(ints(&mut e, &s, "SELECT a FROM t"), Vec::<i32>::new());
}

#[test]
fn a_block_is_private_until_it_is_committed() {
    let (mut e, s) = started();
    let o = other(&mut e);
    run(&mut e, &s, "CREATE TABLE t (a INT); BEGIN; INSERT INTO t VALUES (1)");
    assert_eq!(ints(&mut e, &s, "SELECT a FROM t"), vec![1]);
    assert_eq!(ints(&mut e, &o, "SELECT a FROM t"), Vec::<i32>::new());
    assert_eq!(run(&mut e, &s, "COMMIT"), vec![command("COMMIT", 0)]);
    assert_eq!(ints(&mut e, &o, "SELECT a FROM t"), vec![1]);
}

#[test]
fn a_rollback_discards_the_work_and_the_settings() {
    let (mut e, s) = started();
    run(
        &mut e,
        &s,
        "CREATE TABLE t (a INT); SET application_name = outside; BEGIN; \
         INSERT INTO t VALUES (1); SET application_name = inside; ROLLBACK",
    );
    assert_eq!(ints(&mut e, &s, "SELECT a FROM t"), Vec::<i32>::new());
    assert_eq!(shown(&mut e, &s, "application_name"), "outside");
}

#[test]
fn a_snapshot_is_stable_and_read_committed_is_not() {
    let (mut e, s) = started();
    let o = other(&mut e);
    run(&mut e, &s, "CREATE TABLE t (a INT)");
    run(&mut e, &s, "BEGIN ISOLATION LEVEL SERIALIZABLE");
    run(&mut e, &o, "BEGIN");
    let third = other(&mut e);
    run(&mut e, &third, "INSERT INTO t VALUES (1)");
    assert_eq!(ints(&mut e, &s, "SELECT a FROM t"), Vec::<i32>::new());
    assert_eq!(ints(&mut e, &o, "SELECT a FROM t"), vec![1]);
}

#[test]
fn a_conflict_rolls_the_later_commit_back() {
    let (mut e, s) = started();
    let o = other(&mut e);
    run(&mut e, &s, "CREATE TABLE t (a INT); BEGIN; INSERT INTO t VALUES (1)");
    run(&mut e, &o, "BEGIN; INSERT INTO t VALUES (2); COMMIT");
    assert_eq!(fails(&mut e, &s, "COMMIT").sqlstate(), SqlState::SerializationFailure);
    assert_eq!(ints(&mut e, &s, "SELECT a FROM t"), vec![2]);
}

#[test]
fn a_read_only_transaction_refuses_changes() {
    let (mut e, s) = started();
    run(&mut e, &s, "CREATE TABLE t (a INT); BEGIN READ ONLY");
    for sql in ["INSERT INTO t VALUES (1)", "DROP TABLE t", "ALTER TABLE t ADD COLUMN b INT"] {
        run(&mut e, &s, "ROLLBACK; BEGIN READ ONLY");
        assert_eq!(
            fails(&mut e, &s, sql).sqlstate(),
            SqlState::ObjectNotInPrerequisiteState,
            "{sql}"
        );
    }
}

#[test]
fn set_local_needs_a_block_and_ends_with_it() {
    let (mut e, s) = started();
    let before = shown(&mut e, &s, "application_name");
    let results = run(&mut e, &s, "SET LOCAL application_name = gone");
    assert_eq!(results.len(), 2);
    assert_eq!(
        results[0],
        StatementResult::Notice {
            message: "SET LOCAL can only be used in transaction blocks".to_owned(),
        }
    );
    assert_eq!(shown(&mut e, &s, "application_name"), before);
    run(&mut e, &s, "BEGIN; SET LOCAL application_name = here");
    assert_eq!(shown(&mut e, &s, "application_name"), "here");
    run(&mut e, &s, "COMMIT");
    assert_eq!(shown(&mut e, &s, "application_name"), before);
}

#[test]
fn a_rollback_to_a_savepoint_brings_back_what_there_was() {
    let (mut e, s) = started();
    run(&mut e, &s, "CREATE TABLE t (a INT); BEGIN; INSERT INTO t VALUES (1); SAVEPOINT sp");
    for _ in 0..2 {
        run(&mut e, &s, "INSERT INTO t VALUES (2); SET application_name = later");
        fails(&mut e, &s, "SELECT nothing FROM t");
        run(&mut e, &s, "ROLLBACK TO SAVEPOINT sp");
        assert_eq!(ints(&mut e, &s, "SELECT a FROM t"), vec![1]);
        assert_eq!(shown(&mut e, &s, "application_name"), "test");
    }
}

#[test]
fn a_release_keeps_the_work() {
    let (mut e, s) = started();
    run(
        &mut e,
        &s,
        "CREATE TABLE t (a INT); BEGIN; SAVEPOINT sp; INSERT INTO t VALUES (1); RELEASE sp",
    );
    assert_eq!(ints(&mut e, &s, "SELECT a FROM t"), vec![1]);
    assert_eq!(
        fails(&mut e, &s, "ROLLBACK TO SAVEPOINT sp").sqlstate(),
        SqlState::InvalidSavepointSpecification
    );
}

#[test]
fn savepoints_inside_a_savepoint_leave_it_in_its_place() {
    let (mut e, s) = started();
    run(&mut e, &s, "CREATE TABLE t (a INT); BEGIN; INSERT INTO t VALUES (1); SAVEPOINT sp");
    run(
        &mut e,
        &s,
        "INSERT INTO t VALUES (2); SAVEPOINT b; INSERT INTO t VALUES (3); SAVEPOINT c; \
         INSERT INTO t VALUES (4); RELEASE SAVEPOINT c; ROLLBACK TO SAVEPOINT b",
    );
    assert_eq!(ints(&mut e, &s, "SELECT a FROM t ORDER BY a"), vec![1, 2]);
    run(&mut e, &s, "ROLLBACK TO SAVEPOINT sp");
    assert_eq!(ints(&mut e, &s, "SELECT a FROM t"), vec![1]);
    run(
        &mut e,
        &s,
        "SAVEPOINT b; INSERT INTO t VALUES (5); RELEASE SAVEPOINT b; RELEASE SAVEPOINT sp; COMMIT",
    );
    assert_eq!(ints(&mut e, &s, "SELECT a FROM t ORDER BY a"), vec![1, 5]);
}

#[test]
fn failures_are_kept_at_their_path() {
    let mut e = fixtures::durable_lockout_engine(1, "first".to_owned(), Store::new());
    let s = e.startup(fixtures::startup_as("alice")).unwrap().0;
    run(&mut e, &s, "CREATE ROLE r LOGIN PASSWORD 'secret'");
    e.set_clock(100);
    assert!(e.startup(fixtures::startup_with_password("r", "wrong")).is_err());
    let mut elsewhere = fixtures::durable_lockout_engine(1, "second".to_owned(), e.into_store());
    elsewhere.set_clock(100);
    assert!(elsewhere.startup(fixtures::startup_with_password("r", "secret")).is_ok());
    let mut back =
        fixtures::durable_lockout_engine(1, "first".to_owned(), elsewhere.into_store());
    back.set_clock(100);
    let locked = back
        .startup(fixtures::startup_with_password("r", "secret"))
        .unwrap_err();
    assert_eq!(locked.sqlstate(), SqlState::TooManyAuthenticationFailures);
}

#[test]
fn a_new_text_changes_no_row() {
    let (mut e, s) = started();
    run(&mut e, &s, "CREATE TABLE t (a TEXT); INSERT INTO t VALUES ('ab')");
    for _ in 0..2 {
        assert_eq!(
            bools(&mut e, &s, "SELECT UPPER(a), a || UPPER(a) || 'c', a FROM t"),
            vec![
                Value::Text("AB".to_owned()),
                Value::Text("abABc".to_owned()),
                Value::Text("ab".to_owned()),
            ]
        );
    }
}

#[test]
fn transactions_are_balanced() {
    let mut e = EngineBuilder::for_testing()
        .with_transaction_manager(CountingTransactionManager::default())
        .build()
        .unwrap();
    let s = e.startup(fixtures::startup_as("alice")).unwrap().0;
    run(&mut e, &s, "CREATE TABLE t (a INT)");
    run(&mut e, &s, "BEGIN; INSERT INTO t VALUES (1); ROLLBACK");
    fails(&mut e, &s, "INSERT INTO t VALUES ('x')");
    assert_eq!(e.transaction_manager().counts(), (3, 1, 2));
    run(&mut e, &s, "BEGIN");
    assert_eq!(e.transaction_manager().counts(), (4, 1, 2));
}

#[test]
fn a_single_statement_is_a_transaction_of_its_own() {
    let (mut e, s) = started();
    run(&mut e, &s, "CREATE TABLE t (a INT)");
    let (begins, commits, rollbacks) = e.transaction_manager().counts();
    run(&mut e, &s, "INSERT INTO t VALUES (1)");
    assert_eq!(
        e.transaction_manager().counts(),
        (begins + 1, commits + 1, rollbacks)
    );
    assert_eq!(e.current_txn_id(&s).unwrap(), TxnId::default());
}

#[test]
fn a_batch_that_fails_commits_nothing() {
    let (mut e, s) = started();
    run(&mut e, &s, "CREATE TABLE t (a INT)");
    fails(&mut e, &s, "INSERT INTO t VALUES (1); INSERT INTO t VALUES (1 / 0)");
    assert_eq!(ints(&mut e, &s, "SELECT a FROM t"), Vec::<i32>::new());
    assert_eq!(e.current_txn_id(&s).unwrap(), TxnId::default());
}

#[test]
fn sessions_are_separate() {
    let (mut e, s) = started();
    let o = other(&mut e);
    run(&mut e, &o, "SET application_name = mine; BEGIN");
    let txn = e.current_txn_id(&o).unwrap();
    run(&mut e, &s, "SET application_name = yours; BEGIN; ROLLBACK");
    assert_eq!(e.current_txn_id(&o).unwrap(), txn);
    assert_eq!(shown(&mut e, &o, "application_name"), "mine");
}

#[test]
fn a_session_that_is_not_there_is_answered_with_an_error() {
    let (mut e, s) = started();
    e.terminate(s).unwrap();
    assert_eq!(
        e.execute_sql(&s, "SELECT 1").unwrap_err().sqlstate(),
        SqlState::ConnectionDoesNotExist
    );
    assert!(e.terminate(s).is_err());
}

fn cursor_rows(engine: &mut Engine, session: &SessionHandle) {
    run(
        engine,
        session,
        "CREATE TABLE t (a INT); INSERT INTO t VALUES (1), (2), (3), (4); BEGIN; \
         DECLARE c CURSOR FOR SELECT a FROM t ORDER BY a",
    );
}

#[test]
fn a_cursor_stays_within_its_rows() {
    let (mut e, s) = started();
    cursor_rows(&mut e, &s);
    assert_eq!(ints(&mut e, &s, "FETCH PRIOR c"), Vec::<i32>::new());
    assert_eq!(run(&mut e, &s, "MOVE 10 IN c"), vec![command("MOVE 4", 0)]);
    assert_eq!(ints(&mut e, &s, "FETCH NEXT c"), Vec::<i32>::new());
    assert_eq!(ints(&mut e, &s, "FETCH PRIOR c"), vec![4]);
    assert_eq!(run(&mut e, &s, "MOVE BACKWARD ALL IN c"), vec![command("MOVE 3", 0)]);
    assert_eq!(ints(&mut e, &s, "FETCH NEXT c"), vec![1]);
}

#[test]
fn fetching_in_parts_gives_the_same_rows() {
    let (mut e, s) = started();
    cursor_rows(&mut e, &s);
    assert_eq!(ints(&mut e, &s, "FETCH 1 c"), vec![1]);
    assert_eq!(ints(&mut e, &s, "FETCH FORWARD 2 c"), vec![2, 3]);
    run(&mut e, &s, "MOVE BACKWARD ALL IN c");
    assert_eq!(ints(&mut e, &s, "FETCH 3 c"), vec![1, 2, 3]);
    assert_eq!(ints(&mut e, &s, "FETCH NEXT c"), vec![4]);
}

#[test]
fn fetching_all_gives_all_rows_either_way() {
    let (mut e, s) = started();
    cursor_rows(&mut e, &s);
    assert_eq!(ints(&mut e, &s, "FETCH ALL IN c"), vec![1, 2, 3, 4]);
    assert_eq!(ints(&mut e, &s, "FETCH BACKWARD ALL IN c"), vec![4, 3, 2, 1]);
}

#[test]
fn going_forward_and_back_comes_to_the_next_row() {
    let (mut e, s) = started();
    cursor_rows(&mut e, &s);
    assert_eq!(ints(&mut e, &s, "FETCH 1 c"), vec![1]);
    run(&mut e, &s, "MOVE 3 IN c; MOVE BACKWARD 2 IN c");
    assert_eq!(ints(&mut e, &s, "FETCH NEXT c"), vec![3]);
}

#[test]
fn the_parts_of_a_portal_add_up() {
    let (mut e, s) = started();
    cursor_rows(&mut e, &s);
    run(&mut e, &s, "COMMIT");
    e.prepare(&s, "q".to_owned(), "SELECT a FROM t ORDER BY a".to_owned())
        .unwrap();
    e.bind(&s, "p".to_owned(), "q".to_owned(), vec![]).unwrap();
    let mut rows = Vec::new();
    let mut exhausted = false;
    while !exhausted {
        let batch = e.execute_portal(&s, "p", 3).unwrap();
        exhausted = batch.exhausted;
        rows.extend(batch.rows);
    }
    e.bind(&s, "all".to_owned(), "q".to_owned(), vec![]).unwrap();
    let batch = e.execute_portal(&s, "all", 0).unwrap();
    assert_eq!(batch.tag, "SELECT 4");
    assert!(batch.exhausted);
    assert_eq!(batch.rows, rows);
}

#[test]
fn the_end_of_a_block_closes_its_portals_and_no_others() {
    let (mut e, s) = started();
    e.prepare(&s, "q".to_owned(), "SELECT 1".to_owned()).unwrap();
    e.bind(&s, "before".to_owned(), "q".to_owned(), vec![]).unwrap();
    run(&mut e, &s, "BEGIN; DECLARE c CURSOR FOR SELECT 1");
    e.bind(&s, "inside".to_owned(), "q".to_owned(), vec![]).unwrap();
    run(&mut e, &s, "COMMIT");
    assert_eq!(
        e.execute_portal(&s, "inside", 0).unwrap_err().sqlstate(),
        SqlState::UndefinedObject
    );
    assert_eq!(
        fails(&mut e, &s, "FETCH c").sqlstate(),
        SqlState::InvalidCursorName
    );
    assert_eq!(e.execute_portal(&s, "before", 0).unwrap().tag, "SELECT 1");
}

#[test]
fn a_rollback_to_a_savepoint_closes_later_cursors() {
    let (mut e, s) = started();
    run(
        &mut e,
        &s,
        "BEGIN; DECLARE early CURSOR FOR SELECT 1; SAVEPOINT sp; \
         DECLARE late CURSOR FOR SELECT 2; ROLLBACK TO sp",
    );
    assert_eq!(ints(&mut e, &s, "FETCH early"), vec![1]);
    assert_eq!(
        fails(&mut e, &s, "FETCH late").sqlstate(),
        SqlState::InvalidCursorName
    );
}

#[test]
fn a_portal_executes_its_statement_once() {
    let (mut e, s) = started();
    run(&mut e, &s, "CREATE TABLE t (a INT); INSERT INTO t VALUES (1), (2)");
    e.prepare(&s, "q".to_owned(), "SELECT a FROM t".to_owned()).unwrap();
    e.bind(&s, "p".to_owned(), "q".to_owned(), vec![]).unwrap();
    assert_eq!(e.execute_portal(&s, "p", 1).unwrap().rows.len(), 1);
    run(&mut e, &s, "DELETE FROM t");
    let rest = e.execute_portal(&s, "p", 0).unwrap();
    assert_eq!(rest.rows, vec![Row::new(vec![Value::Int(2)])]);
    assert_eq!(rest.tag, "SELECT 2");
}

#[test]
fn prepared_statements_stay() {
    let (mut e, s) = started();
    e.prepare(&s, "q".to_owned(), "SELECT 1 AS x".to_owned()).unwrap();
    run(&mut e, &s, "BEGIN; COMMIT; BEGIN; ROLLBACK");
    let d = e.describe_statement(&s, "q").unwrap();
    assert_eq!(harness::column_names(&d.result_columns), ["x"]);
}

#[test]
fn rows_fit_their_columns() {
    let (mut e, s) = started();
    run(&mut e, &s, "CREATE TABLE t (a INT, b BIGINT, c TEXT, d BOOLEAN NOT NULL)");
    run(&mut e, &s, "INSERT INTO t VALUES ('7', 8, 'x', TRUE); UPDATE t SET b = '9', a = b");
    let rows = harness::query_rows(&mut e, &s, "SELECT * FROM t").unwrap();
    assert_eq!(
        rows,
        vec![Row::new(vec![
            Value::Int(8),
            Value::BigInt(9),
            Value::Text("x".to_owned()),
            Value::Boolean(true),
        ])]
    );
    assert_eq!(
        fails(&mut e, &s, "INSERT INTO t VALUES (1, 2, 3, TRUE)").sqlstate(),
        SqlState::DatatypeMismatch
    );
    assert_eq!(
        fails(&mut e, &s, "INSERT INTO t (a) VALUES (1)").sqlstate(),
        SqlState::NotNullViolation
    );
}

#[test]
fn a_deletion_leaves_the_other_rows() {
    let (mut e, s) = started();
    run(&mut e, &s, "CREATE TABLE t (a INT UNIQUE); INSERT INTO t VALUES (1), (2), (3)");
    assert_eq!(run(&mut e, &s, "DELETE FROM t WHERE a = 2"), vec![command("DELETE", 1)]);
    assert_eq!(ints(&mut e, &s, "SELECT a FROM t"), vec![1, 3]);
    run(&mut e, &s, "INSERT INTO t VALUES (2)");
    assert_eq!(ints(&mut e, &s, "SELECT a FROM t"), vec![1, 3, 2]);
}

#[test]
fn a_dropped_column_takes_nothing_with_it() {
    let (mut e, s) = started();
    run(
        &mut e,
        &s,
        "CREATE TABLE t (a INT, b INT, c INT UNIQUE); INSERT INTO t VALUES (1, 2, 3), (4, 5, 6)",
    );
    assert_eq!(
        run(&mut e, &s, "ALTER TABLE t DROP COLUMN b"),
        vec![command("ALTER TABLE", 0)]
    );
    let rows = harness::query_rows(&mut e, &s, "SELECT * FROM t").unwrap();
    assert_eq!(
        rows,
        vec![
            Row::new(vec![Value::Int(1), Value::Int(3)]),
            Row::new(vec![Value::Int(4), Value::Int(6)]),
        ]
    );
    assert_eq!(
        fails(&mut e, &s, "INSERT INTO t VALUES (7, 3)").sqlstate(),
        SqlState::UniqueViolation
    );
    run(&mut e, &s, "ALTER TABLE t ADD COLUMN b INT DEFAULT 9");
    assert_eq!(ints(&mut e, &s, "SELECT b FROM t"), vec![9, 9]);
}

#[test]
fn nothing_is_there_twice() {
    let (mut e, s) = started();
    run(&mut e, &s, "CREATE TABLE t (a INT); CREATE SCHEMA x; CREATE SEQUENCE q; CREATE ROLE alice SUPERUSER");
    for (sql, state) in [
        ("CREATE TABLE t (a INT)", SqlState::DuplicateTable),
        ("CREATE TABLE u (a INT, a INT)", SqlState::DuplicateColumn),
        ("ALTER TABLE t ADD COLUMN a INT", SqlState::DuplicateColumn),
        ("CREATE SCHEMA x", SqlState::DuplicateSchema),
        ("CREATE SEQUENCE q", SqlState::DuplicateTable),
        ("CREATE ROLE alice", SqlState::DuplicateObject),
    ] {
        assert_eq!(fails(&mut e, &s, sql).sqlstate(), state, "{sql}");
    }
}

#[test]
fn an_ended_session_leaves_nothing_open() {
    let (mut e, s) = started();
    let o = other(&mut e);
    run(&mut e, &s, "CREATE TABLE t (a INT)");
    run(&mut e, &o, "BEGIN; INSERT INTO t VALUES (1)");
    e.terminate(o).unwrap();
    assert_eq!(ints(&mut e, &s, "SELECT a FROM t"), Vec::<i32>::new());
    let (begins, commits, rollbacks) = e.transaction_manager().counts();
    assert_eq!(begins, commits + rollbacks);
}

#[test]
fn a_store_outlives_its_engine() {
    let (mut e, s) = started();
    run(&mut e, &s, "CREATE TABLE t (a INT); INSERT INTO t VALUES (1); BEGIN; DELETE FROM t");
    let mut later = EngineBuilder::for_testing()
        .with_store(e.into_store())
        .build()
        .unwrap();
    let s = later.startup(fixtures::startup_as("alice")).unwrap().0;
    assert_eq!(ints(&mut later, &s, "SELECT a FROM t"), vec![1]);
}

#[test]
fn a_dropped_schema_is_empty() {
    let (mut e, s) = started();
    run(
        &mut e,
        &s,
        "CREATE SCHEMA x CREATE TABLE t (a INT) CREATE TABLE x.u (a INT); CREATE SEQUENCE x.q; \
         CREATE TABLE t (a INT); CREATE SEQUENCE q",
    );
    assert!(e.sees_table(&s, "x", "t").unwrap());
    assert!(e.sees_table(&s, "x", "u").unwrap());
    assert_eq!(run(&mut e, &s, "DROP SCHEMA x CASCADE"), vec![command("DROP SCHEMA", 0)]);
    assert!(!e.has_schema("x"));
    assert!(e.has_schema("public"));
    assert!(!e.sees_table(&s, "x", "t").unwrap());
    assert!(!e.sees_table(&s, "x", "u").unwrap());
    assert!(e.sees_table(&s, "public", "t").unwrap());
    run(&mut e, &s, "DROP SEQUENCE q; DROP SCHEMA IF EXISTS x");
    run(&mut e, &s, "CREATE SCHEMA x; CREATE SEQUENCE x.q; BEGIN; DROP SEQUENCE x.q; DROP SCHEMA x");
    assert!(e.has_schema("x"));
    run(&mut e, &s, "COMMIT");
    assert!(!e.has_schema("x"));
}

#[test]
fn a_schema_that_fails_leaves_nothing() {
    let (mut e, s) = started();
    fails(&mut e, &s, "CREATE SCHEMA x CREATE TABLE t (a INT) CREATE TABLE t (a INT)");
    assert!(!e.has_schema("x"));
    assert!(!e.sees_table(&s, "x", "t").unwrap());
}

#[test]
fn a_role_whose_tables_went_has_none() {
    let (mut e, alice, r, _) = with_roles();
    let second = e.startup(fixtures::startup_as("reader")).unwrap().0;
    run(&mut e, &r, "CREATE TABLE mine (a INT); CREATE TABLE also (a INT)");
    fails(&mut e, &second, "REASSIGN OWNED BY reader TO alice");
    run(&mut e, &alice, "REASSIGN OWNED BY reader TO alice");
    fails(&mut e, &r, "DROP TABLE mine");
    assert!(e.sees_table(&alice, "public", "mine").unwrap());
    run(&mut e, &r, "CREATE TABLE third (a INT)");
    assert_eq!(run(&mut e, &alice, "DROP OWNED BY reader"), vec![command("DROP OWNED", 0)]);
    assert!(!e.sees_table(&alice, "public", "third").unwrap());
    assert!(e.sees_table(&alice, "public", "also").unwrap());
}
