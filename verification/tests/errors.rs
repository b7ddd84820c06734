use aiondb_engine::engine::Engine;
use aiondb_engine::engine::EngineBuilder;
use aiondb_engine::engine::SessionHandle;
use aiondb_engine::fault::DbError;
use aiondb_engine::fault::SqlState;
use aiondb_engine::fixtures;
use aiondb_engine::portal::LimitsConfig;
use aiondb_engine::security::RuntimeConfig;
use aiondb_engine::txn::CatalogSide;
use aiondb_engine::txn::FailingCreateCatalogTxnParticipant;
use aiondb_engine::txn::FailingReleaseCatalogTxnParticipant;
use aiondb_engine::txn::FailingRollbackCatalogTxnParticipant;
use aiondb_engine::txn::RecordingSavepointStorageTxnParticipant;
use aiondb_engine::value::Value;

fn start(mut engine: Engine) -> (Engine, SessionHandle) {
    let (session, _) = engine.startup(fixtures::startup_as("alice")).unwrap();
    (engine, session)
}

fn started() -> (Engine, SessionHandle) {
    let (mut e, s) = start(EngineBuilder::for_testing().build().unwrap());
    e.execute_sql(
        &s,
        "CREATE TABLE t (a INT, b TEXT); CREATE TABLE u (a INT NOT NULL UNIQUE, c BOOLEAN); \
         INSERT INTO t VALUES (1, 'x'), (2, 'y'); INSERT INTO u VALUES (1, TRUE)",
    )
    .unwrap();
    (e, s)
}

fn check(error: DbError, state: SqlState, message: &str) {
    assert_eq!(error.report().message, message);
    assert_eq!(error.sqlstate(), state, "{message}");
}

fn refused(sql: &str, state: SqlState, message: &str) {
    let (mut e, s) = started();
    check(e.execute_sql(&s, sql).unwrap_err(), state, message);
}

#[test]
fn texts_that_cannot_be_read() {
    refused("SELECT ?", SqlState::SyntaxError, "syntax error at an unexpected character");
    refused("SELECT 'x", SqlState::SyntaxError, "unterminated quoted text");
    refused("SELECT 1 /* x", SqlState::SyntaxError, "unterminated comment");
    refused(
        "SELECT 99999999999999999999",
        SqlState::NumericValueOutOfRange,
        "number is out of range",
    );
    refused("SELECT 1.5", SqlState::FeatureNotSupported, "decimal numbers are not supported");
    refused("SELECT FROM WHERE", SqlState::SyntaxError, "syntax error at token 1");
    refused("SELECT 1 SELECT 2", SqlState::SyntaxError, "syntax error at token 2");
    refused(
        &format!("SELECT {}1{}", "(".repeat(100), ")".repeat(100)),
        SqlState::ProgramLimitExceeded,
        "statement is nested too deeply",
    );
    refused(
        "REVOKE GRANT OPTION FOR SELECT ON t FROM alice",
        SqlState::FeatureNotSupported,
        "REVOKE GRANT OPTION FOR is not supported",
    );
}

#[test]
fn names_that_mean_nothing() {
    refused(
        "SELECT * FROM missing",
        SqlState::UndefinedTable,
        "relation \"missing\" does not exist",
    );
    refused(
        "SELECT * FROM x.t",
        SqlState::UndefinedTable,
        "relation \"x.t\" does not exist",
    );
    refused("SELECT z FROM t", SqlState::UndefinedColumn, "column \"z\" does not exist");
    refused("SELECT t.z FROM t", SqlState::UndefinedColumn, "column \"t.z\" does not exist");
    refused(
        "SELECT nofunc(1)",
        SqlState::UndefinedFunction,
        "function \"nofunc\" does not exist",
    );
    refused(
        "SELECT a FROM t, u",
        SqlState::AmbiguousColumn,
        "column reference \"a\" is ambiguous",
    );
    refused(
        "CREATE TABLE x.t (a INT)",
        SqlState::InvalidSchemaName,
        "schema \"x\" does not exist",
    );
    refused(
        "DROP SEQUENCE q",
        SqlState::UndefinedObject,
        "sequence \"q\" does not exist",
    );
    refused("DROP ROLE r", SqlState::UndefinedObject, "role \"r\" does not exist");
    refused(
        "SHOW nothing",
        SqlState::UndefinedObject,
        "unrecognized configuration parameter \"nothing\"",
    );
}

#[test]
fn names_that_are_taken() {
    refused(
        "CREATE TABLE t (a INT)",
        SqlState::DuplicateTable,
        "relation \"t\" already exists",
    );
    refused(
        "CREATE TABLE v (a INT, a INT)",
        SqlState::DuplicateColumn,
        "column \"a\" specified more than once",
    );
    refused(
        "INSERT INTO t (a, a) VALUES (1, 2)",
        SqlState::DuplicateColumn,
        "column \"a\" specified more than once",
    );
    refused(
        "CREATE SCHEMA public",
        SqlState::DuplicateSchema,
        "schema \"public\" already exists",
    );
    refused(
        "CREATE ROLE alice SUPERUSER; CREATE ROLE alice",
        SqlState::DuplicateObject,
        "role \"alice\" already exists",
    );
}

#[test]
fn types_that_do_not_match() {
    let operator = "operator does not exist for the types of its operands";
    refused("SELECT 1 + 'x'", SqlState::UndefinedFunction, operator);
    refused("SELECT 1 = TRUE", SqlState::UndefinedFunction, operator);
    refused("SELECT TRUE::INT", SqlState::UndefinedFunction, operator);
    refused(
        "SELECT 1 FROM t WHERE a",
        SqlState::DatatypeMismatch,
        "argument of a condition must be type boolean",
    );
    refused(
        "INSERT INTO t VALUES (TRUE, 'x')",
        SqlState::DatatypeMismatch,
        "column \"a\" is of another type than its expression",
    );
    refused(
        "SELECT CASE WHEN TRUE THEN 1 ELSE 'x' END",
        SqlState::DatatypeMismatch,
        "types of the alternatives cannot be matched",
    );
    refused(
        "SELECT 1 UNION SELECT TRUE",
        SqlState::DatatypeMismatch,
        "types of the alternatives cannot be matched",
    );
}

#[test]
fn queries_that_make_no_sense() {
    refused(
        "SELECT a, COUNT(*) FROM t",
        SqlState::GroupingError,
        "column \"t.a\" must appear in the GROUP BY clause or be used in an aggregate function",
    );
    refused(
        "SELECT 1 FROM t WHERE COUNT(*) > 1",
        SqlState::GroupingError,
        "aggregate functions are not allowed here",
    );
    refused(
        "SELECT (SELECT a FROM t)",
        SqlState::CardinalityViolation,
        "more than one row returned by a subquery used as an expression",
    );
    refused(
        "SELECT (SELECT a, b FROM t)",
        SqlState::SyntaxError,
        "subquery must return only one column",
    );
    refused(
        "SELECT 1 UNION SELECT 1, 2",
        SqlState::SyntaxError,
        "each query of a set operation must have the same number of columns",
    );
    refused(
        "VALUES (1), (1, 2)",
        SqlState::SyntaxError,
        "VALUES lists must all be the same length",
    );
    refused(
        "SELECT a FROM t ORDER BY 2",
        SqlState::SyntaxError,
        "ORDER BY position is not in the select list",
    );
    refused(
        "SELECT DEFAULT",
        SqlState::SyntaxError,
        "DEFAULT is not allowed in this context",
    );
    refused(
        "SELECT $1",
        SqlState::UndefinedParameter,
        "parameterized statements must be prepared before execution",
    );
}

#[test]
fn windows_that_have_no_place() {
    for sql in [
        "SELECT a FROM t WHERE ROW_NUMBER() OVER () = 1",
        "SELECT COUNT(*), RANK() OVER (ORDER BY 1) FROM t",
        "SELECT a FROM t GROUP BY a, LAG(a) OVER ()",
        "UPDATE t SET a = SUM(a) OVER ()",
        "DELETE FROM t; DELETE FROM t WHERE RANK() OVER () = 1",
        "SELECT 1 FROM t JOIN u ON RANK() OVER () = 1",
        "SELECT SUM(RANK() OVER ()) FROM t",
        "VALUES (RANK() OVER ())",
    ] {
        refused(
            sql,
            SqlState::FeatureNotSupported,
            "window functions are not allowed here",
        );
    }
    refused(
        "SELECT SUM(b) OVER () FROM t",
        SqlState::UndefinedFunction,
        "operator does not exist for the types of its operands",
    );
}

#[test]
fn transactions_that_were_not_prepared() {
    refused(
        "COMMIT PREPARED 'g'",
        SqlState::UndefinedObject,
        "prepared transaction with identifier \"g\" does not exist",
    );
    refused(
        "ROLLBACK PREPARED 'g'",
        SqlState::UndefinedObject,
        "prepared transaction with identifier \"g\" does not exist",
    );
}

#[test]
fn schemas_that_are_refused() {
    refused(
        "CREATE SCHEMA x; CREATE SEQUENCE x.q; DROP SCHEMA x RESTRICT",
        SqlState::DependentObjectsStillExist,
        "cannot drop schema \"x\" because other objects depend on it",
    );
    refused(
        "DROP SCHEMA x",
        SqlState::InvalidSchemaName,
        "schema \"x\" does not exist",
    );
    refused(
        "CREATE SCHEMA x CREATE TABLE y.t (a INT)",
        SqlState::InvalidSchemaName,
        "CREATE specifies a schema (y) different from the one being created (x)",
    );
    refused(
        "CREATE ROLE r LOGIN; CREATE SCHEMA x",
        SqlState::InsufficientPrivilege,
        "permission denied: must be superuser",
    );
    refused(
        "CREATE ROLE r LOGIN; DROP OWNED BY r",
        SqlState::InsufficientPrivilege,
        "permission denied: must be superuser",
    );
    refused(
        "CREATE TRANSFORM x",
        SqlState::FeatureNotSupported,
        "unsupported compatibility command: CREATE TRANSFORM",
    );
    assert_eq!(SqlState::DependentObjectsStillExist.code(), "2BP01");
}

#[test]
fn parts_of_negative_length() {
    refused(
        "SELECT SUBSTRING('abc', 1, -1)",
        SqlState::InvalidParameterValue,
        "negative substring length not allowed",
    );
}

#[test]
fn values_that_cannot_be() {
    refused("SELECT 1 / 0", SqlState::DivisionByZero, "division by zero");
    refused("SELECT 1 % 0", SqlState::DivisionByZero, "division by zero");
    refused(
        "SELECT 2147483647 + 1",
        SqlState::NumericValueOutOfRange,
        "integer out of range",
    );
    refused(
        "SELECT 'x1'::INT",
        SqlState::InvalidTextRepresentation,
        "invalid input syntax for a number: \"x1\"",
    );
    refused(
        "INSERT INTO u VALUES (NULL, TRUE)",
        SqlState::NotNullViolation,
        "null value in column \"a\" violates not-null constraint",
    );
    refused(
        "INSERT INTO u VALUES (1, TRUE)",
        SqlState::UniqueViolation,
        "duplicate key value violates unique constraint on column \"a\"",
    );
    refused(
        "INSERT INTO t (a) VALUES (1, 2)",
        SqlState::SyntaxError,
        "INSERT does not have as many expressions as target columns",
    );
}

#[test]
fn transactions_that_refuse() {
    for tag in ["SAVEPOINT", "ROLLBACK TO SAVEPOINT", "RELEASE SAVEPOINT"] {
        refused(
            &format!("{tag} sp"),
            SqlState::NoActiveSqlTransaction,
            &format!("{tag} can only be used in transaction blocks"),
        );
    }
    refused(
        "BEGIN; ROLLBACK TO sp",
        SqlState::InvalidSavepointSpecification,
        "savepoint \"sp\" does not exist",
    );
    refused(
        "BEGIN READ ONLY; UPDATE t SET a = 1",
        SqlState::ObjectNotInPrerequisiteState,
        "cannot execute UPDATE in a read-only transaction",
    );
    let (mut e, s) = started();
    e.execute_sql(&s, "BEGIN").unwrap();
    e.execute_sql(&s, "SELECT z").unwrap_err();
    check(
        e.execute_sql(&s, "SELECT 1").unwrap_err(),
        SqlState::InFailedSqlTransaction,
        "current transaction is aborted, commands ignored until end of transaction block",
    );
    e.execute_sql(&s, "ROLLBACK; BEGIN; DELETE FROM t").unwrap();
    let o = e.startup(fixtures::startup_as("bob")).unwrap().0;
    e.execute_sql(&o, "INSERT INTO t VALUES (3, 'z')").unwrap();
    check(
        e.execute_sql(&s, "COMMIT").unwrap_err(),
        SqlState::SerializationFailure,
        "could not serialize access due to a concurrent update",
    );
}

#[test]
fn privileges_that_are_missing() {
    let (mut e, s) = started();
    e.execute_sql(&s, "CREATE ROLE alice SUPERUSER LOGIN; CREATE ROLE bob LOGIN")
        .unwrap();
    let bob = e.startup(fixtures::startup_as("bob")).unwrap().0;
    check(
        e.execute_sql(&bob, "SELECT * FROM t").unwrap_err(),
        SqlState::InsufficientPrivilege,
        "permission denied for relation \"t\"",
    );
    check(
        e.execute_sql(&bob, "CREATE ROLE carol").unwrap_err(),
        SqlState::InsufficientPrivilege,
        "permission denied: must be superuser",
    );
}

#[test]
fn settings_that_are_refused() {
    refused(
        "SET TimeZone TO 'Narnia/Wardrobe'",
        SqlState::InvalidParameterValue,
        "invalid value for timezone: \"Narnia/Wardrobe\"",
    );
    refused(
        "SET IntervalStyle = 7",
        SqlState::InvalidParameterValue,
        "invalid value for intervalstyle: 7",
    );
    refused(
        "SET transaction_isolation = serializable",
        SqlState::FeatureNotSupported,
        "parameter \"transaction_isolation\" is set by SET TRANSACTION only",
    );
}

#[test]
fn cursors_that_are_refused() {
    refused(
        "FETCH 1 2 3",
        SqlState::FeatureNotSupported,
        "unsupported compatibility command: FETCH",
    );
    refused(
        "DECLARE c CURSOR FOR SELECT 1",
        SqlState::NoActiveSqlTransaction,
        "DECLARE CURSOR can only be used in transaction blocks",
    );
    refused(
        "BEGIN; DECLARE c CURSOR FOR DELETE FROM t",
        SqlState::FeatureNotSupported,
        "DECLARE CURSOR only supports row-returning statements",
    );
    refused("CLOSE c", SqlState::InvalidCursorName, "cursor \"c\" does not exist");
    refused(
        "BEGIN; DECLARE c CURSOR FOR SELECT 1; DECLARE c CURSOR FOR SELECT 2",
        SqlState::DuplicateCursor,
        "cursor \"c\" already exists",
    );
}

fn limited(max_prepared_statements: u64, max_portals: u64) -> (Engine, SessionHandle) {
    let mut runtime = RuntimeConfig::default();
    runtime.limits = LimitsConfig {
        max_prepared_statements,
        max_portals,
    };
    start(
        EngineBuilder::for_testing()
            .with_runtime_config(runtime)
            .build()
            .unwrap(),
    )
}

fn prepare(e: &mut Engine, s: &SessionHandle, name: &str, sql: &str) -> Result<(), DbError> {
    e.prepare(s, name.to_owned(), sql.to_owned()).map(|_| ())
}

fn bind(e: &mut Engine, s: &SessionHandle, name: &str, values: Vec<Value>) -> Result<(), DbError> {
    e.bind(s, "p".to_owned(), name.to_owned(), values)
}

#[test]
fn prepared_statements_that_are_refused() {
    let (mut e, s) = limited(1, 0);
    prepare(&mut e, &s, "q", "SELECT $2 = 'x', $1 + 1").unwrap();
    check(
        prepare(&mut e, &s, "q", "SELECT 1").unwrap_err(),
        SqlState::DuplicateObject,
        "prepared statement \"q\" already exists",
    );
    check(
        prepare(&mut e, &s, "r", "SELECT 1").unwrap_err(),
        SqlState::ProgramLimitExceeded,
        "maximum number of prepared statements reached",
    );
    for sql in ["", "SELECT 1; SELECT 2"] {
        check(
            prepare(&mut e, &s, "r", sql).unwrap_err(),
            SqlState::SyntaxError,
            "a prepared statement must be a single statement",
        );
    }
    check(
        prepare(&mut e, &s, "r", "SELECT $65536").unwrap_err(),
        SqlState::ProgramLimitExceeded,
        "too many parameters",
    );
    check(
        bind(&mut e, &s, "r", vec![]).unwrap_err(),
        SqlState::UndefinedObject,
        "unknown prepared statement \"r\"",
    );
    check(
        bind(&mut e, &s, "q", vec![Value::Null]).unwrap_err(),
        SqlState::InvalidParameterValue,
        "prepared statement needs 2 parameters, but was given 1",
    );
    check(
        bind(&mut e, &s, "q", vec![Value::Int(1), Value::Int(2)]).unwrap_err(),
        SqlState::DatatypeMismatch,
        "parameter 2 expects TEXT",
    );
    check(
        bind(&mut e, &s, "q", vec![Value::Boolean(true), Value::Null]).unwrap_err(),
        SqlState::DatatypeMismatch,
        "parameter 1 expects INT",
    );
    check(
        bind(&mut e, &s, "q", vec![Value::Null, Value::Null]).unwrap_err(),
        SqlState::ProgramLimitExceeded,
        "maximum number of portals reached",
    );
    check(
        e.execute_portal(&s, "p", 0).unwrap_err(),
        SqlState::UndefinedObject,
        "unknown portal \"p\"",
    );
    check(
        e.close_statement(&s, "r").unwrap_err(),
        SqlState::UndefinedObject,
        "unknown prepared statement \"r\"",
    );
    e.close_statement(&s, "q").unwrap();
    prepare(&mut e, &s, "r", "SELECT 1").unwrap();
}

#[test]
fn a_command_runs_once_in_a_portal() {
    let (mut e, s) = started();
    prepare(&mut e, &s, "q", "DELETE FROM t").unwrap();
    bind(&mut e, &s, "q", vec![]).unwrap();
    assert_eq!(e.execute_portal(&s, "p", 0).unwrap().rows_affected, 2);
    check(
        e.execute_portal(&s, "p", 0).unwrap_err(),
        SqlState::ObjectNotInPrerequisiteState,
        "portal \"p\" cannot be run again",
    );
}

#[test]
fn sessions_that_are_unknown() {
    let (mut e, s) = started();
    e.terminate(s).unwrap();
    check(
        e.execute_sql(&s, "SELECT 1").unwrap_err(),
        SqlState::ConnectionDoesNotExist,
        "unknown session",
    );
}

fn failing(catalog: CatalogSide, sql: &str) -> DbError {
    let (mut e, s) = start(
        EngineBuilder::for_testing()
            .with_storage_txn(RecordingSavepointStorageTxnParticipant::default())
            .with_catalog_txn(catalog)
            .build()
            .unwrap(),
    );
    e.execute_sql(&s, sql).unwrap_err()
}

#[test]
fn savepoints_that_a_side_refuses() {
    let create = CatalogSide::FailingCreate(FailingCreateCatalogTxnParticipant::default());
    assert_eq!(
        failing(create, "BEGIN; SAVEPOINT sp").report().message,
        "forced catalog savepoint create failure"
    );
    let rollback = CatalogSide::FailingRollback(FailingRollbackCatalogTxnParticipant::default());
    let error = failing(rollback, "BEGIN; SAVEPOINT sp; ROLLBACK TO sp");
    assert_eq!(error.sqlstate(), SqlState::InternalError);
    assert_eq!(
        error.report().message,
        "forced catalog savepoint rollback failure"
    );
    let release = CatalogSide::FailingRelease(FailingReleaseCatalogTxnParticipant::default());
    let error = failing(release, "BEGIN; SAVEPOINT sp; RELEASE sp");
    assert_eq!(error.sqlstate(), SqlState::InternalError);
    assert_eq!(
        error.report().message,
        "forced catalog savepoint release failure"
    );
}

#[test]
fn passwords_that_are_refused() {
    let cases = [
        ("aB1!", "password must have at least 6 characters"),
        ("Role1!", "password must not match role name"),
        ("AAAA1!", "password must have at least one lowercase letter"),
        ("aaaa1!", "password must have at least one uppercase letter"),
        ("aaaaA!", "password must have at least one digit"),
        ("aaaaA1", "password must have at least one symbol"),
    ];
    for (password, message) in cases {
        let store = started().0.into_store();
        let (mut e, s) = start(fixtures::password_policy_engine(
            6, true, true, true, true, true, store,
        ));
        check(
            e.execute_sql(&s, &format!("CREATE ROLE \"Role1!\" PASSWORD '{password}'"))
                .unwrap_err(),
            SqlState::InvalidAuthorizationSpecification,
            message,
        );
    }
}

#[test]
fn logins_that_are_refused() {
    let mut e = fixtures::auth_hardened_engine(1);
    let s = e.startup(fixtures::startup_as("alice")).unwrap().0;
    e.execute_sql(
        &s,
        "CREATE ROLE alice SUPERUSER LOGIN; CREATE ROLE closed; CREATE ROLE plain LOGIN; CREATE ROLE secret LOGIN PASSWORD 'x'",
    )
    .unwrap();
    let state = SqlState::InvalidAuthorizationSpecification;
    check(
        e.startup(fixtures::startup_as("closed")).unwrap_err(),
        state,
        "role \"closed\" is not permitted to log in",
    );
    check(
        e.startup(fixtures::startup_with_password("nobody", "x")).unwrap_err(),
        state,
        "role \"nobody\" does not exist",
    );
    check(
        e.startup(fixtures::startup_with_password("plain", "x")).unwrap_err(),
        state,
        "role \"plain\" does not have a password configured",
    );
    check(
        e.startup(fixtures::startup_with_network_password("secret", "y", true)).unwrap_err(),
        state,
        "invalid user name or password",
    );
    check(
        e.startup(fixtures::startup_with_password("secret", "x")).unwrap_err(),
        SqlState::TooManyAuthenticationFailures,
        "too many authentication failures",
    );
    let mut e = fixtures::tls_required_engine(e.into_store());
    check(
        e.startup(fixtures::startup_with_network_password("secret", "x", false)).unwrap_err(),
        state,
        "TLS is required for password authentication",
    );
}

#[test]
fn codes_of_the_standard() {
    assert_eq!(SqlState::UndefinedTable.code(), "42P01");
    assert_eq!(SqlState::UniqueViolation.code(), "23505");
    assert_eq!(SqlState::InFailedSqlTransaction.code(), "25P02");
    assert_eq!(SqlState::InvalidCursorName.code(), "34000");
}
