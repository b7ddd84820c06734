use aiondb_engine::engine::Engine;
use aiondb_engine::engine::EngineBuilder;
use aiondb_engine::engine::SessionHandle;
use aiondb_engine::fault::DbError;
use aiondb_engine::fault::SqlState;
use aiondb_engine::fixtures;
use aiondb_engine::harness;
use aiondb_engine::value::Row;
use aiondb_engine::value::StatementResult;
use aiondb_engine::value::Value;

fn started() -> (Engine, SessionHandle) {
    let mut engine = EngineBuilder::for_testing().build().unwrap();
    let (session, _) = engine.startup(fixtures::startup_as("alice")).unwrap();
    (engine, session)
}

fn with_rows() -> (Engine, SessionHandle) {
    let (mut e, s) = started();
    e.execute_sql(
        &s,
        "CREATE TABLE t (a INT UNIQUE, b TEXT DEFAULT 'none', c INT UNIQUE); \
         INSERT INTO t VALUES (1, 'one', 10), (2, 'two', 20)",
    )
    .unwrap();
    (e, s)
}

fn with_roles() -> (Engine, SessionHandle) {
    let (mut e, s) = started();
    e.execute_sql(
        &s,
        "CREATE ROLE alice SUPERUSER LOGIN; CREATE ROLE boss LOGIN; CREATE ROLE clerk LOGIN; \
         CREATE TABLE t (a INT); INSERT INTO t VALUES (1)",
    )
    .unwrap();
    (e, s)
}

fn run(e: &mut Engine, s: &SessionHandle, sql: &str) -> Vec<StatementResult> {
    e.execute_sql(s, sql).unwrap()
}

fn rows(e: &mut Engine, s: &SessionHandle, sql: &str) -> Vec<Row> {
    harness::query_rows(e, s, sql).unwrap()
}

fn refused(e: &mut Engine, s: &SessionHandle, sql: &str, state: SqlState, message: &str) {
    let error: DbError = e.execute_sql(s, sql).unwrap_err();
    assert_eq!(error.report().message, message);
    assert_eq!(error.sqlstate(), state, "{message}");
}

fn text(s: &str) -> Value {
    Value::Text(s.to_owned())
}

fn row(a: i32, b: &str, c: i32) -> Row {
    Row::new(vec![Value::Int(a), text(b), Value::Int(c)])
}

#[test]
fn an_insertion_gives_back_the_rows_it_adds() {
    let (mut e, s) = with_rows();
    assert_eq!(
        rows(&mut e, &s, "INSERT INTO t (c, a) VALUES (30, 3), (40, 4) RETURNING *"),
        vec![row(3, "none", 30), row(4, "none", 40)]
    );
    assert_eq!(
        rows(&mut e, &s, "SELECT * FROM t WHERE a > 2 ORDER BY a"),
        vec![row(3, "none", 30), row(4, "none", 40)]
    );
}

#[test]
fn an_update_gives_back_the_rows_as_they_are_after_it() {
    let (mut e, s) = with_rows();
    assert_eq!(
        rows(&mut e, &s, "UPDATE t SET b = 'new', c = c + 1 WHERE a = 2 RETURNING a, b, c AS d"),
        vec![row(2, "new", 21)]
    );
}

#[test]
fn a_deletion_gives_back_the_rows_that_go() {
    let (mut e, s) = with_rows();
    assert_eq!(
        rows(&mut e, &s, "DELETE FROM t WHERE a = 1 RETURNING *"),
        vec![row(1, "one", 10)]
    );
    assert_eq!(rows(&mut e, &s, "SELECT * FROM t"), vec![row(2, "two", 20)]);
}

#[test]
fn a_row_that_agrees_is_left_out() {
    let (mut e, s) = with_rows();
    assert_eq!(
        rows(
            &mut e,
            &s,
            "INSERT INTO t VALUES (1, 'again', 50), (5, 'five', 50), (6, 'six', 50) \
             ON CONFLICT DO NOTHING RETURNING *"
        ),
        vec![row(5, "five", 50)]
    );
    assert_eq!(
        rows(&mut e, &s, "SELECT * FROM t ORDER BY a"),
        vec![row(1, "one", 10), row(2, "two", 20), row(5, "five", 50)]
    );
}

#[test]
fn a_row_that_agrees_is_changed() {
    let (mut e, s) = with_rows();
    assert_eq!(
        run(
            &mut e,
            &s,
            "INSERT INTO t VALUES (1, 'uno', 11), (3, 'tres', 30) ON CONFLICT (a) \
             DO UPDATE SET b = t.b || excluded.b, c = excluded.c WHERE t.a < 2"
        ),
        vec![StatementResult::Command {
            tag: "INSERT".to_owned(),
            rows_affected: 2
        }]
    );
    assert_eq!(
        rows(&mut e, &s, "SELECT * FROM t ORDER BY a"),
        vec![row(1, "oneuno", 11), row(2, "two", 20), row(3, "tres", 30)]
    );
    assert_eq!(
        rows(
            &mut e,
            &s,
            "INSERT INTO t VALUES (2, 'dos', 22) ON CONFLICT (a) DO UPDATE SET b = 'x' \
             WHERE t.a < 2 RETURNING *"
        ),
        vec![]
    );
}

#[test]
fn rows_stay_unique_whatever_a_conflict_changes() {
    let (mut e, s) = with_rows();
    refused(
        &mut e,
        &s,
        "INSERT INTO t VALUES (1, 'x', 30) ON CONFLICT (a) DO UPDATE SET c = 20",
        SqlState::UniqueViolation,
        "duplicate key value violates unique constraint on column \"c\"",
    );
    refused(
        &mut e,
        &s,
        "INSERT INTO t VALUES (3, 'x', 20) ON CONFLICT (a) DO NOTHING",
        SqlState::UniqueViolation,
        "duplicate key value violates unique constraint on column \"c\"",
    );
    assert_eq!(
        rows(&mut e, &s, "SELECT * FROM t ORDER BY a"),
        vec![row(1, "one", 10), row(2, "two", 20)]
    );
}

#[test]
fn conflicts_that_are_refused() {
    let (mut e, s) = with_rows();
    refused(
        &mut e,
        &s,
        "INSERT INTO t VALUES (1, 'x', 1) ON CONFLICT (b) DO NOTHING",
        SqlState::InvalidColumnReference,
        "there is no unique constraint on column \"b\" for ON CONFLICT",
    );
    refused(
        &mut e,
        &s,
        "INSERT INTO t VALUES (7, 'x', 70), (7, 'y', 71) ON CONFLICT (a) DO UPDATE SET b = 'z'",
        SqlState::CardinalityViolation,
        "ON CONFLICT DO UPDATE command cannot affect row a second time",
    );
}

#[test]
fn a_session_acts_for_another_role() {
    let (mut e, s) = with_roles();
    run(&mut e, &s, "SET SESSION AUTHORIZATION clerk");
    assert_eq!(
        e.execute_sql(&s, "SELECT a FROM t").unwrap_err().sqlstate(),
        SqlState::InsufficientPrivilege
    );
    run(&mut e, &s, "RESET SESSION AUTHORIZATION");
    assert_eq!(rows(&mut e, &s, "SELECT a FROM t").len(), 1);
    run(&mut e, &s, "BEGIN; SET SESSION AUTHORIZATION clerk; ROLLBACK");
    assert_eq!(rows(&mut e, &s, "SELECT a FROM t").len(), 1);
}

#[test]
fn a_member_has_what_its_role_has() {
    let (mut e, s) = with_roles();
    run(&mut e, &s, "GRANT SELECT ON t TO boss; GRANT boss TO clerk");
    let clerk = e.startup(fixtures::startup_as("clerk")).unwrap().0;
    assert_eq!(rows(&mut e, &clerk, "SELECT a FROM t").len(), 1);
    run(&mut e, &s, "REVOKE boss FROM clerk");
    assert_eq!(
        e.execute_sql(&clerk, "SELECT a FROM t").unwrap_err().sqlstate(),
        SqlState::InsufficientPrivilege
    );
}

#[test]
fn memberships_that_are_refused() {
    let (mut e, s) = with_roles();
    run(&mut e, &s, "GRANT boss TO clerk");
    refused(
        &mut e,
        &s,
        "GRANT clerk TO boss",
        SqlState::InvalidGrantOperation,
        "role \"clerk\" is a member of role \"boss\"",
    );
    refused(
        &mut e,
        &s,
        "REVOKE boss FROM clerk GRANTED BY clerk",
        SqlState::InsufficientPrivilege,
        "role \"clerk\" has not been granted membership in role \"boss\" by role \"clerk\"",
    );
}

#[test]
fn definitions_that_are_refused() {
    let (mut e, s) = started();
    run(
        &mut e,
        &s,
        "CREATE TYPE money; CREATE FUNCTION coin(int) RETURNS money LANGUAGE SQL AS $$ x $$; \
         CREATE CAST (int4 AS money) WITH FUNCTION coin(integer)",
    );
    refused(
        &mut e,
        &s,
        "CREATE TYPE money",
        SqlState::DuplicateObject,
        "type \"money\" already exists",
    );
    refused(
        &mut e,
        &s,
        "CREATE CAST (text AS gold) WITHOUT FUNCTION",
        SqlState::UndefinedObject,
        "type \"gold\" does not exist",
    );
    refused(
        &mut e,
        &s,
        "CREATE CAST (integer AS money) WITHOUT FUNCTION",
        SqlState::DuplicateObject,
        "cast from type integer to type money already exists",
    );
    refused(
        &mut e,
        &s,
        "CREATE FUNCTION coin(int4) RETURNS money LANGUAGE SQL AS $$ y $$",
        SqlState::DuplicateFunction,
        "function \"coin\" already exists with same argument types",
    );
    refused(
        &mut e,
        &s,
        "DROP FUNCTION coin(int)",
        SqlState::DependentObjectsStillExist,
        "cannot drop function \"coin\" because other objects depend on it",
    );
    assert!(e.defines_cast(&s, "integer", "money").unwrap());
    run(&mut e, &s, "DROP FUNCTION coin(int) CASCADE");
    assert!(!e.defines_cast(&s, "integer", "money").unwrap());
    assert!(e.defines_type(&s, "money").unwrap());
}

#[test]
fn definitions_go_with_a_rollback() {
    let (mut e, s) = started();
    run(&mut e, &s, "BEGIN; CREATE TYPE money; ROLLBACK");
    assert!(!e.defines_type(&s, "money").unwrap());
}

#[test]
fn a_block_says_what_it_computes() {
    let (mut e, s) = started();
    assert_eq!(
        run(
            &mut e,
            &s,
            "DO $$ DECLARE x int := 4; y int := NULL; BEGIN \
             IF x > 5 THEN x := 1; ELSE x := x * 2; END IF; \
             RAISE NOTICE '% of %, %', x, y, 'z'; END $$"
        ),
        vec![
            StatementResult::Notice {
                message: "8 of <NULL>, z".to_owned()
            },
            StatementResult::Command {
                tag: "DO".to_owned(),
                rows_affected: 0
            },
        ]
    );
    refused(
        &mut e,
        &s,
        "DO $$ BEGIN x := 1; END $$",
        SqlState::UndefinedObject,
        "unknown DO variable: \"x\"",
    );
}

#[test]
fn texts_are_as_long_as_their_columns_allow() {
    let (mut e, s) = started();
    run(&mut e, &s, "CREATE TABLE t (a VARCHAR(3), b CHAR(2), c VARCHAR)");
    run(&mut e, &s, "INSERT INTO t VALUES ('abc', 'xy', 'a long text'), (NULL, 'x', NULL)");
    assert_eq!(
        rows(&mut e, &s, "SELECT a, c FROM t WHERE b = 'xy'"),
        vec![Row::new(vec![text("abc"), text("a long text")])]
    );
    refused(
        &mut e,
        &s,
        "INSERT INTO t (a) VALUES ('abcd')",
        SqlState::StringDataRightTruncation,
        "value too long for type character varying(3)",
    );
    refused(
        &mut e,
        &s,
        "UPDATE t SET b = 'xyz'",
        SqlState::StringDataRightTruncation,
        "value too long for type character(2)",
    );
}

#[test]
fn every_draw_is_one_more() {
    let (mut e, s) = started();
    run(&mut e, &s, "CREATE SEQUENCE ids; CREATE SEQUENCE others");
    assert_eq!(
        rows(&mut e, &s, "SELECT nextval('ids') AS a, 'x' AS b, nextval('others'), nextval('ids')"),
        vec![Row::new(vec![
            Value::BigInt(1),
            text("x"),
            Value::BigInt(1),
            Value::BigInt(2)
        ])]
    );
    run(
        &mut e,
        &s,
        "CREATE TABLE t (a BIGINT DEFAULT nextval('ids'), b INT); \
         INSERT INTO t (b) VALUES (10), (20); INSERT INTO t VALUES (7, 30), (DEFAULT, 40)",
    );
    let all = |pairs: &[(i64, i32)]| -> Vec<Row> {
        pairs
            .iter()
            .map(|(a, b)| Row::new(vec![Value::BigInt(*a), Value::Int(*b)]))
            .collect()
    };
    assert_eq!(
        rows(&mut e, &s, "SELECT a, b FROM t ORDER BY b"),
        all(&[(3, 10), (4, 20), (7, 30), (5, 40)])
    );
    assert_eq!(
        rows(&mut e, &s, "UPDATE t SET a = nextval('others') WHERE b < 30 RETURNING a, b"),
        all(&[(2, 10), (3, 20)])
    );
}

#[test]
fn a_sequence_that_is_made_again_begins_again() {
    let (mut e, s) = started();
    run(
        &mut e,
        &s,
        "CREATE SEQUENCE ids; SELECT nextval('ids'); DROP SEQUENCE ids; CREATE SEQUENCE ids",
    );
    assert_eq!(
        rows(&mut e, &s, "SELECT nextval('ids')"),
        vec![Row::new(vec![Value::BigInt(1)])]
    );
    run(
        &mut e,
        &s,
        "CREATE SCHEMA app; CREATE SEQUENCE app.n; SET search_path TO app; SELECT nextval('n'); \
         DROP SCHEMA app CASCADE; CREATE SCHEMA app; CREATE SEQUENCE app.n",
    );
    assert_eq!(
        rows(&mut e, &s, "SELECT nextval('n')"),
        vec![Row::new(vec![Value::BigInt(1)])]
    );
}

#[test]
fn draws_that_are_refused() {
    let (mut e, s) = started();
    run(&mut e, &s, "CREATE SEQUENCE ids; CREATE TABLE t (a BIGINT)");
    refused(
        &mut e,
        &s,
        "SELECT nextval('ids') + 1",
        SqlState::FeatureNotSupported,
        "nextval is only supported as a whole value",
    );
    refused(
        &mut e,
        &s,
        "ALTER TABLE t ADD COLUMN b BIGINT DEFAULT nextval('ids')",
        SqlState::FeatureNotSupported,
        "nextval is only supported as a whole value",
    );
    assert_eq!(
        rows(&mut e, &s, "SELECT nextval('ids')"),
        vec![Row::new(vec![Value::BigInt(1)])]
    );
}
