use aiondb_engine::datum::DataType;
use aiondb_engine::engine::Engine;
use aiondb_engine::engine::EngineBuilder;
use aiondb_engine::engine::SessionHandle;
use aiondb_engine::explain::parse_explain_rows_pair;
use aiondb_engine::fixtures;
use aiondb_engine::harness;
use aiondb_engine::logictest;
use aiondb_engine::prepared::PortalBatch;
use aiondb_engine::txn::CountingTransactionManager;
use aiondb_engine::value::Row;
use aiondb_engine::value::Value;

fn started() -> (Engine, SessionHandle) {
    let mut engine = EngineBuilder::for_testing().build().unwrap();
    let (session, _) = engine.startup(fixtures::startup_as("alice")).unwrap();
    (engine, session)
}

fn values(sql: &str) -> Vec<Value> {
    let (mut e, s) = started();
    harness::query_rows(&mut e, &s, sql).unwrap()[0].values.clone()
}

fn text(s: &str) -> Value {
    Value::Text(s.to_owned())
}

#[test]
fn plan_lines_are_read() {
    assert_eq!(
        parse_explain_rows_pair("Scan (cost=0 rows=12 width=4) (actual rows=34 loops=1)"),
        Some((12, 34))
    );
    assert_eq!(parse_explain_rows_pair("rows=1rows=2"), Some((1, 2)));
    assert_eq!(parse_explain_rows_pair("rows=1"), None);
    assert_eq!(parse_explain_rows_pair("rows= rows=2"), None);
    assert_eq!(parse_explain_rows_pair("rows=2147483648 rows=1"), None);
    assert_eq!(parse_explain_rows_pair(""), None);
}

#[test]
fn scripts_are_read() {
    let script = "statement ok\nCREATE TABLE t (a INT)\n\nstatement ok\nINSERT INTO t\nVALUES (1)\n\n\
                  query I nosort\nSELECT a\nFROM t\n----\n1\n";
    let (statements, query) = logictest::load_sqllogictest_setup_and_query(script, 9).unwrap();
    assert_eq!(
        statements,
        vec!["CREATE TABLE t (a INT)", "INSERT INTO t\nVALUES (1)"]
    );
    assert_eq!(query, "SELECT a\nFROM t");
    assert_eq!(
        logictest::load_sqllogictest_query(script, 9),
        Some("SELECT a\nFROM t".to_owned())
    );
    assert!(logictest::load_sqllogictest_setup_and_query(script, 8).is_none());
}

#[test]
fn the_seed_is_five_hundred_rows() {
    let sql = fixtures::build_seed_sql("bench");
    assert!(sql.starts_with("INSERT INTO bench (id, val, tag) VALUES (0, 0, 'even'), (1, 1, 'odd'), "));
    assert!(sql.ends_with(", (499, 499, 'odd')"));
    let (mut e, s) = started();
    e.execute_sql(&s, "CREATE TABLE bench (id INT, val INT, tag TEXT)").unwrap();
    e.execute_sql(&s, &sql).unwrap();
    assert_eq!(
        harness::query_single_int(&mut e, &s, "SELECT COUNT(*) FROM bench WHERE tag = 'odd'").unwrap(),
        250
    );
}

#[test]
fn arithmetic_truncates_toward_zero() {
    assert_eq!(
        values("SELECT 7 / 2, -7 / 2, 7 % -2, -7 % 2, 2 + 3 * 4, -(2 - 5)"),
        vec![
            Value::Int(3),
            Value::Int(-3),
            Value::Int(1),
            Value::Int(-1),
            Value::Int(14),
            Value::Int(3),
        ]
    );
    assert_eq!(
        values("SELECT 2147483648, 2147483647 + 1::BIGINT"),
        vec![Value::BigInt(2147483648), Value::BigInt(2147483648)]
    );
}

#[test]
fn logic_has_three_values() {
    assert_eq!(
        values("SELECT NULL AND FALSE, NULL AND TRUE, NULL OR TRUE, NOT NULL, NULL = NULL, NULL IS NULL"),
        vec![
            Value::Boolean(false),
            Value::Null,
            Value::Boolean(true),
            Value::Null,
            Value::Null,
            Value::Boolean(true),
        ]
    );
    assert_eq!(
        values("SELECT 1 IN (2, NULL), 1 IN (1, NULL), 1 NOT IN (2, 3), 2 BETWEEN 1 AND 3"),
        vec![
            Value::Null,
            Value::Boolean(true),
            Value::Boolean(true),
            Value::Boolean(true),
        ]
    );
}

#[test]
fn patterns_match() {
    assert_eq!(
        values(
            "SELECT 'alice' LIKE 'a%', 'alice' LIKE '_lice', 'alice' LIKE 'a_e', \
             'a' NOT LIKE 'b', '' LIKE '%', NULL LIKE 'a'"
        ),
        vec![
            Value::Boolean(true),
            Value::Boolean(true),
            Value::Boolean(false),
            Value::Boolean(true),
            Value::Boolean(true),
            Value::Null,
        ]
    );
}

#[test]
fn choices_pick_the_first_that_holds() {
    assert_eq!(
        values(
            "SELECT CASE WHEN FALSE THEN 1 WHEN TRUE THEN 2 ELSE 3 END, \
             CASE WHEN NULL THEN 1 END, COALESCE(NULL, 4, 5), NULLIF(1, 1), NULLIF(1, 2)"
        ),
        vec![
            Value::Int(2),
            Value::Null,
            Value::Int(4),
            Value::Null,
            Value::Int(1),
        ]
    );
}

#[test]
fn aggregates_pass_over_nulls() {
    assert_eq!(
        values(
            "SELECT COUNT(*), COUNT(a), SUM(a), MIN(a), MAX(a), COUNT(DISTINCT a) \
             FROM (VALUES (3), (NULL), (1), (3)) AS v (a)"
        ),
        vec![
            Value::BigInt(4),
            Value::BigInt(3),
            Value::Int(7),
            Value::Int(1),
            Value::Int(3),
            Value::BigInt(2),
        ]
    );
    assert_eq!(
        values("SELECT COUNT(a), SUM(a), MAX(a) FROM (SELECT 1 AS a WHERE FALSE) AS v"),
        vec![Value::BigInt(0), Value::Null, Value::Null]
    );
}

#[test]
fn nulls_sort_last_unless_told_otherwise() {
    let (mut e, s) = started();
    let mut order = |how: &str| -> Vec<Value> {
        let sql = format!("SELECT a FROM (VALUES (2), (NULL), (1)) AS v (a) ORDER BY a {how}");
        let rows = harness::query_rows(&mut e, &s, &sql).unwrap();
        rows.into_iter().map(|row| row.values[0].clone()).collect()
    };
    let (one, two) = (Value::Int(1), Value::Int(2));
    assert_eq!(order(""), vec![one.clone(), two.clone(), Value::Null]);
    assert_eq!(order("DESC"), vec![Value::Null, two.clone(), one.clone()]);
    assert_eq!(order("NULLS FIRST"), vec![Value::Null, one.clone(), two.clone()]);
    assert_eq!(order("DESC NULLS LAST"), vec![two, one, Value::Null]);
}

#[test]
fn set_operations_with_all_count() {
    let (mut e, s) = started();
    e.execute_sql(
        &s,
        "CREATE TABLE a (x INT); INSERT INTO a VALUES (1), (1), (1), (2); \
         CREATE TABLE b (x INT); INSERT INTO b VALUES (1), (3)",
    )
    .unwrap();
    let mut count = |op: &str| {
        let sql = format!("SELECT x FROM a {op} SELECT x FROM b");
        harness::query_rows(&mut e, &s, &sql).unwrap().len()
    };
    assert_eq!(count("UNION ALL"), 6);
    assert_eq!(count("INTERSECT ALL"), 1);
    assert_eq!(count("EXCEPT ALL"), 3);
}

#[test]
fn joins_keep_what_they_should() {
    let (mut e, s) = started();
    fixtures::setup_join_tables(&mut e, &s).unwrap();
    let mut count = |kind: &str| {
        let sql = format!("SELECT 1 FROM users {kind} JOIN depts ON users.dept_id = depts.id");
        harness::query_rows(&mut e, &s, &sql).unwrap().len()
    };
    assert_eq!(count("INNER"), 3);
    assert_eq!(count("LEFT"), 5);
    assert_eq!(count("RIGHT"), 4);
    assert_eq!(count("FULL"), 6);
}

#[test]
fn casts_convert() {
    assert_eq!(
        values("SELECT '42'::INT, '-7'::BIGINT, 5::BIGINT, 6::BIGINT::INT, NULL::INT"),
        vec![
            Value::Int(42),
            Value::BigInt(-7),
            Value::BigInt(5),
            Value::Int(6),
            Value::Null,
        ]
    );
}

#[test]
fn rows_are_sorted_by_their_quoted_form() {
    let mut rows = vec![
        Row::new(vec![text("b")]),
        Row::new(vec![text("a\"")]),
        Row::new(vec![text("a")]),
        Row::new(vec![text("a\n")]),
    ];
    harness::sort_rows_for_comparison(&mut rows);
    assert_eq!(
        rows,
        vec![
            Row::new(vec![text("a")]),
            Row::new(vec![text("a\"")]),
            Row::new(vec![text("a\n")]),
            Row::new(vec![text("b")]),
        ]
    );
}

#[test]
fn values_are_written_out() {
    assert_eq!(Value::Null.to_string(), "NULL");
    assert_eq!(Value::Int(-5).to_string(), "-5");
    assert_eq!(Value::BigInt(9000000000).to_string(), "9000000000");
    assert_eq!(Value::Boolean(true).to_string(), "true");
    assert_eq!(text("x").to_string(), "x");
}

#[test]
fn settings_have_their_first_values() {
    let (mut e, s) = started();
    let mut show = |name: &str| {
        let rows = harness::query_rows(&mut e, &s, &format!("SHOW {name}")).unwrap();
        harness::text_col(&rows[0], 0)
    };
    assert_eq!(show("application_name"), "test");
    assert_eq!(show("transaction_isolation"), "read committed");
    assert_eq!(show("transaction_read_only"), "off");
    assert_eq!(show("transaction_deferrable"), "off");
    assert_eq!(show("statement_timeout"), "0");
}

#[test]
fn the_manager_counts() {
    let mut e = EngineBuilder::for_testing()
        .with_transaction_manager(CountingTransactionManager::default())
        .build()
        .unwrap();
    let s = e.startup(fixtures::startup_as("alice")).unwrap().0;
    assert_eq!(e.transaction_manager().counts(), (0, 0, 0));
    e.execute_sql(&s, "BEGIN").unwrap();
    assert_eq!(e.current_txn_id(&s).unwrap().get(), 1);
    e.execute_sql(&s, "COMMIT; BEGIN").unwrap();
    assert_eq!(e.current_txn_id(&s).unwrap().get(), 2);
    assert_eq!(e.transaction_manager().counts(), (2, 1, 0));
}

#[test]
fn parameters_get_their_types_from_their_surroundings() {
    let (mut e, s) = started();
    e.execute_sql(&s, "CREATE TABLE t (a INT, b BIGINT, c TEXT, d BOOLEAN)").unwrap();
    let mut types = |sql: &str| {
        let d = e.prepare(&s, sql.to_owned(), sql.to_owned()).unwrap();
        d.param_types
    };
    let (int, big, txt, truth) = (
        DataType::Int,
        DataType::BigInt,
        DataType::Text,
        DataType::Boolean,
    );
    assert_eq!(types("SELECT 1 FROM t WHERE a = $1 AND $2 < b"), vec![int, big]);
    assert_eq!(types("SELECT $1"), vec![txt]);
    assert_eq!(types("SELECT 1 WHERE $1"), vec![truth]);
    assert_eq!(types("SELECT $1::BIGINT, c LIKE $2 FROM t"), vec![big, txt]);
    assert_eq!(types("SELECT a FROM t WHERE c IN ($1, $2)"), vec![txt, txt]);
    assert_eq!(types("INSERT INTO t (d, b) VALUES ($2, $1)"), vec![big, truth]);
    assert_eq!(types("UPDATE t SET c = $1 WHERE b BETWEEN $2 AND $3"), vec![txt, big, big]);
    assert_eq!(types("DELETE FROM t WHERE a = (SELECT MAX($1 + b) FROM t)"), vec![big]);
    assert_eq!(
        types("WITH q AS (SELECT a FROM t WHERE d = $1) SELECT 1 FROM q WHERE a > $2"),
        vec![truth, int]
    );
    assert_eq!(types("SELECT 1"), Vec::<DataType>::new());
}

#[test]
fn a_portal_reports_what_it_did() {
    let (mut e, s) = started();
    let mut batch = |sql: &str| -> PortalBatch {
        e.prepare(&s, sql.to_owned(), sql.to_owned()).unwrap();
        e.execute_prepared_statement_with_notices(&s, sql.to_owned(), vec![], 0)
            .unwrap()
            .0
    };
    let shown = batch("SHOW application_name");
    assert_eq!(shown.tag, "SHOW");
    assert_eq!(shown.rows, vec![Row::new(vec![text("test")])]);
    assert_eq!(batch("BEGIN").tag, "BEGIN");
    assert_eq!(batch("DECLARE c CURSOR FOR VALUES (1), (2)").tag, "DECLARE CURSOR");
    assert_eq!(batch("MOVE 1 IN c").tag, "MOVE 1");
    let fetched = batch("FETCH ALL IN c");
    assert_eq!(fetched.tag, "FETCH 1");
    assert_eq!(fetched.rows, vec![Row::new(vec![Value::Int(2)])]);
    assert_eq!(batch("CLOSE c").tag, "CLOSE CURSOR");
    assert_eq!(batch("COMMIT").tag, "COMMIT");
}

#[test]
fn notices_come_with_a_prepared_statement() {
    let (mut e, s) = started();
    e.prepare(&s, "c".to_owned(), "COMMIT".to_owned()).unwrap();
    let (batch, notices) = e
        .execute_prepared_statement_with_notices(&s, "c".to_owned(), vec![], 0)
        .unwrap();
    assert_eq!(batch.tag, "COMMIT");
    assert_eq!(notices, vec!["there is no transaction in progress"]);
}

#[test]
fn parameters_reach_their_places() {
    let (mut e, s) = started();
    e.prepare(&s, "q".to_owned(), "SELECT $2::TEXT, $1 + 1, $1".to_owned()).unwrap();
    let (batch, _) = e
        .execute_prepared_statement_with_notices(
            &s,
            "q".to_owned(),
            vec![Value::Int(41), text("fresh text")],
            0,
        )
        .unwrap();
    assert_eq!(
        batch.rows,
        vec![Row::new(vec![text("fresh text"), Value::Int(42), Value::Int(41)])]
    );
}
