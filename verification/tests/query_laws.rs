use aiondb_engine::engine::Engine;
use aiondb_engine::engine::EngineBuilder;
use aiondb_engine::engine::SessionHandle;
use aiondb_engine::fault::SqlState;
use aiondb_engine::fixtures;
use aiondb_engine::harness;
use aiondb_engine::value::StatementResult;
use aiondb_engine::value::Value;

fn started() -> (Engine, SessionHandle) {
    let mut engine = EngineBuilder::for_testing().build().unwrap();
    let (session, _) = engine.startup(fixtures::startup_as("alice")).unwrap();
    engine
        .execute_sql(
            &session,
            "CREATE TABLE l (a INT, x TEXT); INSERT INTO l VALUES (1, 'p'), (2, 'q'), (NULL, 'r'); \
             CREATE TABLE r (a INT, y TEXT); INSERT INTO r VALUES (2, 's'), (2, 't'), (3, 'u')",
        )
        .unwrap();
    (engine, session)
}

fn rows(sql: &str) -> Vec<Vec<Value>> {
    let (mut e, s) = started();
    harness::query_rows(&mut e, &s, sql)
        .unwrap()
        .into_iter()
        .map(|row| row.values)
        .collect()
}

fn text(s: &str) -> Value {
    Value::Text(s.to_owned())
}

#[test]
fn where_keeps_the_rows_that_are_true_in_their_order() {
    assert_eq!(rows("SELECT x FROM l WHERE a < 2"), vec![vec![text("p")]]);
    assert_eq!(rows("SELECT x FROM l WHERE NOT a < 2"), vec![vec![text("q")]]);
    assert_eq!(
        rows("SELECT y FROM r WHERE a > 1"),
        vec![vec![text("s")], vec![text("t")], vec![text("u")]]
    );
    let (mut e, s) = started();
    let error = e.execute_sql(&s, "SELECT x FROM l WHERE 1 / (a - 1) = 1").unwrap_err();
    assert_eq!(error.sqlstate(), SqlState::DivisionByZero);
}

#[test]
fn a_join_holds_its_pairs_and_its_lonely_rows() {
    let pairs = vec![vec![text("q"), text("s")], vec![text("q"), text("t")]];
    let join = |kind: &str| {
        rows(&format!(
            "SELECT l.x, r.y FROM l {kind} JOIN r ON l.a = r.a ORDER BY 1, 2"
        ))
    };
    let p = vec![text("p"), Value::Null];
    let r = vec![text("r"), Value::Null];
    let u = vec![Value::Null, text("u")];
    assert_eq!(join("INNER"), pairs);
    assert_eq!(
        join("LEFT"),
        vec![p.clone(), pairs[0].clone(), pairs[1].clone(), r.clone()]
    );
    assert_eq!(
        join("RIGHT"),
        vec![pairs[0].clone(), pairs[1].clone(), u.clone()]
    );
    assert_eq!(
        join("FULL"),
        vec![p, pairs[0].clone(), pairs[1].clone(), r, u]
    );
}

#[test]
fn a_cross_join_is_a_product() {
    assert_eq!(rows("SELECT 1 FROM l CROSS JOIN r").len(), 9);
    assert_eq!(rows("SELECT 1 FROM l, r, l AS k").len(), 27);
    assert_eq!(rows("SELECT 1 FROM l, (SELECT 1 WHERE FALSE) AS none").len(), 0);
}

#[test]
fn groups_part_the_rows() {
    assert_eq!(
        rows("SELECT a, COUNT(*) FROM r GROUP BY a ORDER BY a"),
        vec![
            vec![Value::Int(2), Value::BigInt(2)],
            vec![Value::Int(3), Value::BigInt(1)],
        ]
    );
    assert_eq!(
        rows("SELECT COUNT(*) FROM (SELECT a FROM l GROUP BY a) AS g"),
        vec![vec![Value::BigInt(3)]]
    );
}

#[test]
fn the_least_and_the_greatest_are_among_the_values() {
    assert_eq!(
        rows("SELECT MIN(a), MAX(a), MIN(x), MAX(x) FROM l"),
        vec![vec![Value::Int(1), Value::Int(2), text("p"), text("r")]]
    );
    assert_eq!(
        rows("SELECT MIN(a), MAX(a) FROM l WHERE FALSE"),
        vec![vec![Value::Null, Value::Null]]
    );
}

#[test]
fn a_sum_is_the_sum() {
    assert_eq!(rows("SELECT SUM(a) FROM r"), vec![vec![Value::Int(7)]]);
    assert_eq!(rows("SELECT SUM(a) FROM r WHERE FALSE"), vec![vec![Value::Null]]);
    let (mut e, s) = started();
    let error = e
        .execute_sql(&s, "SELECT SUM(v.a) FROM (VALUES (2147483647), (1), (-5)) AS v (a)")
        .unwrap_err();
    assert_eq!(error.sqlstate(), SqlState::NumericValueOutOfRange);
}

#[test]
fn distinct_values_are_counted_once() {
    assert_eq!(
        rows("SELECT COUNT(DISTINCT a), COUNT(a) FROM r"),
        vec![vec![Value::BigInt(2), Value::BigInt(3)]]
    );
}

#[test]
fn membership_can_be_unknown() {
    assert_eq!(
        rows("SELECT 1 IN (SELECT a FROM l), 5 IN (SELECT a FROM l), 5 IN (SELECT a FROM r)"),
        vec![vec![Value::Boolean(true), Value::Null, Value::Boolean(false)]]
    );
}

#[test]
fn a_plain_pattern_matches_itself() {
    assert_eq!(
        rows("SELECT 'abc' LIKE 'abc', 'abcd' LIKE 'abc', 'ab' LIKE 'abc', 'abc' LIKE '%', '' LIKE '%'"),
        vec![vec![
            Value::Boolean(true),
            Value::Boolean(false),
            Value::Boolean(false),
            Value::Boolean(true),
            Value::Boolean(true),
        ]]
    );
}

#[test]
fn set_operations_with_all_keep_count() {
    assert_eq!(rows("SELECT a FROM r UNION ALL SELECT a FROM r").len(), 6);
    assert_eq!(
        rows("SELECT a FROM r INTERSECT ALL SELECT 2"),
        vec![vec![Value::Int(2)]]
    );
    assert_eq!(
        rows("SELECT a FROM r EXCEPT ALL SELECT 2"),
        vec![vec![Value::Int(2)], vec![Value::Int(3)]]
    );
}

#[test]
fn a_deletion_removes_the_rows_that_are_true() {
    let (mut e, s) = started();
    let results = e.execute_sql(&s, "DELETE FROM l WHERE a < 2").unwrap();
    assert_eq!(
        results,
        vec![StatementResult::Command {
            tag: "DELETE".to_owned(),
            rows_affected: 1,
        }]
    );
    assert_eq!(
        harness::query_rows_as_text(e.execute_sql(&s, "SELECT * FROM l").unwrap()),
        vec![vec!["2", "q"], vec!["NULL", "r"]]
    );
}

#[test]
fn an_update_takes_its_values_from_before() {
    let (mut e, s) = started();
    e.execute_sql(
        &s,
        "CREATE TABLE p (a INT, b INT); INSERT INTO p VALUES (1, 10), (2, 20); \
         UPDATE p SET a = b, b = a WHERE a = 1",
    )
    .unwrap();
    assert_eq!(
        harness::query_rows_as_text(e.execute_sql(&s, "SELECT * FROM p").unwrap()),
        vec![vec!["10", "1"], vec!["2", "20"]]
    );
}

#[test]
fn an_assignment_changes_its_column_alone() {
    let (mut e, s) = started();
    e.execute_sql(&s, "UPDATE l SET x = 'z' WHERE a = 2").unwrap();
    assert_eq!(
        harness::query_rows_as_text(e.execute_sql(&s, "SELECT * FROM l").unwrap()),
        vec![vec!["1", "p"], vec!["2", "z"], vec!["NULL", "r"]]
    );
}

#[test]
fn a_table_gives_back_its_rows() {
    let (mut e, s) = started();
    assert_eq!(
        harness::query_rows_as_text(e.execute_sql(&s, "SELECT * FROM r").unwrap()),
        vec![vec!["2", "s"], vec!["2", "t"], vec!["3", "u"]]
    );
    assert_eq!(
        harness::query_rows_as_text(e.execute_sql(&s, "SELECT * FROM r WHERE y <> 't'").unwrap()),
        vec![vec!["2", "s"], vec!["3", "u"]]
    );
}
