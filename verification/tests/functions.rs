use aiondb_engine::engine::EngineBuilder;
use aiondb_engine::fixtures;
use aiondb_engine::harness;
use aiondb_engine::value::Value;

fn rows(sql: &str) -> Vec<Vec<Value>> {
    let mut e = EngineBuilder::for_testing().build().unwrap();
    let s = e.startup(fixtures::startup_as("alice")).unwrap().0;
    e.execute_sql(
        &s,
        "CREATE TABLE t (g TEXT, n INT); \
         INSERT INTO t VALUES ('x', 10), ('y', 20), ('x', 30), ('x', 10), ('y', NULL)",
    )
    .unwrap();
    harness::query_rows(&mut e, &s, sql)
        .unwrap()
        .into_iter()
        .map(|row| row.values)
        .collect()
}

fn one(sql: &str) -> Value {
    rows(&format!("SELECT {sql}"))[0][0].clone()
}

fn text(s: &str) -> Value {
    Value::Text(s.to_owned())
}

fn big(ns: &[i64]) -> Vec<Vec<Value>> {
    ns.iter().map(|n| vec![Value::BigInt(*n)]).collect()
}

#[test]
fn case_changes_and_keeps_the_length() {
    assert_eq!(one("UPPER('aBc-1')"), text("ABC-1"));
    assert_eq!(one("UPPER(UPPER('aBc-1'))"), text("ABC-1"));
    assert_eq!(one("LOWER('aBc-1')"), text("abc-1"));
    assert_eq!(one("LENGTH(UPPER('aBc-1')) = LENGTH('aBc-1')"), Value::Boolean(true));
}

#[test]
fn the_parts_of_a_text_join_to_it() {
    for n in 0..5 {
        assert_eq!(
            one(&format!(
                "SUBSTRING('abcd', 1, {n}) || SUBSTRING('abcd', {}, 4)",
                n + 1
            )),
            text("abcd")
        );
    }
}

#[test]
fn parts_of_a_text_are_cut_at_its_ends() {
    assert_eq!(one("SUBSTRING('abcd', 2, 2)"), text("bc"));
    assert_eq!(one("SUBSTRING('abcd', 0, 2)"), text("a"));
    assert_eq!(one("SUBSTRING('abcd', 4, 9)"), text("d"));
    assert_eq!(one("SUBSTRING('abcd', 9, 1)"), text(""));
}

#[test]
fn texts_are_padded_and_cut() {
    assert_eq!(one("LPAD('7', 3, '0')"), text("007"));
    assert_eq!(one("RPAD('7', 4, 'ab')"), text("7aba"));
    assert_eq!(one("LPAD('abcd', 2, '0')"), text("ab"));
    assert_eq!(one("REPEAT('ab', 3)"), text("ababab"));
    assert_eq!(one("REPEAT('ab', -1)"), text(""));
    assert_eq!(one("TRIM('  a b ')"), text("a b"));
    assert_eq!(one("REPLACE('aXbX', 'X', 'yy')"), text("ayybyy"));
    assert_eq!(one("POSITION('cd', 'abcd')"), Value::Int(0));
}

#[test]
fn null_takes_a_text_away_unless_it_is_concatenated() {
    assert_eq!(one("'a' || NULL"), Value::Null);
    assert_eq!(one("UPPER(NULL)"), Value::Null);
    assert_eq!(one("CONCAT('a', NULL, 'b')"), text("ab"));
    assert_eq!(one("LENGTH('')"), Value::Int(0));
}

#[test]
fn values_become_texts() {
    assert_eq!(one("CAST(-42 AS TEXT)"), text("-42"));
    assert_eq!(one("CAST(9223372036854775807 AS TEXT)"), text("9223372036854775807"));
    assert_eq!(one("CAST(1 = 1 AS TEXT)"), text("true"));
    assert_eq!(one("CAST(NULL AS TEXT)"), Value::Null);
    assert_eq!(one("'a' || 1 + 2 || 'b'"), text("a3b"));
}

#[test]
fn a_case_compares_its_operand() {
    assert_eq!(one("CASE 2 WHEN 1 THEN 'a' WHEN 2 THEN 'b' ELSE 'c' END"), text("b"));
    assert_eq!(one("CASE 3 WHEN 1 THEN 'a' ELSE 'c' END"), text("c"));
    assert_eq!(one("CASE NULL WHEN NULL THEN 'a' END"), Value::Null);
}

#[test]
fn a_series_holds_its_ends() {
    assert_eq!(
        rows("SELECT * FROM generate_series(-1, 1)"),
        vec![vec![Value::Int(-1)], vec![Value::Int(0)], vec![Value::Int(1)]]
    );
    assert_eq!(
        rows("SELECT n + 1 FROM generate_series(4294967296, 4294967297) AS n"),
        big(&[4294967297, 4294967298])
    );
    assert!(rows("SELECT * FROM generate_series(2, 1)").is_empty());
    assert!(rows("SELECT * FROM generate_series(NULL, 1)").is_empty());
}

#[test]
fn an_aggregate_takes_the_rows_of_its_filter() {
    assert_eq!(
        rows(
            "SELECT COUNT(*) FILTER (WHERE n > 10), SUM(n) FILTER (WHERE g = 'x'), \
             COUNT(DISTINCT n) FILTER (WHERE g = 'x'), MAX(n) FILTER (WHERE n > 99) FROM t"
        ),
        vec![vec![
            Value::BigInt(2),
            Value::Int(50),
            Value::BigInt(2),
            Value::Null
        ]]
    );
}

#[test]
fn an_aggregate_over_a_partition_is_that_of_its_rows() {
    let x = vec![text("x"), Value::Int(50), Value::BigInt(3)];
    let y = vec![text("y"), Value::Int(20), Value::BigInt(2)];
    assert_eq!(
        rows(
            "SELECT g, SUM(n) OVER (PARTITION BY g), COUNT(*) OVER (PARTITION BY g) FROM t \
             ORDER BY g"
        ),
        vec![x.clone(), x.clone(), x, y.clone(), y]
    );
}

#[test]
fn an_aggregate_over_an_order_runs_up_to_its_peers() {
    assert_eq!(
        rows("SELECT n, SUM(n) OVER (ORDER BY n), COUNT(n) OVER (ORDER BY n) FROM t ORDER BY n"),
        vec![
            vec![Value::Int(10), Value::Int(20), Value::BigInt(2)],
            vec![Value::Int(10), Value::Int(20), Value::BigInt(2)],
            vec![Value::Int(20), Value::Int(40), Value::BigInt(3)],
            vec![Value::Int(30), Value::Int(70), Value::BigInt(4)],
            vec![Value::Null, Value::Int(70), Value::BigInt(4)],
        ]
    );
}

#[test]
fn equal_rows_share_a_rank_and_have_numbers_of_their_own() {
    assert_eq!(
        rows("SELECT RANK() OVER (ORDER BY n) AS r FROM t ORDER BY r"),
        big(&[1, 1, 3, 4, 5])
    );
    assert_eq!(
        rows("SELECT ROW_NUMBER() OVER (ORDER BY n DESC NULLS LAST) AS r FROM t ORDER BY r"),
        big(&[1, 2, 3, 4, 5])
    );
    assert_eq!(
        rows("SELECT ROW_NUMBER() OVER () FROM t ORDER BY RANK() OVER (ORDER BY g), 1"),
        big(&[1, 3, 4, 2, 5])
    );
}

#[test]
fn neighbours_are_those_of_the_partition() {
    assert_eq!(
        rows(
            "SELECT n, LAG(n) OVER (PARTITION BY g ORDER BY n), \
             LEAD(n) OVER (PARTITION BY g ORDER BY n) FROM t WHERE g = 'y' ORDER BY n"
        ),
        vec![
            vec![Value::Int(20), Value::Null, Value::Null],
            vec![Value::Null, Value::Int(20), Value::Null],
        ]
    );
}
