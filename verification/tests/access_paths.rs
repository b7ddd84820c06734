use aiondb_engine::auth::StartupParams;
use aiondb_engine::engine::Engine;
use aiondb_engine::engine::EngineBuilder;
use aiondb_engine::engine::SessionHandle;
use aiondb_engine::fixtures::startup_as;
use aiondb_engine::harness;
use aiondb_engine::value::Row;
use aiondb_engine::value::StatementResult;
use aiondb_engine::value::Value;

fn startup_params() -> StartupParams {
    startup_as("alice")
}

fn query_rows(engine: &mut Engine, session: &SessionHandle, sql: &str) -> Vec<Row> {
    harness::query_rows(engine, session, sql).expect("query rows")
}

fn query_count(engine: &mut Engine, session: &SessionHandle, sql: &str) -> i64 {
    harness::query_single_int(engine, session, sql).expect("count")
}

#[test]
fn seq_scan_range_filter_pushdown_agrees_with_full_eval() {
    let mut engine = EngineBuilder::for_testing().build().unwrap();
    let (s, _) = engine.startup(startup_params()).expect("startup");
    engine
        .execute_sql(&s, "CREATE TABLE t (id INT, val INT, name TEXT)")
        .expect("create");
    let mut sql = String::from("INSERT INTO t (id, val, name) VALUES ");
    for i in 0..50 {
        if i > 0 {
            sql.push_str(", ");
        }
        sql.push_str(&format!("({i}, {}, 'row_{i}')", i * 2));
    }
    engine.execute_sql(&s, &sql).expect("seed");

    // Vals are 0, 2, 4, ..., 98. Counts derived from that arithmetic.
    let cases = [
        // (sql, expected row count)
        ("SELECT id FROM t WHERE val > 50", 24),
        ("SELECT id FROM t WHERE val >= 50", 25),
        ("SELECT id FROM t WHERE val < 20", 10),
        ("SELECT id FROM t WHERE val <= 20", 11),
        ("SELECT id FROM t WHERE val BETWEEN 30 AND 70", 21),
        ("SELECT id FROM t WHERE val > 10 AND val < 90", 39),
    ];
    for (q, expected) in cases {
        let rows = query_rows(&mut engine, &s, q);
        assert_eq!(
            rows.len(),
            expected,
            "row count mismatch for `{q}`: got {} expected {expected}",
            rows.len()
        );
    }
}

#[test]
fn count_range_pushdown_agrees_with_full_eval() {
    let mut engine = EngineBuilder::for_testing().build().unwrap();
    let (s, _) = engine.startup(startup_params()).expect("startup");
    engine
        .execute_sql(&s, "CREATE TABLE t (id INT, val INT)")
        .expect("create");
    let mut sql = String::from("INSERT INTO t (id, val) VALUES ");
    for i in 0..100 {
        if i > 0 {
            sql.push_str(", ");
        }
        sql.push_str(&format!("({i}, {})", i * 3));
    }
    engine.execute_sql(&s, &sql).expect("seed");

    let cases = [
        ("SELECT COUNT(*) FROM t WHERE val > 100", 66),
        ("SELECT COUNT(*) FROM t WHERE val >= 150", 50),
        ("SELECT COUNT(*) FROM t WHERE val < 30", 10),
        ("SELECT COUNT(*) FROM t WHERE val BETWEEN 60 AND 120", 21),
    ];
    for (q, expected) in cases {
        let n = query_count(&mut engine, &s, q);
        assert_eq!(
            n, expected,
            "count mismatch for `{q}`: got {n} expected {expected}"
        );
    }
}

#[test]
fn seq_scan_multi_range_pushdown_agrees_with_full_eval() {
    let mut engine = EngineBuilder::for_testing().build().unwrap();
    let (s, _) = engine.startup(startup_params()).expect("startup");
    engine
        .execute_sql(&s, "CREATE TABLE t (id INT, x INT, y INT)")
        .expect("create");
    let mut sql = String::from("INSERT INTO t (id, x, y) VALUES ");
    for i in 0..100 {
        if i > 0 {
            sql.push_str(", ");
        }
        sql.push_str(&format!("({i}, {}, {})", i * 2, i * 3));
    }
    engine.execute_sql(&s, &sql).expect("seed");

    // x = 2*i, y = 3*i. 100 rows, i in 0..100.
    // x > 50 → i > 25 → 74 rows.
    // y < 60 → i < 20 → 20 rows.
    // x > 50 AND y < 60 → no overlap → 0 rows.
    // x > 20 AND y > 30 → i > 10 AND i > 10 → 89 rows.
    // x BETWEEN 40 AND 100 AND y < 120 → 20<=i<=50 AND i<40 → i in [20,39] → 20 rows.
    let cases = [
        ("SELECT id FROM t WHERE x > 50 AND y < 60", 0),
        ("SELECT id FROM t WHERE x > 20 AND y > 30", 89),
        (
            "SELECT id FROM t WHERE x BETWEEN 40 AND 100 AND y < 120",
            20,
        ),
        ("SELECT id FROM t WHERE x >= 40 AND y >= 60 AND y < 90", 10),
    ];
    for (q, expected) in cases {
        let rows = query_rows(&mut engine, &s, q);
        assert_eq!(
            rows.len(),
            expected,
            "row count mismatch for `{q}`: got {} expected {expected}",
            rows.len()
        );
    }
}

#[test]
fn seq_scan_null_filter_pushdown_agrees_with_full_eval() {
    let mut engine = EngineBuilder::for_testing().build().unwrap();
    let (s, _) = engine.startup(startup_params()).expect("startup");
    engine
        .execute_sql(&s, "CREATE TABLE t (id INT, name TEXT)")
        .expect("create");
    let mut sql = String::from("INSERT INTO t (id, name) VALUES ");
    for i in 0..50 {
        if i > 0 {
            sql.push_str(", ");
        }
        if i % 4 == 0 {
            sql.push_str(&format!("({i}, NULL)"));
        } else {
            sql.push_str(&format!("({i}, 'row_{i}')"));
        }
    }
    engine.execute_sql(&s, &sql).expect("seed");

    // 50 rows total; every 4th row has NULL name → 13 nulls (i = 0,4,...,48), 37 non-null.
    let cases = [
        ("SELECT id FROM t WHERE name IS NULL", 13),
        ("SELECT id FROM t WHERE name IS NOT NULL", 37),
    ];
    for (q, expected) in cases {
        let rows = query_rows(&mut engine, &s, q);
        assert_eq!(
            rows.len(),
            expected,
            "row count mismatch for `{q}`: got {} expected {expected}",
            rows.len()
        );
    }
}

#[test]
fn count_of_notnull_column_matches_count_star() {
    let mut engine = EngineBuilder::for_testing().build().unwrap();
    let (s, _) = engine.startup(startup_params()).expect("startup");
    engine
        .execute_sql(&s, "CREATE TABLE t (id INT PRIMARY KEY, name TEXT)")
        .expect("create");
    let mut sql = String::from("INSERT INTO t (id, name) VALUES ");
    for i in 0..100 {
        if i > 0 {
            sql.push_str(", ");
        }
        sql.push_str(&format!("({i}, 'r{i}')"));
    }
    engine.execute_sql(&s, &sql).expect("seed");

    // PK is NOT NULL — both forms must return the same total.
    let star = query_count(&mut engine, &s, "SELECT COUNT(*) FROM t");
    let by_pk = query_count(&mut engine, &s, "SELECT COUNT(id) FROM t");
    assert_eq!(star, 100);
    assert_eq!(by_pk, star, "COUNT(NOT NULL col) should equal COUNT(*)");

    // For a nullable column with NULLs present the two diverge — make
    // sure we did NOT incorrectly rewrite that case.
    engine
        .execute_sql(&s, "CREATE TABLE u (id INT PRIMARY KEY, opt INT)")
        .expect("create u");
    engine
        .execute_sql(
            &s,
            "INSERT INTO u VALUES (1, 10), (2, NULL), (3, 30), (4, NULL)",
        )
        .expect("seed u");
    let total = query_count(&mut engine, &s, "SELECT COUNT(*) FROM u");
    let non_null = query_count(&mut engine, &s, "SELECT COUNT(opt) FROM u");
    assert_eq!(total, 4);
    assert_eq!(non_null, 2, "COUNT(nullable) should skip NULLs");
}

#[test]
fn correlated_exists_caches_results_per_outer_correlation() {
    // Regression: a correlated EXISTS subquery whose outer correlation
    // values repeat across many outer rows must not re-execute the
    // sub-plan once per outer row. PG materialises the SubPlan output
    // keyed by `extParam`; aiondb's TLS `STATEMENT_CORRELATED_EXISTS_CACHE`
    // does the equivalent. Without the cache, the outer table on the
    // left side of the EXISTS scans the inner relation per row, so
    // wall-clock grows quadratically with `outer_rows × inner_rows`.
    //
    // The two outer rows below repeat the same correlation value (`fk`)
    // many times each, so a working cache keeps the inner sub-plan
    // execution count down to `distinct_correlation_values`, not
    // `outer_rows`.
    let mut engine = EngineBuilder::for_testing().build().unwrap();
    let (s, _) = engine.startup(startup_params()).expect("startup");
    engine
        .execute_sql(&s, "CREATE TABLE outer_t (id INT PRIMARY KEY, fk INT)")
        .expect("create outer");
    engine
        .execute_sql(&s, "CREATE TABLE inner_t (id INT PRIMARY KEY, payload INT)")
        .expect("create inner");

    // 200 outer rows but only 4 distinct fk values — a working cache
    // turns 200 sub-plan executions into 4.
    let mut outer_sql = String::from("INSERT INTO outer_t (id, fk) VALUES ");
    for i in 0..200 {
        if i > 0 {
            outer_sql.push_str(", ");
        }
        outer_sql.push_str(&format!("({i}, {})", i % 4));
    }
    engine.execute_sql(&s, &outer_sql).expect("seed outer");

    let mut inner_sql = String::from("INSERT INTO inner_t (id, payload) VALUES ");
    for i in 0..4 {
        if i > 0 {
            inner_sql.push_str(", ");
        }
        inner_sql.push_str(&format!("({i}, {i})"));
    }
    engine.execute_sql(&s, &inner_sql).expect("seed inner");

    // Sanity: every outer row matches because every fk value 0..3 has
    // a corresponding inner row.
    let results = engine
        .execute_sql(
            &s,
            "SELECT COUNT(*) FROM outer_t WHERE EXISTS (SELECT 1 FROM inner_t WHERE inner_t.id = outer_t.fk)",
        )
        .expect("exists count");
    let StatementResult::Query { rows, .. } = &results[0] else {
        panic!("expected Query result, got {:?}", &results[0]);
    };
    let count = match &rows[0].values[0] {
        Value::BigInt(n) => *n,
        Value::Int(n) => i64::from(*n),
        other => panic!("unexpected count value: {other:?}"),
    };
    assert_eq!(count, 200, "all 200 outer rows should satisfy EXISTS");
}
