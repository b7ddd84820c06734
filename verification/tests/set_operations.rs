use aiondb_engine::auth::StartupParams;
use aiondb_engine::engine::Engine;
use aiondb_engine::engine::EngineBuilder;
use aiondb_engine::engine::SessionHandle;
use aiondb_engine::fixtures::setup_tables;
use aiondb_engine::fixtures::startup_as;
use aiondb_engine::harness;
use aiondb_engine::value::Row;
use aiondb_engine::value::Value;

fn startup_params() -> StartupParams {
    startup_as("alice")
}

fn query_rows(engine: &mut Engine, session: &SessionHandle, sql: &str) -> Vec<Row> {
    harness::query_rows(engine, session, sql).expect("query rows")
}

#[test]
fn union_all_basic() {
    let mut engine = EngineBuilder::for_testing().build().unwrap();
    let (session, _) = engine.startup(startup_params()).expect("startup");
    setup_tables(&mut engine, &session).unwrap();

    let rows = query_rows(
        &mut engine,
        &session,
        "SELECT id, name FROM t1 UNION ALL SELECT id, name FROM t2 ORDER BY id",
    );
    // All 6 rows (3 from t1 + 3 from t2), including duplicates
    assert_eq!(rows.len(), 6);
    assert_eq!(rows[0].values[0], Value::Int(1));
    assert_eq!(rows[5].values[0], Value::Int(4));
}

#[test]
fn union_all_preserves_duplicates() {
    let mut engine = EngineBuilder::for_testing().build().unwrap();
    let (session, _) = engine.startup(startup_params()).expect("startup");
    setup_tables(&mut engine, &session).unwrap();

    let rows = query_rows(
        &mut engine,
        &session,
        "SELECT id, name FROM t1 \
         UNION ALL \
         SELECT id, name FROM t2 \
         ORDER BY id, name",
    );
    assert_eq!(rows.len(), 6);
    // id=2 and id=3 should each appear twice
    let count_2 = rows.iter().filter(|r| r.values[0] == Value::Int(2)).count();
    let count_3 = rows.iter().filter(|r| r.values[0] == Value::Int(3)).count();
    assert_eq!(count_2, 2);
    assert_eq!(count_3, 2);
}

#[test]
fn union_removes_duplicates() {
    let mut engine = EngineBuilder::for_testing().build().unwrap();
    let (session, _) = engine.startup(startup_params()).expect("startup");
    setup_tables(&mut engine, &session).unwrap();

    let rows = query_rows(
        &mut engine,
        &session,
        "SELECT id, name FROM t1 UNION SELECT id, name FROM t2 ORDER BY id",
    );
    // 4 distinct rows: (1,alice), (2,bob), (3,carol), (4,dave)
    assert_eq!(rows.len(), 4);
    assert_eq!(rows[0].values[0], Value::Int(1));
    assert_eq!(rows[0].values[1], Value::Text("alice".to_owned()));
    assert_eq!(rows[1].values[0], Value::Int(2));
    assert_eq!(rows[1].values[1], Value::Text("bob".to_owned()));
    assert_eq!(rows[2].values[0], Value::Int(3));
    assert_eq!(rows[2].values[1], Value::Text("carol".to_owned()));
    assert_eq!(rows[3].values[0], Value::Int(4));
    assert_eq!(rows[3].values[1], Value::Text("dave".to_owned()));
}

#[test]
fn union_with_identical_tables() {
    let mut engine = EngineBuilder::for_testing().build().unwrap();
    let (session, _) = engine.startup(startup_params()).expect("startup");
    setup_tables(&mut engine, &session).unwrap();

    let rows = query_rows(
        &mut engine,
        &session,
        "SELECT id, name FROM t1 UNION SELECT id, name FROM t1 ORDER BY id",
    );
    // Same table unioned with itself => original rows (duplicates removed)
    assert_eq!(rows.len(), 3);
}

#[test]
fn intersect_basic() {
    let mut engine = EngineBuilder::for_testing().build().unwrap();
    let (session, _) = engine.startup(startup_params()).expect("startup");
    setup_tables(&mut engine, &session).unwrap();

    let rows = query_rows(
        &mut engine,
        &session,
        "SELECT id, name FROM t1 INTERSECT SELECT id, name FROM t2 ORDER BY id",
    );
    // Common rows: (2,bob) and (3,carol)
    assert_eq!(rows.len(), 2);
    assert_eq!(rows[0].values[0], Value::Int(2));
    assert_eq!(rows[0].values[1], Value::Text("bob".to_owned()));
    assert_eq!(rows[1].values[0], Value::Int(3));
    assert_eq!(rows[1].values[1], Value::Text("carol".to_owned()));
}

#[test]
fn intersect_with_no_overlap() {
    let mut engine = EngineBuilder::for_testing().build().unwrap();
    let (session, _) = engine.startup(startup_params()).expect("startup");

    let rows = query_rows(
        &mut engine,
        &session,
        "CREATE TABLE a (id INT); \
         INSERT INTO a VALUES (1), (2); \
         CREATE TABLE b (id INT); \
         INSERT INTO b VALUES (3), (4); \
         SELECT id FROM a INTERSECT SELECT id FROM b",
    );
    assert_eq!(rows.len(), 0);
}

#[test]
fn intersect_subquery_in_from_preserves_full_set_operation() {
    let mut engine = EngineBuilder::for_testing().build().unwrap();
    let (session, _) = engine.startup(startup_params()).expect("startup");
    setup_tables(&mut engine, &session).unwrap();

    let rows = query_rows(
        &mut engine,
        &session,
        "SELECT count(*) \
         FROM (SELECT id FROM t1 INTERSECT SELECT id FROM t2) ss",
    );
    assert_eq!(rows.len(), 1);
    assert_eq!(rows[0].values[0], Value::BigInt(2));
}

#[test]
fn values_subquery_in_from_keeps_all_rows() {
    let mut engine = EngineBuilder::for_testing().build().unwrap();
    let (session, _) = engine.startup(startup_params()).expect("startup");

    let rows = query_rows(
        &mut engine,
        &session,
        "SELECT x FROM (VALUES (1), (2)) v(x) ORDER BY x",
    );
    assert_eq!(rows.len(), 2);
    assert_eq!(rows[0].values[0], Value::Int(1));
    assert_eq!(rows[1].values[0], Value::Int(2));
}

#[test]
fn union_all_subquery_in_from_can_join_outer_table() {
    let mut engine = EngineBuilder::for_testing().build().unwrap();
    let (session, _) = engine.startup(startup_params()).expect("startup");
    setup_tables(&mut engine, &session).unwrap();

    let rows = query_rows(
        &mut engine,
        &session,
        "SELECT ss.id \
         FROM (SELECT id FROM t1 UNION ALL SELECT id FROM t2) ss \
         JOIN t1 ON t1.id = ss.id \
         ORDER BY ss.id",
    );
    assert_eq!(rows.len(), 5);
    assert_eq!(rows[0].values[0], Value::Int(1));
    assert_eq!(rows[1].values[0], Value::Int(2));
    assert_eq!(rows[2].values[0], Value::Int(2));
    assert_eq!(rows[3].values[0], Value::Int(3));
    assert_eq!(rows[4].values[0], Value::Int(3));
}

#[test]
fn except_basic() {
    let mut engine = EngineBuilder::for_testing().build().unwrap();
    let (session, _) = engine.startup(startup_params()).expect("startup");
    setup_tables(&mut engine, &session).unwrap();

    let rows = query_rows(
        &mut engine,
        &session,
        "SELECT id, name FROM t1 EXCEPT SELECT id, name FROM t2 ORDER BY id",
    );
    // t1 minus t2: only (1,alice)
    assert_eq!(rows.len(), 1);
    assert_eq!(rows[0].values[0], Value::Int(1));
    assert_eq!(rows[0].values[1], Value::Text("alice".to_owned()));
}

#[test]
fn except_reversed() {
    let mut engine = EngineBuilder::for_testing().build().unwrap();
    let (session, _) = engine.startup(startup_params()).expect("startup");
    setup_tables(&mut engine, &session).unwrap();

    let rows = query_rows(
        &mut engine,
        &session,
        "SELECT id, name FROM t2 EXCEPT SELECT id, name FROM t1 ORDER BY id",
    );
    // t2 minus t1: only (4,dave)
    assert_eq!(rows.len(), 1);
    assert_eq!(rows[0].values[0], Value::Int(4));
    assert_eq!(rows[0].values[1], Value::Text("dave".to_owned()));
}

#[test]
fn except_with_identical_tables_returns_empty() {
    let mut engine = EngineBuilder::for_testing().build().unwrap();
    let (session, _) = engine.startup(startup_params()).expect("startup");
    setup_tables(&mut engine, &session).unwrap();

    let rows = query_rows(
        &mut engine,
        &session,
        "SELECT id, name FROM t1 EXCEPT SELECT id, name FROM t1",
    );
    assert_eq!(rows.len(), 0);
}

#[test]
fn union_with_nulls() {
    let mut engine = EngineBuilder::for_testing().build().unwrap();
    let (session, _) = engine.startup(startup_params()).expect("startup");

    let rows = query_rows(
        &mut engine,
        &session,
        "CREATE TABLE n1 (val INT); \
         INSERT INTO n1 VALUES (1), (NULL); \
         CREATE TABLE n2 (val INT); \
         INSERT INTO n2 VALUES (NULL), (2); \
         SELECT val FROM n1 UNION SELECT val FROM n2 ORDER BY val",
    );
    // Distinct values: NULL, 1, 2. NULLs are treated as equal for UNION dedup.
    assert_eq!(rows.len(), 3);
}

#[test]
fn union_unknown_null_coerces_to_concrete_branch_type() {
    let mut engine = EngineBuilder::for_testing().build().unwrap();
    let (session, _) = engine.startup(startup_params()).expect("startup");

    let rows = query_rows(
        &mut engine,
        &session,
        "SELECT NULL AS v UNION SELECT 1 ORDER BY 1",
    );
    assert_eq!(rows.len(), 2);
    assert_eq!(rows[0].values[0], Value::Int(1));
    assert_eq!(rows[1].values[0], Value::Null);
}

#[test]
fn intersect_with_nulls() {
    let mut engine = EngineBuilder::for_testing().build().unwrap();
    let (session, _) = engine.startup(startup_params()).expect("startup");

    let rows = query_rows(
        &mut engine,
        &session,
        "CREATE TABLE n1 (val INT); \
         INSERT INTO n1 VALUES (1), (NULL); \
         CREATE TABLE n2 (val INT); \
         INSERT INTO n2 VALUES (NULL), (2); \
         SELECT val FROM n1 INTERSECT SELECT val FROM n2",
    );
    // Common value: NULL
    assert_eq!(rows.len(), 1);
    assert_eq!(rows[0].values[0], Value::Null);
}

#[test]
fn union_all_with_order_by() {
    let mut engine = EngineBuilder::for_testing().build().unwrap();
    let (session, _) = engine.startup(startup_params()).expect("startup");
    setup_tables(&mut engine, &session).unwrap();

    let rows = query_rows(
        &mut engine,
        &session,
        "SELECT id, name FROM t1 \
         UNION ALL \
         SELECT id, name FROM t2 \
         ORDER BY id DESC",
    );
    assert_eq!(rows.len(), 6);
    assert_eq!(rows[0].values[0], Value::Int(4));
    assert_eq!(rows[5].values[0], Value::Int(1));
}

#[test]
fn union_with_limit() {
    let mut engine = EngineBuilder::for_testing().build().unwrap();
    let (session, _) = engine.startup(startup_params()).expect("startup");
    setup_tables(&mut engine, &session).unwrap();

    let rows = query_rows(
        &mut engine,
        &session,
        "SELECT id, name FROM t1 UNION SELECT id, name FROM t2 ORDER BY id LIMIT 2",
    );
    assert_eq!(rows.len(), 2);
    assert_eq!(rows[0].values[0], Value::Int(1));
    assert_eq!(rows[1].values[0], Value::Int(2));
}

#[test]
fn union_with_limit_and_offset() {
    let mut engine = EngineBuilder::for_testing().build().unwrap();
    let (session, _) = engine.startup(startup_params()).expect("startup");
    setup_tables(&mut engine, &session).unwrap();

    let rows = query_rows(
        &mut engine,
        &session,
        "SELECT id, name FROM t1 UNION SELECT id, name FROM t2 \
         ORDER BY id LIMIT 2 OFFSET 1",
    );
    assert_eq!(rows.len(), 2);
    assert_eq!(rows[0].values[0], Value::Int(2));
    assert_eq!(rows[1].values[0], Value::Int(3));
}

#[test]
fn union_mismatched_column_count_error() {
    let mut engine = EngineBuilder::for_testing().build().unwrap();
    let (session, _) = engine.startup(startup_params()).expect("startup");
    setup_tables(&mut engine, &session).unwrap();

    let result = engine.execute_sql(&session, "SELECT id, name FROM t1 UNION SELECT id FROM t2");
    assert!(result.is_err(), "mismatched column count should error");
}

#[test]
fn union_with_empty_table() {
    let mut engine = EngineBuilder::for_testing().build().unwrap();
    let (session, _) = engine.startup(startup_params()).expect("startup");

    let rows = query_rows(
        &mut engine,
        &session,
        "CREATE TABLE nonempty (id INT); \
         INSERT INTO nonempty VALUES (1), (2); \
         CREATE TABLE empty (id INT); \
         SELECT id FROM nonempty UNION ALL SELECT id FROM empty ORDER BY id",
    );
    assert_eq!(rows.len(), 2);
    assert_eq!(rows[0].values[0], Value::Int(1));
    assert_eq!(rows[1].values[0], Value::Int(2));
}

#[test]
fn intersect_with_empty_table() {
    let mut engine = EngineBuilder::for_testing().build().unwrap();
    let (session, _) = engine.startup(startup_params()).expect("startup");

    let rows = query_rows(
        &mut engine,
        &session,
        "CREATE TABLE nonempty (id INT); \
         INSERT INTO nonempty VALUES (1), (2); \
         CREATE TABLE empty (id INT); \
         SELECT id FROM nonempty INTERSECT SELECT id FROM empty",
    );
    assert_eq!(rows.len(), 0);
}

#[test]
fn except_with_empty_rhs() {
    let mut engine = EngineBuilder::for_testing().build().unwrap();
    let (session, _) = engine.startup(startup_params()).expect("startup");

    let rows = query_rows(
        &mut engine,
        &session,
        "CREATE TABLE nonempty (id INT); \
         INSERT INTO nonempty VALUES (1), (2); \
         CREATE TABLE empty (id INT); \
         SELECT id FROM nonempty EXCEPT SELECT id FROM empty ORDER BY id",
    );
    // EXCEPT empty => all rows from lhs
    assert_eq!(rows.len(), 2);
    assert_eq!(rows[0].values[0], Value::Int(1));
    assert_eq!(rows[1].values[0], Value::Int(2));
}

#[test]
fn chained_union_all() {
    let mut engine = EngineBuilder::for_testing().build().unwrap();
    let (session, _) = engine.startup(startup_params()).expect("startup");

    let rows = query_rows(
        &mut engine,
        &session,
        "CREATE TABLE c1 (id INT); \
         INSERT INTO c1 VALUES (1); \
         CREATE TABLE c2 (id INT); \
         INSERT INTO c2 VALUES (2); \
         CREATE TABLE c3 (id INT); \
         INSERT INTO c3 VALUES (3); \
         SELECT id FROM c1 \
         UNION ALL SELECT id FROM c2 \
         UNION ALL SELECT id FROM c3 \
         ORDER BY id",
    );
    assert_eq!(rows.len(), 3);
    assert_eq!(rows[0].values[0], Value::Int(1));
    assert_eq!(rows[1].values[0], Value::Int(2));
    assert_eq!(rows[2].values[0], Value::Int(3));
}

#[test]
fn chained_union_dedup() {
    let mut engine = EngineBuilder::for_testing().build().unwrap();
    let (session, _) = engine.startup(startup_params()).expect("startup");

    let rows = query_rows(
        &mut engine,
        &session,
        "CREATE TABLE c1 (id INT); \
         INSERT INTO c1 VALUES (1), (2); \
         CREATE TABLE c2 (id INT); \
         INSERT INTO c2 VALUES (2), (3); \
         CREATE TABLE c3 (id INT); \
         INSERT INTO c3 VALUES (3), (4); \
         SELECT id FROM c1 \
         UNION SELECT id FROM c2 \
         UNION SELECT id FROM c3 \
         ORDER BY id",
    );
    // Distinct: 1, 2, 3, 4
    assert_eq!(rows.len(), 4);
    assert_eq!(rows[0].values[0], Value::Int(1));
    assert_eq!(rows[1].values[0], Value::Int(2));
    assert_eq!(rows[2].values[0], Value::Int(3));
    assert_eq!(rows[3].values[0], Value::Int(4));
}

#[test]
fn union_of_literal_selects() {
    let mut engine = EngineBuilder::for_testing().build().unwrap();
    let (session, _) = engine.startup(startup_params()).expect("startup");

    let rows = query_rows(
        &mut engine,
        &session,
        "SELECT 1 UNION ALL SELECT 2 UNION ALL SELECT 3 ORDER BY 1",
    );
    assert_eq!(rows.len(), 3);
    assert_eq!(rows[0].values[0], Value::Int(1));
    assert_eq!(rows[1].values[0], Value::Int(2));
    assert_eq!(rows[2].values[0], Value::Int(3));
}

#[test]
fn union_with_null_deduplication() {
    let mut engine = EngineBuilder::for_testing().build().unwrap();
    let (session, _) = engine.startup(startup_params()).expect("startup");

    let rows = query_rows(
        &mut engine,
        &session,
        "CREATE TABLE x1 (val INT); \
         INSERT INTO x1 VALUES (NULL), (1); \
         CREATE TABLE x2 (val INT); \
         INSERT INTO x2 VALUES (NULL), (1), (2); \
         SELECT val FROM x1 UNION SELECT val FROM x2 ORDER BY val",
    );
    // Distinct: NULL, 1, 2 => 3 rows
    assert_eq!(rows.len(), 3);
}

#[test]
fn intersect_disjoint_returns_empty() {
    let mut engine = EngineBuilder::for_testing().build().unwrap();
    let (session, _) = engine.startup(startup_params()).expect("startup");

    let rows = query_rows(
        &mut engine,
        &session,
        "CREATE TABLE d1 (id INT, name TEXT); \
         INSERT INTO d1 VALUES (1, 'a'), (2, 'b'); \
         CREATE TABLE d2 (id INT, name TEXT); \
         INSERT INTO d2 VALUES (3, 'c'), (4, 'd'); \
         SELECT id, name FROM d1 INTERSECT SELECT id, name FROM d2",
    );
    assert_eq!(rows.len(), 0);
}

#[test]
fn except_removes_all_matching() {
    let mut engine = EngineBuilder::for_testing().build().unwrap();
    let (session, _) = engine.startup(startup_params()).expect("startup");

    let rows = query_rows(
        &mut engine,
        &session,
        "CREATE TABLE e1 (val INT); \
         INSERT INTO e1 VALUES (1), (2), (3); \
         CREATE TABLE e2 (val INT); \
         INSERT INTO e2 VALUES (1), (2), (3); \
         SELECT val FROM e1 EXCEPT SELECT val FROM e2",
    );
    // All rows match, so result is empty
    assert_eq!(rows.len(), 0);
}

#[test]
fn union_all_preserves_nulls_and_duplicates() {
    let mut engine = EngineBuilder::for_testing().build().unwrap();
    let (session, _) = engine.startup(startup_params()).expect("startup");

    let rows = query_rows(
        &mut engine,
        &session,
        "CREATE TABLE u1 (val INT); \
         INSERT INTO u1 VALUES (1), (NULL), (1); \
         CREATE TABLE u2 (val INT); \
         INSERT INTO u2 VALUES (NULL), (2); \
         SELECT val FROM u1 UNION ALL SELECT val FROM u2 ORDER BY val",
    );
    // 3 from u1 + 2 from u2 = 5 rows total
    assert_eq!(rows.len(), 5);
    // NULLs sort first or last depending on impl; just count them
    let null_count = rows.iter().filter(|r| r.values[0] == Value::Null).count();
    assert_eq!(null_count, 2);
}

#[test]
fn nested_union_three_way() {
    let mut engine = EngineBuilder::for_testing().build().unwrap();
    let (session, _) = engine.startup(startup_params()).expect("startup");

    let rows = query_rows(
        &mut engine,
        &session,
        "CREATE TABLE n1 (v INT); INSERT INTO n1 VALUES (1), (2); \
         CREATE TABLE n2 (v INT); INSERT INTO n2 VALUES (2), (3); \
         CREATE TABLE n3 (v INT); INSERT INTO n3 VALUES (3), (4); \
         SELECT v FROM n1 UNION SELECT v FROM n2 UNION SELECT v FROM n3 ORDER BY v",
    );
    // Distinct: 1,2,3,4
    assert_eq!(rows.len(), 4);
    assert_eq!(rows[0].values[0], Value::Int(1));
    assert_eq!(rows[3].values[0], Value::Int(4));
}

#[test]
fn union_with_order_by_desc() {
    let mut engine = EngineBuilder::for_testing().build().unwrap();
    let (session, _) = engine.startup(startup_params()).expect("startup");
    setup_tables(&mut engine, &session).unwrap();

    let rows = query_rows(
        &mut engine,
        &session,
        "SELECT id, name FROM t1 UNION SELECT id, name FROM t2 ORDER BY id DESC",
    );
    assert_eq!(rows.len(), 4);
    assert_eq!(rows[0].values[0], Value::Int(4));
    assert_eq!(rows[3].values[0], Value::Int(1));
}

#[test]
fn except_with_nulls() {
    let mut engine = EngineBuilder::for_testing().build().unwrap();
    let (session, _) = engine.startup(startup_params()).expect("startup");

    let rows = query_rows(
        &mut engine,
        &session,
        "CREATE TABLE en1 (val INT); \
         INSERT INTO en1 VALUES (1), (NULL), (2); \
         CREATE TABLE en2 (val INT); \
         INSERT INTO en2 VALUES (NULL), (2); \
         SELECT val FROM en1 EXCEPT SELECT val FROM en2 ORDER BY val",
    );
    // EXCEPT removes NULL and 2, leaving only 1
    assert_eq!(rows.len(), 1);
    assert_eq!(rows[0].values[0], Value::Int(1));
}

#[test]
fn intersect_with_text_columns() {
    let mut engine = EngineBuilder::for_testing().build().unwrap();
    let (session, _) = engine.startup(startup_params()).expect("startup");

    let rows = query_rows(
        &mut engine,
        &session,
        "CREATE TABLE names1 (name TEXT); \
         INSERT INTO names1 VALUES ('alice'), ('bob'), ('carol'); \
         CREATE TABLE names2 (name TEXT); \
         INSERT INTO names2 VALUES ('bob'), ('carol'), ('dave'); \
         SELECT name FROM names1 INTERSECT SELECT name FROM names2 ORDER BY name",
    );
    // Common: bob, carol
    assert_eq!(rows.len(), 2);
    assert_eq!(rows[0].values[0], Value::Text("bob".to_owned()));
    assert_eq!(rows[1].values[0], Value::Text("carol".to_owned()));
}

#[test]
fn except_partial_overlap() {
    let mut engine = EngineBuilder::for_testing().build().unwrap();
    let (session, _) = engine.startup(startup_params()).expect("startup");

    let rows = query_rows(
        &mut engine,
        &session,
        "CREATE TABLE p1 (val INT); \
         INSERT INTO p1 VALUES (1), (2), (3), (4), (5); \
         CREATE TABLE p2 (val INT); \
         INSERT INTO p2 VALUES (2), (4); \
         SELECT val FROM p1 EXCEPT SELECT val FROM p2 ORDER BY val",
    );
    // 1,3,5 remain
    assert_eq!(rows.len(), 3);
    assert_eq!(rows[0].values[0], Value::Int(1));
    assert_eq!(rows[1].values[0], Value::Int(3));
    assert_eq!(rows[2].values[0], Value::Int(5));
}
