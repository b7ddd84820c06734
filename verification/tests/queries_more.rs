use aiondb_engine::auth::StartupParams;
use aiondb_engine::engine::Engine;
use aiondb_engine::engine::EngineBuilder;
use aiondb_engine::engine::SessionHandle;
use aiondb_engine::fixtures::setup_schema;
use aiondb_engine::fixtures::startup_as;
use aiondb_engine::harness;
use aiondb_engine::value::Row;
use aiondb_engine::value::StatementResult;
use aiondb_engine::value::Value;

fn startup_params() -> StartupParams {
    startup_as("alice")
}

fn query_rows(engine: &mut Engine, session: &SessionHandle, sql: &str) -> Vec<Row> {
    harness::query_rows(engine, session, sql).expect("query rows")
}

#[test]
fn except_set_difference() {
    let mut engine = EngineBuilder::for_testing().build().unwrap();
    let (session, _) = engine.startup(startup_params()).expect("startup");
    setup_schema(&mut engine, &session).unwrap();

    let rows = query_rows(
        &mut engine,
        &session,
        "SELECT dept FROM employees WHERE active = true \
         EXCEPT \
         SELECT dept FROM employees WHERE active = false \
         ORDER BY dept",
    );
    assert_eq!(rows.len(), 1);
    assert_eq!(rows[0].values[0], Value::Text("eng".into()));
}

#[test]
fn scalar_subquery_in_select() {
    let mut engine = EngineBuilder::for_testing().build().unwrap();
    let (session, _) = engine.startup(startup_params()).expect("startup");
    setup_schema(&mut engine, &session).unwrap();

    let rows = query_rows(
        &mut engine,
        &session,
        "SELECT name, (SELECT MAX(salary) FROM employees) AS max_sal \
         FROM employees WHERE id = 1",
    );
    assert_eq!(rows.len(), 1);
    assert_eq!(rows[0].values[0], Value::Text("alice".into()));
    assert_eq!(rows[0].values[1], Value::Int(90000));
}

#[test]
fn in_subquery_pattern() {
    let mut engine = EngineBuilder::for_testing().build().unwrap();
    let (session, _) = engine.startup(startup_params()).expect("startup");
    setup_schema(&mut engine, &session).unwrap();

    let rows = query_rows(
        &mut engine,
        &session,
        "SELECT name FROM employees \
         WHERE dept IN (SELECT dept FROM departments WHERE budget > 250000) \
         ORDER BY name",
    );
    assert_eq!(rows.len(), 4);
    assert_eq!(rows[0].values[0], Value::Text("alice".into()));
    assert_eq!(rows[1].values[0], Value::Text("bob".into()));
    assert_eq!(rows[2].values[0], Value::Text("carol".into()));
    assert_eq!(rows[3].values[0], Value::Text("dave".into()));
}

#[test]
fn exists_subquery_pattern() {
    let mut engine = EngineBuilder::for_testing().build().unwrap();
    let (session, _) = engine.startup(startup_params()).expect("startup");
    setup_schema(&mut engine, &session).unwrap();

    // Non-correlated EXISTS: employees table is non-empty
    let rows = query_rows(
        &mut engine,
        &session,
        "SELECT dept FROM departments \
         WHERE EXISTS (SELECT 1 FROM employees WHERE active = false) \
         ORDER BY dept",
    );
    // Subquery is non-empty (carol and frank are inactive), so all departments returned
    assert_eq!(rows.len(), 3);
}

#[test]
fn update_with_where_clause() {
    let mut engine = EngineBuilder::for_testing().build().unwrap();
    let (session, _) = engine.startup(startup_params()).expect("startup");
    setup_schema(&mut engine, &session).unwrap();

    let rows = query_rows(
        &mut engine,
        &session,
        "UPDATE employees SET salary = salary + 5000 WHERE dept = 'hr'; \
         SELECT name, salary FROM employees WHERE dept = 'hr' ORDER BY name",
    );
    assert_eq!(rows.len(), 2);
    assert_eq!(rows[0].values[1], Value::Int(65000)); // eve was 60000
    assert_eq!(rows[1].values[1], Value::Int(70000)); // frank was 65000
}

#[test]
fn delete_with_where_clause() {
    let mut engine = EngineBuilder::for_testing().build().unwrap();
    let (session, _) = engine.startup(startup_params()).expect("startup");
    setup_schema(&mut engine, &session).unwrap();

    let results = engine
        .execute_sql(&session, "DELETE FROM employees WHERE active = false")
        .expect("delete");
    match &results[0] {
        StatementResult::Command { rows_affected, .. } => assert_eq!(*rows_affected, 2),
        other => panic!("expected Command, got {other:?}"),
    }

    let rows = query_rows(&mut engine, &session, "SELECT COUNT(*) FROM employees");
    assert_eq!(rows[0].values[0], Value::BigInt(4));
}

#[test]
fn insert_select_pattern() {
    let mut engine = EngineBuilder::for_testing().build().unwrap();
    let (session, _) = engine.startup(startup_params()).expect("startup");
    setup_schema(&mut engine, &session).unwrap();

    engine
        .execute_sql(
            &session,
            "CREATE TABLE eng_team (id INT, name TEXT); \
             INSERT INTO eng_team SELECT id, name FROM employees WHERE dept = 'eng'",
        )
        .expect("insert select");

    let rows = query_rows(&mut engine, &session, "SELECT name FROM eng_team ORDER BY name");
    assert_eq!(rows.len(), 2);
    assert_eq!(rows[0].values[0], Value::Text("alice".into()));
    assert_eq!(rows[1].values[0], Value::Text("bob".into()));
}

#[test]
fn window_row_number_partitioned() {
    let mut engine = EngineBuilder::for_testing().build().unwrap();
    let (session, _) = engine.startup(startup_params()).expect("startup");
    setup_schema(&mut engine, &session).unwrap();

    let rows = query_rows(
        &mut engine,
        &session,
        "SELECT name, dept, \
                ROW_NUMBER() OVER (PARTITION BY dept ORDER BY salary DESC) AS rn \
         FROM employees ORDER BY dept, rn",
    );
    assert_eq!(rows.len(), 6);
    // eng: alice(90k)->1, bob(85k)->2
    assert_eq!(rows[0].values[0], Value::Text("alice".into()));
    assert_eq!(rows[0].values[2], Value::BigInt(1));
    assert_eq!(rows[1].values[0], Value::Text("bob".into()));
    assert_eq!(rows[1].values[2], Value::BigInt(2));
}

#[test]
fn window_rank_with_ties() {
    let mut engine = EngineBuilder::for_testing().build().unwrap();
    let (session, _) = engine.startup(startup_params()).expect("startup");

    let rows = query_rows(
        &mut engine,
        &session,
        "CREATE TABLE scores (name TEXT, score INT); \
         INSERT INTO scores VALUES ('a', 100), ('b', 90), ('c', 100), ('d', 80); \
         SELECT name, score, RANK() OVER (ORDER BY score DESC) AS rnk \
         FROM scores ORDER BY score DESC, name",
    );
    assert_eq!(rows.len(), 4);
    // score DESC: 100,100,90,80 => ranks: 1,1,3,4
    assert_eq!(rows[0].values[0], Value::Text("a".into()));
    assert_eq!(rows[0].values[2], Value::BigInt(1));
    assert_eq!(rows[1].values[0], Value::Text("c".into()));
    assert_eq!(rows[1].values[2], Value::BigInt(1));
    assert_eq!(rows[2].values[0], Value::Text("b".into()));
    assert_eq!(rows[2].values[2], Value::BigInt(3));
    assert_eq!(rows[3].values[0], Value::Text("d".into()));
    assert_eq!(rows[3].values[2], Value::BigInt(4));
}

#[test]
fn window_lag_lead() {
    let mut engine = EngineBuilder::for_testing().build().unwrap();
    let (session, _) = engine.startup(startup_params()).expect("startup");

    let rows = query_rows(
        &mut engine,
        &session,
        "CREATE TABLE daily (day INT, revenue INT); \
         INSERT INTO daily VALUES (1, 100), (2, 120), (3, 90); \
         SELECT day, revenue, \
                LAG(revenue) OVER (ORDER BY day) AS prev, \
                LEAD(revenue) OVER (ORDER BY day) AS nxt \
         FROM daily ORDER BY day",
    );
    assert_eq!(rows.len(), 3);
    assert_eq!(rows[0].values[2], Value::Null);
    assert_eq!(rows[0].values[3], Value::Int(120));
    assert_eq!(rows[1].values[2], Value::Int(100));
    assert_eq!(rows[1].values[3], Value::Int(90));
    assert_eq!(rows[2].values[2], Value::Int(120));
    assert_eq!(rows[2].values[3], Value::Null);
}

#[test]
fn aggregate_filter_clause() {
    let mut engine = EngineBuilder::for_testing().build().unwrap();
    let (session, _) = engine.startup(startup_params()).expect("startup");
    setup_schema(&mut engine, &session).unwrap();

    let rows = query_rows(
        &mut engine,
        &session,
        "SELECT dept, \
                COUNT(*) AS total, \
                COUNT(*) FILTER (WHERE active) AS active_count \
         FROM employees GROUP BY dept ORDER BY dept",
    );
    assert_eq!(rows.len(), 3);
    assert_eq!(rows[0].values[1], Value::BigInt(2)); // eng total
    assert_eq!(rows[0].values[2], Value::BigInt(2)); // eng active
    assert_eq!(rows[1].values[1], Value::BigInt(2)); // hr total
    assert_eq!(rows[1].values[2], Value::BigInt(1)); // hr active
}

#[test]
fn chained_ctes() {
    let mut engine = EngineBuilder::for_testing().build().unwrap();
    let (session, _) = engine.startup(startup_params()).expect("startup");
    setup_schema(&mut engine, &session).unwrap();

    let rows = query_rows(
        &mut engine,
        &session,
        "WITH high_earners AS (\
             SELECT name, dept, salary FROM employees WHERE salary >= 80000\
         ), \
         top_depts AS (\
             SELECT dept FROM high_earners\
         ) \
         SELECT * FROM top_depts ORDER BY dept",
    );
    // salary >= 80000: alice(eng, 90k), bob(eng, 85k)
    assert_eq!(rows.len(), 2);
    assert_eq!(rows[0].values[0], Value::Text("eng".into()));
    assert_eq!(rows[1].values[0], Value::Text("eng".into()));
}

#[test]
fn not_in_subquery() {
    let mut engine = EngineBuilder::for_testing().build().unwrap();
    let (session, _) = engine.startup(startup_params()).expect("startup");
    setup_schema(&mut engine, &session).unwrap();

    let rows = query_rows(
        &mut engine,
        &session,
        "SELECT name FROM employees \
         WHERE dept NOT IN (SELECT dept FROM departments WHERE budget < 250000) \
         ORDER BY name",
    );
    // budget < 250000: hr(200k). Exclude hr. Keep eng and sales.
    assert_eq!(rows.len(), 4);
    assert_eq!(rows[0].values[0], Value::Text("alice".into()));
    assert_eq!(rows[1].values[0], Value::Text("bob".into()));
    assert_eq!(rows[2].values[0], Value::Text("carol".into()));
    assert_eq!(rows[3].values[0], Value::Text("dave".into()));
}

#[test]
fn count_distinct_values() {
    let mut engine = EngineBuilder::for_testing().build().unwrap();
    let (session, _) = engine.startup(startup_params()).expect("startup");
    setup_schema(&mut engine, &session).unwrap();

    let rows = query_rows(
        &mut engine,
        &session,
        "SELECT COUNT(DISTINCT dept) FROM employees",
    );
    assert_eq!(rows.len(), 1);
    assert_eq!(rows[0].values[0], Value::BigInt(3));
}

#[test]
fn position_in_string() {
    let mut engine = EngineBuilder::for_testing().build().unwrap();
    let (session, _) = engine.startup(startup_params()).expect("startup");

    let rows = query_rows(&mut engine, &session, "SELECT position('hello world', 'lo')");
    assert_eq!(rows.len(), 1);
    assert_eq!(rows[0].values[0], Value::Int(4));
}

#[test]
fn lpad_rpad_padding() {
    let mut engine = EngineBuilder::for_testing().build().unwrap();
    let (session, _) = engine.startup(startup_params()).expect("startup");

    let rows = query_rows(
        &mut engine,
        &session,
        "SELECT LPAD('42', 5, '0'), RPAD('hi', 5, '!')",
    );
    assert_eq!(rows.len(), 1);
    assert_eq!(rows[0].values[0], Value::Text("00042".into()));
    assert_eq!(rows[0].values[1], Value::Text("hi!!!".into()));
}

#[test]
fn not_exists_subquery() {
    let mut engine = EngineBuilder::for_testing().build().unwrap();
    let (session, _) = engine.startup(startup_params()).expect("startup");

    let rows = query_rows(
        &mut engine,
        &session,
        "CREATE TABLE items (id INT, name TEXT); \
         INSERT INTO items VALUES (1, 'a'), (2, 'b'); \
         CREATE TABLE empty_ref (id INT); \
         SELECT name FROM items WHERE NOT EXISTS (SELECT 1 FROM empty_ref) ORDER BY name",
    );
    // empty_ref is empty, so NOT EXISTS is true => all rows returned
    assert_eq!(rows.len(), 2);
    assert_eq!(rows[0].values[0], Value::Text("a".into()));
    assert_eq!(rows[1].values[0], Value::Text("b".into()));
}

#[test]
fn scalar_subquery_in_where() {
    let mut engine = EngineBuilder::for_testing().build().unwrap();
    let (session, _) = engine.startup(startup_params()).expect("startup");
    setup_schema(&mut engine, &session).unwrap();

    let rows = query_rows(
        &mut engine,
        &session,
        "SELECT name FROM employees \
         WHERE salary > (SELECT MIN(salary) FROM employees) \
         ORDER BY salary DESC",
    );
    // min salary = 60000 (eve). All others > 60000.
    assert_eq!(rows.len(), 5);
    assert_eq!(rows[0].values[0], Value::Text("alice".into()));
}

#[test]
fn case_when_null_handling() {
    let mut engine = EngineBuilder::for_testing().build().unwrap();
    let (session, _) = engine.startup(startup_params()).expect("startup");

    let rows = query_rows(
        &mut engine,
        &session,
        "CREATE TABLE t_case (id INT, status TEXT); \
         INSERT INTO t_case VALUES (1, 'active'), (2, NULL), (3, 'inactive'); \
         SELECT id, CASE WHEN status IS NULL THEN 'unknown' ELSE status END AS st \
         FROM t_case ORDER BY id",
    );
    assert_eq!(rows.len(), 3);
    assert_eq!(rows[0].values[1], Value::Text("active".into()));
    assert_eq!(rows[1].values[1], Value::Text("unknown".into()));
    assert_eq!(rows[2].values[1], Value::Text("inactive".into()));
}

#[test]
fn repeat_string() {
    let mut engine = EngineBuilder::for_testing().build().unwrap();
    let (session, _) = engine.startup(startup_params()).expect("startup");

    let rows = query_rows(&mut engine, &session, "SELECT REPEAT('ab', 3)");
    assert_eq!(rows.len(), 1);
    assert_eq!(rows[0].values[0], Value::Text("ababab".into()));
}

#[test]
fn window_sum_over_partition() {
    let mut engine = EngineBuilder::for_testing().build().unwrap();
    let (session, _) = engine.startup(startup_params()).expect("startup");
    setup_schema(&mut engine, &session).unwrap();

    let rows = query_rows(
        &mut engine,
        &session,
        "SELECT name, dept, SUM(salary) OVER (PARTITION BY dept) AS dept_total \
         FROM employees WHERE id <= 4 ORDER BY dept, name",
    );
    assert_eq!(rows.len(), 4);
    assert_eq!(rows[0].values[2], Value::Int(175000)); // eng
    assert_eq!(rows[1].values[2], Value::Int(175000));
    assert_eq!(rows[2].values[2], Value::Int(145000)); // sales
    assert_eq!(rows[3].values[2], Value::Int(145000));
}

#[test]
fn cte_join_pattern() {
    let mut engine = EngineBuilder::for_testing().build().unwrap();
    let (session, _) = engine.startup(startup_params()).expect("startup");
    setup_schema(&mut engine, &session).unwrap();

    let rows = query_rows(
        &mut engine,
        &session,
        "WITH eng_emp AS (\
             SELECT name, dept FROM employees WHERE dept = 'eng'\
         ) \
         SELECT e.name, d.budget \
         FROM eng_emp e \
         JOIN departments d ON e.dept = d.dept \
         ORDER BY e.name",
    );
    assert_eq!(rows.len(), 2);
    assert_eq!(rows[0].values[0], Value::Text("alice".into()));
    assert_eq!(rows[0].values[1], Value::Int(500000));
    assert_eq!(rows[1].values[0], Value::Text("bob".into()));
    assert_eq!(rows[1].values[1], Value::Int(500000));
}

#[test]
fn nested_scalar_subqueries() {
    let mut engine = EngineBuilder::for_testing().build().unwrap();
    let (session, _) = engine.startup(startup_params()).expect("startup");
    setup_schema(&mut engine, &session).unwrap();

    let rows = query_rows(
        &mut engine,
        &session,
        "SELECT (SELECT MIN(salary) FROM employees) + (SELECT MAX(salary) FROM employees)",
    );
    assert_eq!(rows.len(), 1);
    // 60000 + 90000 = 150000
    assert_eq!(rows[0].values[0], Value::Int(150000));
}

#[test]
fn complex_cte_aggregate_query() {
    let mut engine = EngineBuilder::for_testing().build().unwrap();
    let (session, _) = engine.startup(startup_params()).expect("startup");
    setup_schema(&mut engine, &session).unwrap();

    let rows = query_rows(
        &mut engine,
        &session,
        "WITH dept_stats(dept, cnt, total) AS (\
             SELECT dept, COUNT(*), SUM(salary) \
             FROM employees WHERE active = true GROUP BY dept\
         ) \
         SELECT * FROM dept_stats ORDER BY total DESC LIMIT 2",
    );
    assert_eq!(rows.len(), 2);
    // eng active: cnt=2, total=175000. sales active: cnt=1, total=75000.
    // hr active: cnt=1, total=60000.
    assert_eq!(rows[0].values[0], Value::Text("eng".into()));
    assert_eq!(rows[0].values[1], Value::BigInt(2));
    assert_eq!(rows[0].values[2], Value::Int(175000));
    assert_eq!(rows[1].values[0], Value::Text("sales".into()));
    assert_eq!(rows[1].values[1], Value::BigInt(1));
    assert_eq!(rows[1].values[2], Value::Int(75000));
}
