use aiondb_engine::auth::StartupParams;
use aiondb_engine::engine::Engine;
use aiondb_engine::engine::EngineBuilder;
use aiondb_engine::engine::SessionHandle;
use aiondb_engine::fault::SqlState;
use aiondb_engine::fixtures::setup_schema;
use aiondb_engine::fixtures::startup_as;
use aiondb_engine::harness;
use aiondb_engine::value::Row;
use aiondb_engine::value::StatementResult;
use aiondb_engine::value::Value;

fn startup_params() -> StartupParams {
    startup_as("alice")
}

fn query_rows(engine: &mut Engine, session: &SessionHandle, sql: &str) -> Vec<Row> {
    harness::query_rows(engine, session, sql).expect("query rows")
}

#[test]
fn select_where_order_limit() {
    let mut engine = EngineBuilder::for_testing().build().unwrap();
    let (session, _) = engine.startup(startup_params()).expect("startup");
    setup_schema(&mut engine, &session).unwrap();

    let rows = query_rows(
        &mut engine,
        &session,
        "SELECT name, salary FROM employees WHERE salary > 70000 ORDER BY salary DESC LIMIT 3",
    );
    assert_eq!(rows.len(), 3);
    assert_eq!(rows[0].values[0], Value::Text("alice".into()));
    assert_eq!(rows[0].values[1], Value::Int(90000));
    assert_eq!(rows[1].values[0], Value::Text("bob".into()));
    assert_eq!(rows[2].values[0], Value::Text("dave".into()));
}

#[test]
fn select_limit_offset_pagination() {
    let mut engine = EngineBuilder::for_testing().build().unwrap();
    let (session, _) = engine.startup(startup_params()).expect("startup");
    setup_schema(&mut engine, &session).unwrap();

    let rows = query_rows(
        &mut engine,
        &session,
        "SELECT name FROM employees ORDER BY id LIMIT 2 OFFSET 2",
    );
    assert_eq!(rows.len(), 2);
    assert_eq!(rows[0].values[0], Value::Text("carol".into()));
    assert_eq!(rows[1].values[0], Value::Text("dave".into()));
}

#[test]
fn group_by_with_all_aggregates() {
    let mut engine = EngineBuilder::for_testing().build().unwrap();
    let (session, _) = engine.startup(startup_params()).expect("startup");
    setup_schema(&mut engine, &session).unwrap();

    let rows = query_rows(
        &mut engine,
        &session,
        "SELECT dept, COUNT(*), SUM(salary), MIN(salary), MAX(salary) \
         FROM employees GROUP BY dept ORDER BY dept",
    );
    assert_eq!(rows.len(), 3);
    // eng: 2 employees, sum=175000
    assert_eq!(rows[0].values[0], Value::Text("eng".into()));
    assert_eq!(rows[0].values[1], Value::BigInt(2));
    assert_eq!(rows[0].values[2], Value::Int(175000));
    assert_eq!(rows[0].values[3], Value::Int(85000));
    assert_eq!(rows[0].values[4], Value::Int(90000));
}

#[test]
fn having_filters_groups() {
    let mut engine = EngineBuilder::for_testing().build().unwrap();
    let (session, _) = engine.startup(startup_params()).expect("startup");
    setup_schema(&mut engine, &session).unwrap();

    let rows = query_rows(
        &mut engine,
        &session,
        "SELECT dept, SUM(salary) FROM employees \
         GROUP BY dept HAVING SUM(salary) > 150000 ORDER BY dept",
    );
    // eng: 175000 > 150000. sales: 145000. hr: 125000.
    assert_eq!(rows.len(), 1);
    assert_eq!(rows[0].values[0], Value::Text("eng".into()));
    assert_eq!(rows[0].values[1], Value::Int(175000));
}

#[test]
fn having_without_group_by_uses_scalar_group_semantics() {
    let mut engine = EngineBuilder::for_testing().build().unwrap();
    let (session, _) = engine.startup(startup_params()).expect("startup");
    setup_schema(&mut engine, &session).unwrap();

    let rows = query_rows(
        &mut engine,
        &session,
        "SELECT 1 AS one FROM employees HAVING 1 < 2",
    );
    assert_eq!(rows.len(), 1);
    assert_eq!(rows[0].values[0], Value::Int(1));

    let rows = query_rows(
        &mut engine,
        &session,
        "SELECT 1 AS one FROM employees HAVING 1 > 2",
    );
    assert!(rows.is_empty());
}

#[test]
fn having_without_group_by_skips_relation_dependent_where_when_not_needed() {
    let mut engine = EngineBuilder::for_testing().build().unwrap();
    let (session, _) = engine.startup(startup_params()).expect("startup");

    engine
        .execute_sql(
            &session,
            "CREATE TABLE test_having (a INT); INSERT INTO test_having VALUES (0), (1), (2)",
        )
        .expect("setup test_having");

    let rows = query_rows(
        &mut engine,
        &session,
        "SELECT 1 AS one FROM test_having WHERE 1 / a = 1 HAVING 1 < 2",
    );
    assert_eq!(rows.len(), 1);
    assert_eq!(rows[0].values[0], Value::Int(1));
}

#[test]
fn having_without_group_by_rejects_ungrouped_columns() {
    let mut engine = EngineBuilder::for_testing().build().unwrap();
    let (session, _) = engine.startup(startup_params()).expect("startup");
    setup_schema(&mut engine, &session).unwrap();

    let err = engine
        .execute_sql(
            &session,
            "SELECT id FROM employees HAVING min(id) < max(id)",
        )
        .expect_err("ungrouped projection column should fail");
    assert!(err.to_string().contains(
        "column \"employees.id\" must appear in the GROUP BY clause or be used in an aggregate function"
    ));

    let err = engine
        .execute_sql(&session, "SELECT 1 AS one FROM employees HAVING id > 1")
        .expect_err("ungrouped HAVING column should fail");
    assert!(err.to_string().contains(
        "column \"employees.id\" must appear in the GROUP BY clause or be used in an aggregate function"
    ));
}

#[test]
fn group_by_accepts_qualified_select_and_unqualified_derived_column() {
    let mut engine = EngineBuilder::for_testing().build().unwrap();
    let (session, _) = engine.startup(startup_params()).expect("startup");

    engine
        .execute_sql(
            &session,
            "CREATE TABLE group_alias_probe (attoptions TEXT); \
             INSERT INTO group_alias_probe VALUES ('fillfactor=80'), ('fillfactor=80')",
        )
        .expect("create group alias probe");

    let rows = query_rows(
        &mut engine,
        &session,
        "SELECT s2.attoptions, COUNT(*) \
         FROM (SELECT attoptions FROM group_alias_probe) s2 \
         GROUP BY attoptions",
    );
    assert_eq!(rows.len(), 1);
    assert_eq!(rows[0].values[0], Value::Text("fillfactor=80".into()));
    assert_eq!(rows[0].values[1], Value::BigInt(2));
}

#[test]
fn lower_on_char_trims_padding_like_postgres() {
    let mut engine = EngineBuilder::for_testing().build().unwrap();
    let (session, _) = engine.startup(startup_params()).expect("startup");

    let rows = query_rows(
        &mut engine,
        &session,
        "CREATE TABLE test_char_lower (c CHAR(8)); \
         INSERT INTO test_char_lower VALUES ('BBBB'), ('XXXX'); \
         SELECT lower(c) FROM test_char_lower ORDER BY lower(c)",
    );
    assert_eq!(rows.len(), 2);
    assert_eq!(rows[0].values[0], Value::Text("bbbb".into()));
    assert_eq!(rows[1].values[0], Value::Text("xxxx".into()));
}

#[test]
fn set_constraints_succeeds_with_real_deferred_fk_runtime() {
    let mut engine = EngineBuilder::for_testing().build().unwrap();
    let (session, _) = engine.startup(startup_params()).expect("startup");

    // No constraint of a table can be put off, so the command has nothing to do.
    let results = engine
        .execute_sql(&session, "SET CONSTRAINTS ALL IMMEDIATE")
        .expect("SET CONSTRAINTS should succeed via the typed AST path");
    assert_eq!(
        results,
        vec![StatementResult::Command {
            tag: "SET CONSTRAINTS".to_owned(),
            rows_affected: 0,
        }]
    );
}

#[test]
fn prepared_transaction_commands_report_missing_gid() {
    let mut engine = EngineBuilder::for_testing().build().unwrap();
    let (session, _) = engine.startup(startup_params()).expect("startup");

    let error = engine
        .execute_sql(
            &session,
            "COMMIT PREPARED 'gid-1'; ROLLBACK PREPARED 'gid-2'",
        )
        .expect_err("prepared transaction commands should fail fast");
    assert_eq!(error.sqlstate(), SqlState::UndefinedObject);
    assert!(error
        .report()
        .message
        .contains("prepared transaction with identifier \"gid-1\" does not exist"));
}

#[test]
fn rows_from_single_supported_srf_executes() {
    let mut engine = EngineBuilder::for_testing().build().unwrap();
    let (session, _) = engine.startup(startup_params()).expect("startup");

    let rows = query_rows(
        &mut engine,
        &session,
        "SELECT * FROM ROWS FROM (generate_series(1, 3))",
    );
    assert_eq!(rows.len(), 3);
    assert_eq!(rows[0].values[0], Value::Int(1));
    assert_eq!(rows[1].values[0], Value::Int(2));
    assert_eq!(rows[2].values[0], Value::Int(3));
}

#[test]
fn insert_select_from_generate_series_populates_all_rows() {
    let mut engine = EngineBuilder::for_testing().build().unwrap();
    let (session, _) = engine.startup(startup_params()).expect("startup");

    engine
        .execute_sql(
            &session,
            "CREATE TABLE bulk_insert_t (id INT, bucket INT, payload TEXT); \
             INSERT INTO bulk_insert_t \
             SELECT g, g % 11, 'payload' FROM generate_series(1, 2048) AS g",
        )
        .expect("bulk insert from generate_series");

    let rows = query_rows(
        &mut engine,
        &session,
        "SELECT COUNT(*), MIN(id), MAX(id) FROM bulk_insert_t",
    );
    assert_eq!(rows.len(), 1);
    assert_eq!(rows[0].values[0], Value::BigInt(2048));
    assert_eq!(rows[0].values[1], Value::Int(1));
    assert_eq!(rows[0].values[2], Value::Int(2048));
}

#[test]
fn insert_select_from_aliased_generate_series() {
    let mut engine = EngineBuilder::for_testing().build().unwrap();
    let (session, _) = engine.startup(startup_params()).expect("startup");

    engine
        .execute_sql(
            &session,
            "CREATE TABLE base_tbl (a int PRIMARY KEY, b text DEFAULT 'Unspecified'); \
             INSERT INTO base_tbl SELECT i, 'Row ' || i FROM generate_series(-2, 2) g(i);",
        )
        .expect("insert with aliased generate_series");

    let rows = query_rows(&mut engine, &session, "SELECT count(*) FROM base_tbl");
    assert_eq!(rows[0].values[0], Value::BigInt(5));
}

#[test]
fn case_when_expression() {
    let mut engine = EngineBuilder::for_testing().build().unwrap();
    let (session, _) = engine.startup(startup_params()).expect("startup");
    setup_schema(&mut engine, &session).unwrap();

    let rows = query_rows(
        &mut engine,
        &session,
        "SELECT name, \
                CASE WHEN salary >= 80000 THEN 'high' \
                     WHEN salary >= 65000 THEN 'mid' \
                     ELSE 'low' END AS tier \
         FROM employees ORDER BY id",
    );
    assert_eq!(rows.len(), 6);
    assert_eq!(rows[0].values[1], Value::Text("high".into())); // alice 90k
    assert_eq!(rows[1].values[1], Value::Text("high".into())); // bob 85k
    assert_eq!(rows[2].values[1], Value::Text("mid".into())); // carol 70k
    assert_eq!(rows[4].values[1], Value::Text("low".into())); // eve 60k
}

#[test]
fn coalesce_returns_first_non_null() {
    let mut engine = EngineBuilder::for_testing().build().unwrap();
    let (session, _) = engine.startup(startup_params()).expect("startup");

    let rows = query_rows(
        &mut engine,
        &session,
        "CREATE TABLE t_coal (a INT, b INT); \
         INSERT INTO t_coal VALUES (NULL, 10), (5, 20), (NULL, NULL); \
         SELECT COALESCE(a, b, 0) FROM t_coal ORDER BY COALESCE(a, b, 0)",
    );
    assert_eq!(rows.len(), 3);
    assert_eq!(rows[0].values[0], Value::Int(0));
    assert_eq!(rows[1].values[0], Value::Int(5));
    assert_eq!(rows[2].values[0], Value::Int(10));
}

#[test]
fn nullif_returns_null_when_equal() {
    let mut engine = EngineBuilder::for_testing().build().unwrap();
    let (session, _) = engine.startup(startup_params()).expect("startup");

    let rows = query_rows(&mut engine, &session, "SELECT NULLIF(1, 1), NULLIF(1, 2)");
    assert_eq!(rows.len(), 1);
    assert_eq!(rows[0].values[0], Value::Null);
    assert_eq!(rows[0].values[1], Value::Int(1));
}

#[test]
fn is_null_and_is_not_null() {
    let mut engine = EngineBuilder::for_testing().build().unwrap();
    let (session, _) = engine.startup(startup_params()).expect("startup");

    let rows = query_rows(
        &mut engine,
        &session,
        "CREATE TABLE t_null (id INT, val INT); \
         INSERT INTO t_null VALUES (1, NULL), (2, 10), (3, NULL), (4, 20); \
         SELECT id FROM t_null WHERE val IS NULL ORDER BY id",
    );
    assert_eq!(rows.len(), 2);
    assert_eq!(rows[0].values[0], Value::Int(1));
    assert_eq!(rows[1].values[0], Value::Int(3));

    let rows2 = query_rows(
        &mut engine,
        &session,
        "SELECT id FROM t_null WHERE val IS NOT NULL ORDER BY id",
    );
    assert_eq!(rows2.len(), 2);
    assert_eq!(rows2[0].values[0], Value::Int(2));
    assert_eq!(rows2[1].values[0], Value::Int(4));
}

#[test]
fn parser_only_unsupported_compatibility_stub_fails_at_execute() {
    let mut engine = EngineBuilder::for_testing().build().unwrap();
    let (session, _) = engine.startup(startup_params()).expect("startup");

    // CREATE TRANSFORM is known by name, and refused.
    let error = engine
        .execute_sql(
            &session,
            "CREATE TRANSFORM FOR int LANGUAGE c (FROM SQL WITH FUNCTION f, \
             TO SQL WITH FUNCTION g)",
        )
        .expect_err("CREATE TRANSFORM should fail instead of reporting a fake success");
    assert_eq!(error.sqlstate(), SqlState::FeatureNotSupported);
    assert!(error.report().message.contains("CREATE TRANSFORM"));
}

#[test]
fn between_inclusive_range() {
    let mut engine = EngineBuilder::for_testing().build().unwrap();
    let (session, _) = engine.startup(startup_params()).expect("startup");
    setup_schema(&mut engine, &session).unwrap();

    let rows = query_rows(
        &mut engine,
        &session,
        "SELECT name FROM employees WHERE salary BETWEEN 65000 AND 80000 ORDER BY name",
    );
    assert_eq!(rows.len(), 3);
    assert_eq!(rows[0].values[0], Value::Text("carol".into()));
    assert_eq!(rows[1].values[0], Value::Text("dave".into()));
    assert_eq!(rows[2].values[0], Value::Text("frank".into()));
}

#[test]
fn in_list_filter() {
    let mut engine = EngineBuilder::for_testing().build().unwrap();
    let (session, _) = engine.startup(startup_params()).expect("startup");
    setup_schema(&mut engine, &session).unwrap();

    let rows = query_rows(
        &mut engine,
        &session,
        "SELECT name FROM employees WHERE dept IN ('eng', 'hr') ORDER BY name",
    );
    assert_eq!(rows.len(), 4);
    assert_eq!(rows[0].values[0], Value::Text("alice".into()));
    assert_eq!(rows[1].values[0], Value::Text("bob".into()));
    assert_eq!(rows[2].values[0], Value::Text("eve".into()));
    assert_eq!(rows[3].values[0], Value::Text("frank".into()));
}

#[test]
fn empty_in_list_semantics_match_slt_expectations() {
    let mut engine = EngineBuilder::for_testing().build().unwrap();
    let (session, _) = engine.startup(startup_params()).expect("startup");

    let rows = query_rows(
        &mut engine,
        &session,
        "SELECT 1 IN () AS in_empty, \
                1 NOT IN () AS not_in_empty, \
                NULL IN () AS null_in_empty, \
                NULL NOT IN () AS null_not_in_empty",
    );
    assert_eq!(rows.len(), 1);
    assert_eq!(rows[0].values[0], Value::Boolean(false));
    assert_eq!(rows[0].values[1], Value::Boolean(true));
    assert_eq!(rows[0].values[2], Value::Boolean(false));
    assert_eq!(rows[0].values[3], Value::Boolean(true));
}

#[test]
fn like_pattern_matching() {
    let mut engine = EngineBuilder::for_testing().build().unwrap();
    let (session, _) = engine.startup(startup_params()).expect("startup");
    setup_schema(&mut engine, &session).unwrap();

    let rows = query_rows(
        &mut engine,
        &session,
        "SELECT name FROM employees WHERE name LIKE '%a%' ORDER BY name",
    );
    assert_eq!(rows.len(), 4);
    assert_eq!(rows[0].values[0], Value::Text("alice".into()));
    assert_eq!(rows[1].values[0], Value::Text("carol".into()));
    assert_eq!(rows[2].values[0], Value::Text("dave".into()));
    assert_eq!(rows[3].values[0], Value::Text("frank".into()));
}

#[test]
fn select_distinct() {
    let mut engine = EngineBuilder::for_testing().build().unwrap();
    let (session, _) = engine.startup(startup_params()).expect("startup");
    setup_schema(&mut engine, &session).unwrap();

    let rows = query_rows(
        &mut engine,
        &session,
        "SELECT DISTINCT dept FROM employees ORDER BY dept",
    );
    assert_eq!(rows.len(), 3);
    assert_eq!(rows[0].values[0], Value::Text("eng".into()));
    assert_eq!(rows[1].values[0], Value::Text("hr".into()));
    assert_eq!(rows[2].values[0], Value::Text("sales".into()));
}

#[test]
fn cast_int_to_text_and_back() {
    let mut engine = EngineBuilder::for_testing().build().unwrap();
    let (session, _) = engine.startup(startup_params()).expect("startup");

    let rows = query_rows(
        &mut engine,
        &session,
        "SELECT CAST(42 AS TEXT), CAST('123' AS INT)",
    );
    assert_eq!(rows.len(), 1);
    assert_eq!(rows[0].values[0], Value::Text("42".into()));
    assert_eq!(rows[0].values[1], Value::Int(123));
}

#[test]
fn string_functions_upper_lower_length() {
    let mut engine = EngineBuilder::for_testing().build().unwrap();
    let (session, _) = engine.startup(startup_params()).expect("startup");

    let rows = query_rows(
        &mut engine,
        &session,
        "SELECT UPPER('hello'), LOWER('WORLD'), LENGTH('test')",
    );
    assert_eq!(rows.len(), 1);
    assert_eq!(rows[0].values[0], Value::Text("HELLO".into()));
    assert_eq!(rows[0].values[1], Value::Text("world".into()));
    assert_eq!(rows[0].values[2], Value::Int(4));
}

#[test]
fn substring_extraction() {
    let mut engine = EngineBuilder::for_testing().build().unwrap();
    let (session, _) = engine.startup(startup_params()).expect("startup");

    let rows = query_rows(&mut engine, &session, "SELECT SUBSTRING('PostgreSQL', 1, 4)");
    assert_eq!(rows.len(), 1);
    assert_eq!(rows[0].values[0], Value::Text("Post".into()));
}

#[test]
fn concat_function() {
    let mut engine = EngineBuilder::for_testing().build().unwrap();
    let (session, _) = engine.startup(startup_params()).expect("startup");

    let rows = query_rows(&mut engine, &session, "SELECT CONCAT('Hello', ' ', 'World')");
    assert_eq!(rows.len(), 1);
    assert_eq!(rows[0].values[0], Value::Text("Hello World".into()));
}

#[test]
fn string_concat_operator() {
    let mut engine = EngineBuilder::for_testing().build().unwrap();
    let (session, _) = engine.startup(startup_params()).expect("startup");

    let rows = query_rows(&mut engine, &session, "SELECT 'Hello' || ' ' || 'World'");
    assert_eq!(rows.len(), 1);
    assert_eq!(rows[0].values[0], Value::Text("Hello World".into()));
}

#[test]
fn trim_whitespace() {
    let mut engine = EngineBuilder::for_testing().build().unwrap();
    let (session, _) = engine.startup(startup_params()).expect("startup");

    let rows = query_rows(&mut engine, &session, "SELECT TRIM('  hello  ')");
    assert_eq!(rows.len(), 1);
    assert_eq!(rows[0].values[0], Value::Text("hello".into()));
}

#[test]
fn replace_in_string() {
    let mut engine = EngineBuilder::for_testing().build().unwrap();
    let (session, _) = engine.startup(startup_params()).expect("startup");

    let rows = query_rows(
        &mut engine,
        &session,
        "SELECT REPLACE('hello world', 'world', 'rust')",
    );
    assert_eq!(rows.len(), 1);
    assert_eq!(rows[0].values[0], Value::Text("hello rust".into()));
}

#[test]
fn boolean_expressions() {
    let mut engine = EngineBuilder::for_testing().build().unwrap();
    let (session, _) = engine.startup(startup_params()).expect("startup");
    setup_schema(&mut engine, &session).unwrap();

    let rows = query_rows(
        &mut engine,
        &session,
        "SELECT name FROM employees \
         WHERE (dept = 'eng' OR dept = 'hr') AND active = true \
         ORDER BY name",
    );
    assert_eq!(rows.len(), 3);
    assert_eq!(rows[0].values[0], Value::Text("alice".into()));
    assert_eq!(rows[1].values[0], Value::Text("bob".into()));
    assert_eq!(rows[2].values[0], Value::Text("eve".into()));
}

#[test]
fn arithmetic_in_select() {
    let mut engine = EngineBuilder::for_testing().build().unwrap();
    let (session, _) = engine.startup(startup_params()).expect("startup");
    setup_schema(&mut engine, &session).unwrap();

    let rows = query_rows(
        &mut engine,
        &session,
        "SELECT name, salary * 12 AS annual, salary / 1000 AS k \
         FROM employees WHERE id = 1",
    );
    assert_eq!(rows.len(), 1);
    assert_eq!(rows[0].values[1], Value::Int(1_080_000));
    assert_eq!(rows[0].values[2], Value::Int(90));
}

#[test]
fn nested_function_calls() {
    let mut engine = EngineBuilder::for_testing().build().unwrap();
    let (session, _) = engine.startup(startup_params()).expect("startup");

    let rows = query_rows(
        &mut engine,
        &session,
        "SELECT UPPER(SUBSTRING('hello world', 1, 5))",
    );
    assert_eq!(rows.len(), 1);
    assert_eq!(rows[0].values[0], Value::Text("HELLO".into()));
}

#[test]
fn cte_common_table_expression() {
    let mut engine = EngineBuilder::for_testing().build().unwrap();
    let (session, _) = engine.startup(startup_params()).expect("startup");
    setup_schema(&mut engine, &session).unwrap();

    let rows = query_rows(
        &mut engine,
        &session,
        "WITH dept_totals(dept, total) AS (\
             SELECT dept, SUM(salary) FROM employees \
             GROUP BY dept HAVING SUM(salary) > 150000\
         ) \
         SELECT * FROM dept_totals ORDER BY total DESC",
    );
    assert_eq!(rows.len(), 1);
    assert_eq!(rows[0].values[0], Value::Text("eng".into()));
    assert_eq!(rows[0].values[1], Value::Int(175000));
}

#[test]
fn union_dedup_and_union_all() {
    let mut engine = EngineBuilder::for_testing().build().unwrap();
    let (session, _) = engine.startup(startup_params()).expect("startup");
    setup_schema(&mut engine, &session).unwrap();

    let rows = query_rows(
        &mut engine,
        &session,
        "SELECT dept FROM employees WHERE active = true \
         UNION \
         SELECT dept FROM departments \
         ORDER BY dept",
    );
    assert_eq!(rows.len(), 3);
}

#[test]
fn intersect_common_values() {
    let mut engine = EngineBuilder::for_testing().build().unwrap();
    let (session, _) = engine.startup(startup_params()).expect("startup");
    setup_schema(&mut engine, &session).unwrap();

    let rows = query_rows(
        &mut engine,
        &session,
        "SELECT dept FROM employees WHERE active = true \
         INTERSECT \
         SELECT dept FROM employees WHERE active = false \
         ORDER BY dept",
    );
    assert_eq!(rows.len(), 2);
    assert_eq!(rows[0].values[0], Value::Text("hr".into()));
    assert_eq!(rows[1].values[0], Value::Text("sales".into()));
}
