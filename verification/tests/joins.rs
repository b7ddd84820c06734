use aiondb_engine::auth::StartupParams;
use aiondb_engine::engine::Engine;
use aiondb_engine::engine::EngineBuilder;
use aiondb_engine::engine::SessionHandle;
use aiondb_engine::fixtures::setup_join_tables;
use aiondb_engine::fixtures::startup_as;
use aiondb_engine::harness;
use aiondb_engine::value::Row;
use aiondb_engine::value::Value;

fn startup_params() -> StartupParams {
    startup_as("alice")
}

fn query_rows(engine: &mut Engine, session: &SessionHandle, sql: &str) -> Vec<Row> {
    harness::query_rows(engine, session, sql).expect("query rows")
}

#[test]
fn inner_join_basic() {
    let mut engine = EngineBuilder::for_testing().build().unwrap();
    let (session, _) = engine.startup(startup_params()).expect("startup");
    setup_join_tables(&mut engine, &session).unwrap();

    let rows = query_rows(
        &mut engine,
        &session,
        "SELECT u.name, d.dept_name \
         FROM users u \
         JOIN depts d ON u.dept_id = d.id \
         ORDER BY u.name",
    );
    assert_eq!(rows.len(), 3);
    assert_eq!(rows[0].values[0], Value::Text("alice".into()));
    assert_eq!(rows[0].values[1], Value::Text("engineering".into()));
    assert_eq!(rows[1].values[0], Value::Text("bob".into()));
    assert_eq!(rows[1].values[1], Value::Text("sales".into()));
    assert_eq!(rows[2].values[0], Value::Text("carol".into()));
    assert_eq!(rows[2].values[1], Value::Text("engineering".into()));
}

#[test]
fn left_join_includes_non_matching() {
    let mut engine = EngineBuilder::for_testing().build().unwrap();
    let (session, _) = engine.startup(startup_params()).expect("startup");
    setup_join_tables(&mut engine, &session).unwrap();

    let rows = query_rows(
        &mut engine,
        &session,
        "SELECT u.name, d.dept_name \
         FROM users u \
         LEFT JOIN depts d ON u.dept_id = d.id \
         ORDER BY u.name",
    );
    assert_eq!(rows.len(), 5);
    let dave = rows
        .iter()
        .find(|r| r.values[0] == Value::Text("dave".into()))
        .unwrap();
    assert_eq!(dave.values[1], Value::Null);
    let eve = rows
        .iter()
        .find(|r| r.values[0] == Value::Text("eve".into()))
        .unwrap();
    assert_eq!(eve.values[1], Value::Null);
}

#[test]
fn right_join_includes_unmatched_right() {
    let mut engine = EngineBuilder::for_testing().build().unwrap();
    let (session, _) = engine.startup(startup_params()).expect("startup");
    setup_join_tables(&mut engine, &session).unwrap();

    let rows = query_rows(
        &mut engine,
        &session,
        "SELECT u.name, d.dept_name \
         FROM users u \
         RIGHT JOIN depts d ON u.dept_id = d.id \
         ORDER BY d.dept_name, u.name",
    );
    // engineering: alice, carol. marketing: NULL user. sales: bob.
    assert!(rows.len() >= 4);
    let marketing = rows
        .iter()
        .find(|r| r.values[1] == Value::Text("marketing".into()))
        .unwrap();
    assert_eq!(marketing.values[0], Value::Null);
}

#[test]
fn full_join_includes_unmatched_rows_from_both_sides() {
    let mut engine = EngineBuilder::for_testing().build().unwrap();
    let (session, _) = engine.startup(startup_params()).expect("startup");
    setup_join_tables(&mut engine, &session).unwrap();

    let rows = query_rows(
        &mut engine,
        &session,
        "SELECT u.name, d.dept_name \
         FROM users u \
         FULL OUTER JOIN depts d ON u.dept_id = d.id \
         ORDER BY d.dept_name NULLS FIRST, u.name NULLS FIRST",
    );

    assert_eq!(rows.len(), 6);
    let dave = rows
        .iter()
        .find(|r| r.values[0] == Value::Text("dave".into()))
        .expect("dave row should exist");
    assert_eq!(dave.values[1], Value::Null);
    let eve = rows
        .iter()
        .find(|r| r.values[0] == Value::Text("eve".into()))
        .expect("eve row should exist");
    assert_eq!(eve.values[1], Value::Null);
    let marketing = rows
        .iter()
        .find(|r| r.values[1] == Value::Text("marketing".into()))
        .expect("marketing row should exist");
    assert_eq!(marketing.values[0], Value::Null);
}

#[test]
fn cross_join_cartesian_product() {
    let mut engine = EngineBuilder::for_testing().build().unwrap();
    let (session, _) = engine.startup(startup_params()).expect("startup");

    let rows = query_rows(
        &mut engine,
        &session,
        "CREATE TABLE colors (c TEXT); \
         INSERT INTO colors VALUES ('red'), ('blue'); \
         CREATE TABLE sizes (s TEXT); \
         INSERT INTO sizes VALUES ('S'), ('M'), ('L'); \
         SELECT c, s FROM colors CROSS JOIN sizes ORDER BY c, s",
    );
    assert_eq!(rows.len(), 6);
    assert_eq!(rows[0].values[0], Value::Text("blue".into()));
    assert_eq!(rows[0].values[1], Value::Text("L".into()));
}

#[test]
fn self_join_find_pairs() {
    let mut engine = EngineBuilder::for_testing().build().unwrap();
    let (session, _) = engine.startup(startup_params()).expect("startup");
    setup_join_tables(&mut engine, &session).unwrap();

    let rows = query_rows(
        &mut engine,
        &session,
        "SELECT a.name, b.name \
         FROM users a \
         JOIN users b ON a.dept_id = b.dept_id AND a.id < b.id \
         ORDER BY a.name, b.name",
    );
    // Same dept pairs: alice(1,10) & carol(3,10) => (alice, carol)
    assert_eq!(rows.len(), 1);
    assert_eq!(rows[0].values[0], Value::Text("alice".into()));
    assert_eq!(rows[0].values[1], Value::Text("carol".into()));
}

#[test]
fn qualified_star_self_join_keeps_each_alias_bound_to_its_own_columns() {
    let mut engine = EngineBuilder::for_testing().build().unwrap();
    let (session, _) = engine.startup(startup_params()).expect("startup");
    setup_join_tables(&mut engine, &session).unwrap();

    let rows = query_rows(
        &mut engine,
        &session,
        "SELECT a.*, b.* \
         FROM users a \
         JOIN users b ON a.dept_id = b.dept_id AND a.id < b.id \
         ORDER BY a.id, b.id",
    );

    assert_eq!(rows.len(), 1);
    assert_eq!(rows[0].values[0], Value::Int(1));
    assert_eq!(rows[0].values[1], Value::Text("alice".into()));
    assert_eq!(rows[0].values[2], Value::Int(10));
    assert_eq!(rows[0].values[3], Value::Int(3));
    assert_eq!(rows[0].values[4], Value::Text("carol".into()));
    assert_eq!(rows[0].values[5], Value::Int(10));
}

#[test]
fn left_join_anti_join_pattern() {
    let mut engine = EngineBuilder::for_testing().build().unwrap();
    let (session, _) = engine.startup(startup_params()).expect("startup");
    setup_join_tables(&mut engine, &session).unwrap();

    let rows = query_rows(
        &mut engine,
        &session,
        "SELECT u.name \
         FROM users u \
         LEFT JOIN depts d ON u.dept_id = d.id \
         WHERE d.id IS NULL \
         ORDER BY u.name",
    );
    // dave (dept_id=30, no match) and eve (dept_id=NULL)
    assert_eq!(rows.len(), 2);
    assert_eq!(rows[0].values[0], Value::Text("dave".into()));
    assert_eq!(rows[1].values[0], Value::Text("eve".into()));
}

#[test]
fn left_join_coalesce_default() {
    let mut engine = EngineBuilder::for_testing().build().unwrap();
    let (session, _) = engine.startup(startup_params()).expect("startup");
    setup_join_tables(&mut engine, &session).unwrap();

    let rows = query_rows(
        &mut engine,
        &session,
        "SELECT u.name, COALESCE(d.dept_name, 'unassigned') AS dept \
         FROM users u \
         LEFT JOIN depts d ON u.dept_id = d.id \
         ORDER BY u.name",
    );
    assert_eq!(rows.len(), 5);
    let dave = rows
        .iter()
        .find(|r| r.values[0] == Value::Text("dave".into()))
        .unwrap();
    assert_eq!(dave.values[1], Value::Text("unassigned".into()));
}

#[test]
fn join_with_case_when() {
    let mut engine = EngineBuilder::for_testing().build().unwrap();
    let (session, _) = engine.startup(startup_params()).expect("startup");
    setup_join_tables(&mut engine, &session).unwrap();

    let rows = query_rows(
        &mut engine,
        &session,
        "SELECT u.name, \
                CASE WHEN d.dept_name IS NOT NULL THEN d.dept_name \
                     ELSE 'no dept' END AS dept \
         FROM users u \
         LEFT JOIN depts d ON u.dept_id = d.id \
         WHERE u.id IN (1, 4, 5) \
         ORDER BY u.id",
    );
    assert_eq!(rows.len(), 3);
    assert_eq!(rows[0].values[1], Value::Text("engineering".into()));
    assert_eq!(rows[1].values[1], Value::Text("no dept".into())); // dave
    assert_eq!(rows[2].values[1], Value::Text("no dept".into())); // eve
}

#[test]
fn cte_with_join() {
    let mut engine = EngineBuilder::for_testing().build().unwrap();
    let (session, _) = engine.startup(startup_params()).expect("startup");
    setup_join_tables(&mut engine, &session).unwrap();

    let rows = query_rows(
        &mut engine,
        &session,
        "WITH user_depts AS (\
             SELECT u.name, d.dept_name \
             FROM users u \
             JOIN depts d ON u.dept_id = d.id\
         ) \
         SELECT * FROM user_depts ORDER BY name",
    );
    assert_eq!(rows.len(), 3);
    assert_eq!(rows[0].values[0], Value::Text("alice".into()));
    assert_eq!(rows[0].values[1], Value::Text("engineering".into()));
    assert_eq!(rows[1].values[0], Value::Text("bob".into()));
    assert_eq!(rows[1].values[1], Value::Text("sales".into()));
    assert_eq!(rows[2].values[0], Value::Text("carol".into()));
    assert_eq!(rows[2].values[1], Value::Text("engineering".into()));
}

#[test]
fn join_with_where_and_order() {
    let mut engine = EngineBuilder::for_testing().build().unwrap();
    let (session, _) = engine.startup(startup_params()).expect("startup");
    setup_join_tables(&mut engine, &session).unwrap();

    let rows = query_rows(
        &mut engine,
        &session,
        "SELECT u.name, d.dept_name \
         FROM users u \
         JOIN depts d ON u.dept_id = d.id \
         WHERE d.dept_name = 'engineering' \
         ORDER BY u.name",
    );
    assert_eq!(rows.len(), 2);
    assert_eq!(rows[0].values[0], Value::Text("alice".into()));
    assert_eq!(rows[1].values[0], Value::Text("carol".into()));
}

#[test]
fn join_with_string_functions() {
    let mut engine = EngineBuilder::for_testing().build().unwrap();
    let (session, _) = engine.startup(startup_params()).expect("startup");
    setup_join_tables(&mut engine, &session).unwrap();

    let rows = query_rows(
        &mut engine,
        &session,
        "SELECT UPPER(u.name), d.dept_name \
         FROM users u \
         JOIN depts d ON u.dept_id = d.id \
         ORDER BY u.name",
    );
    assert_eq!(rows.len(), 3);
    assert_eq!(rows[0].values[0], Value::Text("ALICE".into()));
    assert_eq!(rows[1].values[0], Value::Text("BOB".into()));
    assert_eq!(rows[2].values[0], Value::Text("CAROL".into()));
}

#[test]
fn join_with_limit_offset() {
    let mut engine = EngineBuilder::for_testing().build().unwrap();
    let (session, _) = engine.startup(startup_params()).expect("startup");
    setup_join_tables(&mut engine, &session).unwrap();

    let rows = query_rows(
        &mut engine,
        &session,
        "SELECT u.name, d.dept_name \
         FROM users u \
         JOIN depts d ON u.dept_id = d.id \
         ORDER BY u.name \
         LIMIT 2 OFFSET 1",
    );
    assert_eq!(rows.len(), 2);
    assert_eq!(rows[0].values[0], Value::Text("bob".into()));
    assert_eq!(rows[1].values[0], Value::Text("carol".into()));
}

#[test]
fn join_with_distinct() {
    let mut engine = EngineBuilder::for_testing().build().unwrap();
    let (session, _) = engine.startup(startup_params()).expect("startup");
    setup_join_tables(&mut engine, &session).unwrap();

    let rows = query_rows(
        &mut engine,
        &session,
        "SELECT DISTINCT d.dept_name \
         FROM users u \
         JOIN depts d ON u.dept_id = d.id \
         ORDER BY d.dept_name",
    );
    // engineering and sales (marketing has no users)
    assert_eq!(rows.len(), 2);
    assert_eq!(rows[0].values[0], Value::Text("engineering".into()));
    assert_eq!(rows[1].values[0], Value::Text("sales".into()));
}

#[test]
fn join_using_alias_exposes_merged_column_namespace() {
    let mut engine = EngineBuilder::for_testing().build().unwrap();
    let (session, _) = engine.startup(startup_params()).expect("startup");
    engine
        .execute_sql(
            &session,
            "CREATE TABLE j1_tbl (i INT, j INT, t TEXT); \
             CREATE TABLE j2_tbl (i INT, k INT); \
             INSERT INTO j1_tbl VALUES (1, 4, 'one'), (2, 3, 'two'); \
             INSERT INTO j2_tbl VALUES (1, -1), (2, 2)",
        )
        .expect("setup using alias tables");

    let rows = query_rows(
        &mut engine,
        &session,
        "SELECT x.i \
         FROM j1_tbl JOIN j2_tbl USING (i) AS x \
         WHERE x.i = 1",
    );
    assert_eq!(rows.len(), 1);
    assert_eq!(rows[0].values, vec![Value::Int(1)]);
}

#[test]
fn join_using_alias_qualified_star_expands_using_columns_only() {
    let mut engine = EngineBuilder::for_testing().build().unwrap();
    let (session, _) = engine.startup(startup_params()).expect("startup");
    engine
        .execute_sql(
            &session,
            "CREATE TABLE j1_tbl (i INT, j INT, t TEXT); \
             CREATE TABLE j2_tbl (i INT, k INT); \
             INSERT INTO j1_tbl VALUES (1, 4, 'one'), (2, 3, 'two'); \
             INSERT INTO j2_tbl VALUES (1, -1), (2, 2)",
        )
        .expect("setup using alias star tables");

    let rows = query_rows(
        &mut engine,
        &session,
        "SELECT x.* \
         FROM j1_tbl JOIN j2_tbl USING (i) AS x \
         WHERE j1_tbl.t = 'one'",
    );
    assert_eq!(rows.len(), 1);
    assert_eq!(rows[0].values, vec![Value::Int(1)]);
}

#[test]
fn join_using_alias_does_not_expose_non_using_columns() {
    let mut engine = EngineBuilder::for_testing().build().unwrap();
    let (session, _) = engine.startup(startup_params()).expect("startup");
    engine
        .execute_sql(
            &session,
            "CREATE TABLE j1_tbl (i INT, j INT, t TEXT); \
             CREATE TABLE j2_tbl (i INT, k INT); \
             INSERT INTO j1_tbl VALUES (1, 4, 'one'); \
             INSERT INTO j2_tbl VALUES (1, -1)",
        )
        .expect("setup using alias negative tables");

    let error = engine
        .execute_sql(
            &session,
            "SELECT x.t FROM j1_tbl JOIN j2_tbl USING (i) AS x",
        )
        .expect_err("x.t should remain invalid");
    let message = error.to_string();
    assert!(message.contains("column"), "unexpected error: {message}");
    assert!(
        message.contains("does not exist"),
        "unexpected error: {message}"
    );
}
