use aiondb_engine::auth::StartupParams;
use aiondb_engine::engine::EngineBuilder;
use aiondb_engine::fault::SqlState;
use aiondb_engine::fixtures::startup_as;
use aiondb_engine::harness::column_names;
use aiondb_engine::value::Row;
use aiondb_engine::value::StatementResult;
use aiondb_engine::value::Value;

fn startup_params() -> StartupParams {
    startup_as("alice")
}

#[test]
fn prepared_select_star_description_refreshes_after_table_ddl() {
    let mut engine = EngineBuilder::for_testing().build().unwrap();
    let (session, _) = engine.startup(startup_params()).expect("startup");

    engine
        .execute_sql(
            &session,
            "CREATE TABLE trigtest (a integer, b integer, c integer);
             INSERT INTO trigtest VALUES (1, 2, 3)",
        )
        .expect("create test table");

    let initial = engine
        .prepare(
            &session,
            "select_trigtest".to_owned(),
            "SELECT * FROM trigtest".to_owned(),
        )
        .expect("prepare select star");
    assert_eq!(column_names(&initial.result_columns), ["a", "b", "c"]);

    engine
        .execute_sql(
            &session,
            "ALTER TABLE trigtest ADD COLUMN d integer DEFAULT 42 NOT NULL",
        )
        .expect("add column");
    let after_add = engine
        .describe_statement(&session, "select_trigtest")
        .expect("describe after add");
    assert_eq!(
        column_names(&after_add.result_columns),
        ["a", "b", "c", "d"]
    );

    engine
        .execute_sql(&session, "ALTER TABLE trigtest DROP COLUMN b")
        .expect("drop column");
    let after_drop = engine
        .describe_statement(&session, "select_trigtest")
        .expect("describe after drop");
    assert_eq!(column_names(&after_drop.result_columns), ["a", "c", "d"]);
}

#[test]
fn drop_column_rewrites_existing_rows_and_preserves_surviving_indexes() {
    let mut engine = EngineBuilder::for_testing().build().unwrap();
    let (session, _) = engine.startup(startup_params()).expect("startup");

    engine
        .execute_sql(
            &session,
            "CREATE TABLE ddl_rewrite_probe (id INT PRIMARY KEY, doomed TEXT, slug TEXT UNIQUE);
             INSERT INTO ddl_rewrite_probe VALUES
                (1, 'legacy', 'alpha'),
                (2, 'legacy', 'beta')",
        )
        .expect("create indexed probe");
    engine
        .execute_sql(&session, "ALTER TABLE ddl_rewrite_probe DROP COLUMN doomed")
        .expect("drop indexed-adjacent column");

    let results = engine
        .execute_sql(
            &session,
            "SELECT id, slug FROM ddl_rewrite_probe ORDER BY id",
        )
        .expect("select rewritten rows");
    let [StatementResult::Query { rows, .. }] = results.as_slice() else {
        panic!("expected one query result, got {results:?}");
    };
    assert_eq!(
        rows.as_slice(),
        [
            Row {
                values: vec![
                    Value::Int(1),
                    Value::Text("alpha".to_owned()),
                ],
            },
            Row {
                values: vec![
                    Value::Int(2),
                    Value::Text("beta".to_owned()),
                ],
            },
        ]
    );

    let duplicate = engine
        .execute_sql(
            &session,
            "INSERT INTO ddl_rewrite_probe (id, slug) VALUES (3, 'alpha')",
        )
        .expect_err("unique index should survive column rewrite");
    assert_eq!(duplicate.sqlstate(), SqlState::UniqueViolation);
}

#[test]
fn drop_schema_without_cascade_rejects_nonempty_schema() {
    let mut engine = EngineBuilder::for_testing().build().unwrap();
    let (session, _) = engine.startup(startup_params()).expect("startup");

    engine
        .execute_sql(
            &session,
            "CREATE SCHEMA analytics; CREATE TABLE analytics.events (id INT PRIMARY KEY)",
        )
        .expect("create schema contents");

    let error = engine
        .execute_sql(&session, "DROP SCHEMA analytics")
        .expect_err("non-empty schema should require cascade");
    assert_eq!(error.sqlstate(), SqlState::DependentObjectsStillExist);
    assert!(engine.has_schema("analytics"));
}

#[test]
fn create_schema_authorization_variants_are_accepted() {
    let mut engine = EngineBuilder::for_testing().build().unwrap();
    let (session, _) = engine.startup(startup_params()).expect("startup");

    engine
        .execute_sql(
            &session,
            "CREATE SCHEMA AUTHORIZATION app_owner; CREATE SCHEMA reporting AUTHORIZATION admin",
        )
        .expect("create schema authorization variants");

    assert!(engine.has_schema("app_owner"));
    assert!(engine.has_schema("reporting"));
}

#[test]
fn create_schema_public_reports_duplicate_schema_sqlstate() {
    let mut engine = EngineBuilder::for_testing().build().unwrap();
    let (session, _) = engine.startup(startup_params()).expect("startup");

    let error = engine
        .execute_sql(&session, r#"CREATE SCHEMA "public""#)
        .expect_err("public schema should already exist");

    assert_eq!(error.sqlstate(), SqlState::DuplicateSchema);
    assert_eq!(error.sqlstate().code(), "42P06");
}

#[test]
fn create_schema_inline_body_executes_in_created_schema() {
    // Once there is a role, schemas are made by superusers alone.
    let mut engine = EngineBuilder::for_testing().build().unwrap();
    let (session, _) = engine.startup(startup_params()).expect("startup");

    engine
        .execute_sql(
            &session,
            "CREATE ROLE regress_create_schema_role SUPERUSER LOGIN",
        )
        .expect("create role");

    let (admin_session, _) = engine
        .startup(startup_as("regress_create_schema_role"))
        .expect("admin startup");

    engine
        .execute_sql(
            &admin_session,
            "CREATE SCHEMA AUTHORIZATION regress_create_schema_role
               CREATE TABLE regress_create_schema_role.tab (id int)",
        )
        .expect("create schema with inline body");

    assert!(engine.sees_table(&session, "regress_create_schema_role", "tab").unwrap());
}

#[test]
fn create_schema_inline_body_rejects_mismatched_schema_names() {
    let mut engine = EngineBuilder::for_testing().build().unwrap();
    let (session, _) = engine.startup(startup_params()).expect("startup");

    let error = engine
        .execute_sql(
            &session,
            "CREATE SCHEMA AUTHORIZATION regress_create_schema_role
               CREATE TABLE schema_not_existing.tab (id int)",
        )
        .expect_err("schema-qualified body should reject mismatched schema");

    assert_eq!(error.sqlstate(), SqlState::InvalidSchemaName);
    assert!(
        error
            .report()
            .message
            .contains("CREATE specifies a schema (schema_not_existing) different from the one being created (regress_create_schema_role)"),
        "unexpected error: {}",
        error.report().message
    );
    assert!(!engine.has_schema("regress_create_schema_role"));
}

#[test]
fn create_schema_authorization_current_role_uses_effective_role_name() {
    let mut engine = EngineBuilder::for_testing().build().unwrap();
    let (session, _) = engine.startup(startup_params()).expect("startup");
    let current_role = "alice";

    let error = engine
        .execute_sql(
            &session,
            "CREATE SCHEMA AUTHORIZATION CURRENT_ROLE
               CREATE TABLE schema_not_existing.tab (id int)",
        )
        .expect_err("schema-qualified body should reject mismatched schema");

    assert_eq!(error.sqlstate(), SqlState::InvalidSchemaName);
    assert!(
        error.report().message.contains(
            "CREATE specifies a schema (schema_not_existing) different from the one being created (alice)"
        ),
        "unexpected error: {}",
        error.report().message
    );

    engine
        .execute_sql(
            &session,
            "CREATE SCHEMA AUTHORIZATION CURRENT_ROLE
               CREATE TABLE alice.tab (id int)",
        )
        .expect("create schema with current role name");

    assert!(engine.sees_table(&session, current_role, "tab").unwrap());
}
