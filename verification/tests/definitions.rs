use aiondb_engine::auth::StartupParams;
use aiondb_engine::engine::EngineBuilder;
use aiondb_engine::fixtures::startup_as;

fn startup_params() -> StartupParams {
    startup_as("alice")
}

#[test]
fn execute_portal_supports_compat_do_block_with_notice() {
    let mut engine = EngineBuilder::for_testing().build().unwrap();
    let (session, _) = engine.startup(startup_params()).expect("startup");

    let desc = engine
        .prepare(
            &session,
            "do_stmt".to_owned(),
            "DO $$ BEGIN RAISE NOTICE '%', 'hello from portal'; END $$ LANGUAGE plpgsql".to_owned(),
        )
        .expect("prepare do block");
    assert!(desc.result_columns.is_empty());

    engine
        .bind(
            &session,
            "do_stmt_portal".to_owned(),
            "do_stmt".to_owned(),
            vec![],
        )
        .expect("bind do block");
    let batch = engine
        .execute_portal(&session, "do_stmt_portal", 0)
        .expect("execute do block portal");
    assert!(batch.columns.is_empty());
    assert!(batch.rows.is_empty());
    assert_eq!(batch.tag, "DO");
    assert_eq!(batch.rows_affected, 0);

    let notices = engine
        .drain_pending_notices(&session)
        .expect("drain pending notices");
    assert_eq!(notices, vec!["hello from portal".to_owned()]);
}

#[test]
fn execute_portal_tracks_compat_shell_types() {
    let mut engine = EngineBuilder::for_testing().build().unwrap();
    let (session, _) = engine.startup(startup_params()).expect("startup");

    engine
        .prepare(
            &session,
            "create_shell_type".to_owned(),
            "CREATE TYPE shell_alias".to_owned(),
        )
        .expect("prepare create type");
    engine
        .bind(
            &session,
            "create_shell_type_portal".to_owned(),
            "create_shell_type".to_owned(),
            vec![],
        )
        .expect("bind create type");

    let batch = engine
        .execute_portal(&session, "create_shell_type_portal", 0)
        .expect("execute create type portal");
    assert_eq!(batch.tag, "CREATE TYPE");

    assert!(engine
        .defines_type(&session, "shell_alias")
        .expect("inspect compat type state"));
}

#[test]
fn execute_portal_supports_compat_create_cast_command() {
    let mut engine = EngineBuilder::for_testing().build().unwrap();
    let (session, _) = engine.startup(startup_params()).expect("startup");

    engine
        .execute_sql(&session, "CREATE TYPE casttesttype")
        .expect("create shell type");

    engine
        .prepare(
            &session,
            "create_cast_stmt".to_owned(),
            "CREATE CAST (text AS casttesttype) WITHOUT FUNCTION".to_owned(),
        )
        .expect("prepare create cast");
    engine
        .bind(
            &session,
            "create_cast_portal".to_owned(),
            "create_cast_stmt".to_owned(),
            vec![],
        )
        .expect("bind create cast");
    let batch = engine
        .execute_portal(&session, "create_cast_portal", 0)
        .expect("execute create cast portal");
    assert_eq!(batch.tag, "CREATE CAST");

    assert!(engine
        .defines_cast(&session, "text", "casttesttype")
        .expect("inspect compat cast state"));
}

#[test]
fn execute_portal_emits_drop_function_cascade_compat_notices() {
    let mut engine = EngineBuilder::for_testing().build().unwrap();
    let (session, _) = engine.startup(startup_params()).expect("startup");

    engine
        .execute_sql(
            &session,
            "CREATE TYPE casttesttype;
             CREATE CAST (text AS casttesttype) WITHOUT FUNCTION;
             CREATE FUNCTION int4_casttesttype(int4) RETURNS casttesttype LANGUAGE SQL AS
             $$ SELECT ('foo'::text || $1::text)::casttesttype; $$;
             CREATE CAST (int4 AS casttesttype) WITH FUNCTION int4_casttesttype(int4) AS IMPLICIT;",
        )
        .expect("create compat cast dependency");

    engine
        .prepare(
            &session,
            "drop_fn_cascade".to_owned(),
            "DROP FUNCTION int4_casttesttype(int4) CASCADE".to_owned(),
        )
        .expect("prepare drop function cascade");
    engine
        .bind(
            &session,
            "drop_fn_cascade_portal".to_owned(),
            "drop_fn_cascade".to_owned(),
            vec![],
        )
        .expect("bind drop function cascade");
    let batch = engine
        .execute_portal(&session, "drop_fn_cascade_portal", 0)
        .expect("execute drop function cascade portal");
    assert_eq!(batch.tag, "DROP FUNCTION");

    let notices = engine
        .drain_pending_notices(&session)
        .expect("drain pending notices");
    assert!(notices
        .iter()
        .any(|message| message == "drop cascades to cast from integer to casttesttype"));
}
