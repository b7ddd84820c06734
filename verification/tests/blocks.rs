use aiondb_engine::auth::StartupParams;
use aiondb_engine::engine::EngineBuilder;
use aiondb_engine::fault::SqlState;
use aiondb_engine::fixtures::startup_as;
use aiondb_engine::value::StatementResult;
use aiondb_engine::value::Value;

fn startup_params() -> StartupParams {
    startup_as("alice")
}

#[test]
fn do_block_if_elsif_else_executes_matching_branch() {
    let mut engine = EngineBuilder::for_testing().build().unwrap();
    let (session, _) = engine.startup(startup_params()).expect("startup");

    let results = engine
        .execute_sql(
            &session,
            "DO $$
DECLARE
  x int := 2;
  y int := 0;
BEGIN
  IF x = 1 THEN
    y := 10;
  ELSIF x = 2 THEN
    y := 20;
  ELSE
    y := 30;
  END IF;
  RAISE NOTICE '%', y;
END
$$ LANGUAGE plpgsql;",
        )
        .expect("do block with IF/ELSIF/ELSE should succeed");

    assert_eq!(results.len(), 2);
    assert!(matches!(
        &results[0],
        StatementResult::Notice { message } if message == "20"
    ));
    assert!(matches!(
        &results[1],
        StatementResult::Command { tag, rows_affected } if tag == "DO" && *rows_affected == 0
    ));
}

#[test]
fn do_block_unknown_variable_reports_undefined_object() {
    let mut engine = EngineBuilder::for_testing().build().unwrap();
    let (session, _) = engine.startup(startup_params()).expect("startup");

    let error = engine
        .execute_sql(
            &session,
            "DO $$
BEGIN
  missing_var := 1;
END
$$ LANGUAGE plpgsql;",
        )
        .expect_err("unknown DO variable should fail");

    assert_eq!(error.sqlstate(), SqlState::UndefinedObject);
    assert!(error.report().message.contains("unknown DO variable"));
}

#[test]
fn do_block_declared_initializer_is_cast_to_declared_type() {
    let mut engine = EngineBuilder::for_testing().build().unwrap();
    let (session, _) = engine.startup(startup_params()).expect("startup");

    let results = engine
        .execute_sql(
            &session,
            "DO $$
DECLARE
  x int := '42';
BEGIN
  x := x + 1;
  RAISE NOTICE '%', x;
END
$$ LANGUAGE plpgsql;",
        )
        .expect("typed PL/pgSQL variable initializer should cast before use");

    assert!(matches!(
        &results[0],
        StatementResult::Notice { message } if message == "43"
    ));
}

#[test]
fn do_block_can_be_followed_by_select_in_same_sql_batch() {
    let mut engine = EngineBuilder::for_testing().build().unwrap();
    let (session, _) = engine.startup(startup_params()).expect("startup");

    let results = engine
        .execute_sql(
            &session,
            "DO $$ BEGIN RAISE NOTICE '%', 'batched'; END $$ LANGUAGE plpgsql; SELECT 1;",
        )
        .expect("DO + SELECT batch should succeed");

    assert_eq!(results.len(), 3);
    assert!(matches!(
        &results[0], StatementResult::Notice { message } if message == "batched"
    ));
    assert!(matches!(
        &results[1],
        StatementResult::Command { tag, rows_affected } if tag == "DO" && *rows_affected == 0
    ));
    assert!(matches!(
        &results[2],
        StatementResult::Query { rows, .. }
            if rows.len() == 1 && rows[0].values == vec![Value::Int(1)]
    ));
}
