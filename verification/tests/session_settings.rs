use aiondb_engine::auth::StartupParams;
use aiondb_engine::engine::EngineBuilder;
use aiondb_engine::fixtures::startup_as;

fn startup_params() -> StartupParams {
    startup_as("alice")
}

#[test]
fn invalid_datestyle_setting_is_rejected() {
    let mut engine = EngineBuilder::for_testing().build().expect("engine");
    let (session, _) = engine.startup(startup_params()).expect("startup");

    let err = engine
        .execute_sql(&session, "SET DateStyle TO 'garbage, mdy'")
        .expect_err("invalid datestyle should fail");
    assert_eq!(
        err.report().message,
        "invalid value for datestyle: \"garbage, mdy\""
    );
}

#[test]
fn invalid_timezone_setting_is_rejected() {
    let mut engine = EngineBuilder::for_testing().build().expect("engine");
    let (session, _) = engine.startup(startup_params()).expect("startup");

    let err = engine
        .execute_sql(&session, "SET TimeZone TO 'Narnia/Wardrobe'")
        .expect_err("invalid timezone should fail");
    assert_eq!(
        err.report().message,
        "invalid value for timezone: \"Narnia/Wardrobe\""
    );
}

#[test]
fn invalid_intervalstyle_setting_is_rejected() {
    let mut engine = EngineBuilder::for_testing().build().expect("engine");
    let (session, _) = engine.startup(startup_params()).expect("startup");

    let err = engine
        .execute_sql(&session, "SET IntervalStyle TO 'garbage'")
        .expect_err("invalid intervalstyle should fail");
    assert_eq!(
        err.report().message,
        "invalid value for intervalstyle: \"garbage\""
    );
}
