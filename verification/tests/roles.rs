use aiondb_engine::auth::StartupParams;
use aiondb_engine::engine::EngineBuilder;
use aiondb_engine::engine::Store;
use aiondb_engine::fault::SqlState;
use aiondb_engine::fixtures::auth_hardened_engine;
use aiondb_engine::fixtures::bootstrap_admin;
use aiondb_engine::fixtures::durable_lockout_engine;
use aiondb_engine::fixtures::password_policy_engine;
use aiondb_engine::fixtures::startup_as;
use aiondb_engine::fixtures::startup_with_network_password;
use aiondb_engine::fixtures::startup_with_password;
use aiondb_engine::fixtures::tls_required_engine;
use aiondb_engine::security::RuntimeConfig;

fn startup_params() -> StartupParams {
    startup_as("alice")
}

#[test]
fn startup_with_role_password_accepts_matching_password() {
    let mut engine = EngineBuilder::for_testing().build().unwrap();
    let (session, _) = engine.startup(startup_params()).expect("startup");

    engine
        .execute_sql(&session, "CREATE ROLE testrole LOGIN PASSWORD 'secret'")
        .expect("create role");

    let (role_session, info) = engine
        .startup(startup_with_password("testrole", "secret"))
        .expect("role startup");

    assert_eq!(info.identity.user, "testrole");
    engine
        .terminate(role_session)
        .expect("terminate role session");
}

#[test]
fn startup_with_role_password_rejects_wrong_password() {
    let mut engine = EngineBuilder::for_testing().build().unwrap();
    let (session, _) = engine.startup(startup_params()).expect("startup");

    engine
        .execute_sql(&session, "CREATE ROLE testrole LOGIN PASSWORD 'secret'")
        .expect("create role");

    let error = engine
        .startup(startup_with_password("testrole", "wrong"))
        .expect_err("wrong password should fail");
    assert_eq!(
        error.sqlstate(),
        SqlState::InvalidAuthorizationSpecification
    );
}

#[test]
fn startup_with_cleartext_password_for_scram_role_requires_tls_when_configured() {
    let mut engine = tls_required_engine(Store::new());
    let (session, _) = engine.startup(startup_params()).expect("startup");

    engine
        .execute_sql(&session, "CREATE ROLE tls_scram LOGIN PASSWORD 'secret'")
        .expect("create role");

    let err = engine
        .startup(startup_with_network_password("tls_scram", "secret", false))
        .expect_err("cleartext startup without TLS should fail");
    assert_eq!(
        err.sqlstate(),
        SqlState::InvalidAuthorizationSpecification
    );
    assert!(
        err.to_string().contains("TLS is required"),
        "unexpected error: {err:?}"
    );

    let (role_session, info) = engine
        .startup(startup_with_network_password("tls_scram", "secret", true))
        .expect("TLS cleartext startup should succeed");
    assert_eq!(info.identity.user, "tls_scram");
    engine
        .terminate(role_session)
        .expect("terminate role session");
}

#[test]
fn startup_unknown_network_role_reports_generic_password_error() {
    let mut engine = EngineBuilder::new_in_memory()
        .build()
        .unwrap();

    let err = engine
        .startup(startup_with_network_password("ghost_net", "wrong", true))
        .expect_err("unknown network role should fail with a generic password error");
    assert_eq!(
        err.sqlstate(),
        SqlState::InvalidAuthorizationSpecification
    );
    let message = err.to_string();
    assert!(
        message.contains("invalid user name or password"),
        "unexpected error: {message}"
    );
    assert!(
        !message.contains("does not exist"),
        "network auth should not reveal role existence: {message}"
    );
}

#[test]
fn startup_network_non_authenticable_roles_report_generic_password_error() {
    let mut engine = EngineBuilder::for_testing().build().unwrap();
    let (session, _) = engine.startup(startup_params()).expect("startup");
    bootstrap_admin(&mut engine, &session).unwrap();

    engine
        .execute_sql(
            &session,
            "CREATE ROLE locked_login LOGIN PASSWORD 'secret'; \
             ALTER ROLE locked_login NOLOGIN; \
             CREATE ROLE nopass_net LOGIN",
        )
        .expect("setup roles");

    for role_name in ["locked_login", "nopass_net"] {
        let err = engine
            .startup(startup_with_network_password(role_name, "wrong", true))
            .expect_err("network auth should fail with generic password error");
        assert_eq!(
            err.sqlstate(),
            SqlState::InvalidAuthorizationSpecification
        );
        let message = err.to_string();
        assert!(
            message.contains("invalid user name or password"),
            "unexpected error for {role_name}: {message}"
        );
        assert!(
            !message.contains("not permitted to log in"),
            "network auth should not reveal NOLOGIN state for {role_name}: {message}"
        );
        assert!(
            !message.contains("does not have a password configured"),
            "network auth should not reveal password configuration for {role_name}: {message}"
        );
        assert!(
            !message.contains("stored password format is invalid"),
            "network auth should not reveal password hash format for {role_name}: {message}"
        );
    }
}

#[test]
fn create_role_rejects_password_shorter_than_policy() {
    let mut engine = password_policy_engine(
        10,
        false,
        false,
        false,
        false,
        false,
        Store::new());
    let (session, _) = engine.startup(startup_params()).expect("startup");

    let err = engine
        .execute_sql(&session, "CREATE ROLE weak LOGIN PASSWORD 'short'")
        .expect_err("short password should be rejected");
    assert_eq!(
        err.sqlstate(),
        SqlState::InvalidAuthorizationSpecification
    );
    assert!(
        err.to_string().contains("at least 10 characters"),
        "unexpected error: {err:?}"
    );
    assert!(
        engine.role("weak").is_none(),
        "role should not be persisted after policy rejection"
    );
}

#[test]
fn alter_role_rejects_password_matching_role_name_when_policy_enabled() {
    let mut engine = password_policy_engine(
        0,
        true,
        false,
        false,
        false,
        false,
        Store::new());
    let (session, _) = engine.startup(startup_params()).expect("startup");
    bootstrap_admin(&mut engine, &session).unwrap();

    engine
        .execute_sql(
            &session,
            "CREATE ROLE app_user LOGIN PASSWORD 'validsecret'",
        )
        .expect("create role");
    let old_role = engine.role("app_user").expect("role should exist");

    let err = engine
        .execute_sql(&session, "ALTER ROLE app_user WITH PASSWORD 'APP_USER'")
        .expect_err("role-name password should be rejected");
    assert_eq!(
        err.sqlstate(),
        SqlState::InvalidAuthorizationSpecification
    );
    assert!(
        err.to_string().contains("must not match role name"),
        "unexpected error: {err:?}"
    );

    let new_role = engine.role("app_user").expect("role should exist");
    assert!(old_role.has_password);
    assert_eq!(old_role, new_role);

    let (role_session, _) = engine
        .startup(startup_with_password("app_user", "validsecret"))
        .expect("original password should still work");
    engine
        .terminate(role_session)
        .expect("terminate role session");
}

#[test]
fn create_role_rejects_password_missing_required_character_classes() {
    let mut engine = password_policy_engine(0, false, true, true, true, true, Store::new());
    let (session, _) = engine.startup(startup_params()).expect("startup");

    let missing_uppercase = engine
        .execute_sql(
            &session,
            "CREATE ROLE lower_only LOGIN PASSWORD 'password1!'",
        )
        .expect_err("missing uppercase should be rejected");
    assert!(
        missing_uppercase.to_string().contains("at least one uppercase letter"),
        "unexpected error: {missing_uppercase:?}"
    );

    let missing_lowercase = engine
        .execute_sql(
            &session,
            "CREATE ROLE upper_only LOGIN PASSWORD 'PASSWORD1!'",
        )
        .expect_err("missing lowercase should be rejected");
    assert!(
        missing_lowercase.to_string().contains("at least one lowercase letter"),
        "unexpected error: {missing_lowercase:?}"
    );

    let missing_digit = engine
        .execute_sql(
            &session,
            "CREATE ROLE digit_only LOGIN PASSWORD 'Password!'",
        )
        .expect_err("missing digit should be rejected");
    assert!(
        missing_digit.to_string().contains("at least one digit"),
        "unexpected error: {missing_digit:?}"
    );

    let missing_symbol = engine
        .execute_sql(
            &session,
            "CREATE ROLE symbol_only LOGIN PASSWORD 'Password1'",
        )
        .expect_err("missing symbol should be rejected");
    assert!(
        missing_symbol.to_string().contains("at least one symbol"),
        "unexpected error: {missing_symbol:?}"
    );

    engine
        .execute_sql(&session, "CREATE ROLE strong LOGIN PASSWORD 'Password1!'")
        .expect("strong password should satisfy complexity policy");
}

#[test]
fn alter_role_rejects_password_missing_required_character_classes() {
    let mut engine = password_policy_engine(0, false, true, true, true, true, Store::new());
    let (session, _) = engine.startup(startup_params()).expect("startup");
    bootstrap_admin(&mut engine, &session).unwrap();

    engine
        .execute_sql(
            &session,
            "CREATE ROLE complex_user LOGIN PASSWORD 'Password1!'",
        )
        .expect("create role");

    let err = engine
        .execute_sql(
            &session,
            "ALTER ROLE complex_user WITH PASSWORD 'password1!'",
        )
        .expect_err("missing uppercase should be rejected");
    assert!(
        err.to_string().contains("at least one uppercase letter"),
        "unexpected error: {err:?}"
    );
}

#[test]
fn alter_role_rotates_password_and_rejects_old_secret() {
    let mut engine = EngineBuilder::for_testing().build().unwrap();
    let (session, _) = engine.startup(startup_params()).expect("startup");
    bootstrap_admin(&mut engine, &session).unwrap();

    engine
        .execute_sql(&session, "CREATE ROLE testrole LOGIN PASSWORD 'secret'")
        .expect("create role");

    engine
        .execute_sql(&session, "ALTER ROLE testrole WITH PASSWORD 'rotated'")
        .expect("alter role");

    let err = engine
        .startup(startup_with_password("testrole", "secret"))
        .expect_err("old password should fail");
    assert_eq!(
        err.sqlstate(),
        SqlState::InvalidAuthorizationSpecification
    );

    let (role_session, _) = engine
        .startup(startup_with_password("testrole", "rotated"))
        .expect("new password should work");
    engine
        .terminate(role_session)
        .expect("terminate role session");
}

#[test]
fn alter_role_nologin_blocks_startup() {
    let mut engine = EngineBuilder::for_testing().build().unwrap();
    let (session, _) = engine.startup(startup_params()).expect("startup");
    bootstrap_admin(&mut engine, &session).unwrap();

    engine
        .execute_sql(&session, "CREATE ROLE testrole LOGIN")
        .expect("create role");
    engine
        .execute_sql(&session, "ALTER ROLE testrole NOLOGIN")
        .expect("alter role");

    let err = engine
        .startup(startup_as("testrole"))
        .expect_err("nologin role should not start");
    assert_eq!(
        err.sqlstate(),
        SqlState::InvalidAuthorizationSpecification
    );
}

#[test]
fn alter_role_nosuperuser_removes_acl_bypass() {
    let mut engine = EngineBuilder::for_testing().build().unwrap();
    let (admin, _) = engine.startup(startup_params()).expect("startup");
    bootstrap_admin(&mut engine, &admin).unwrap();

    engine
        .execute_sql(
            &admin,
            "CREATE TABLE secret (id INT NOT NULL); \
             CREATE ROLE superadmin SUPERUSER LOGIN",
        )
        .expect("setup");

    let (superuser_session, _) = engine
        .startup(startup_as("superadmin"))
        .expect("superuser startup");
    engine
        .execute_sql(&superuser_session, "SELECT * FROM secret")
        .expect("superuser should bypass ACL");
    engine
        .terminate(superuser_session)
        .expect("terminate superuser session");

    engine
        .execute_sql(&admin, "ALTER ROLE superadmin NOSUPERUSER")
        .expect("alter role");

    let (user_session, _) = engine
        .startup(startup_as("superadmin"))
        .expect("startup after losing superuser");
    let err = engine
        .execute_sql(&user_session, "SELECT * FROM secret")
        .expect_err("ACL bypass should be removed");
    let msg = err.to_string();
    assert!(msg.contains("permission denied"), "unexpected error: {msg}");
    engine
        .terminate(user_session)
        .expect("terminate downgraded session");
}

#[test]
fn startup_lockout_triggers_after_configured_failures() {
    let mut engine = auth_hardened_engine(2);
    let (session, _) = engine.startup(startup_params()).expect("startup");

    engine
        .execute_sql(&session, "CREATE ROLE locked LOGIN PASSWORD 'secret'")
        .expect("create role");

    for _ in 0..2 {
        let err = engine
            .startup(startup_with_password("locked", "wrong"))
            .expect_err("wrong password should fail");
        assert_eq!(
            err.sqlstate(),
            SqlState::InvalidAuthorizationSpecification
        );
    }

    let err = engine
        .startup(startup_with_password("locked", "wrong"))
        .expect_err("user should be locked out");
    assert_eq!(
        err.sqlstate(),
        SqlState::TooManyAuthenticationFailures
    );
    assert!(
        err.to_string().contains("too many authentication failures"),
        "unexpected error: {err:?}"
    );
}

#[test]
fn default_builder_rejects_unknown_ephemeral_user() {
    let mut engine = EngineBuilder::new_in_memory()
        .build()
        .unwrap();

    let err = engine
        .startup(startup_as("ghost"))
        .expect_err("default builder should reject unknown roles");
    assert_eq!(
        err.sqlstate(),
        SqlState::InvalidAuthorizationSpecification
    );
    assert!(
        err.to_string().contains("role \"ghost\" does not exist"),
        "unexpected error: {err:?}"
    );
}

#[test]
fn for_testing_preserves_ephemeral_users_with_custom_runtime_config() {
    let mut engine = EngineBuilder::for_testing()
        .with_runtime_config(RuntimeConfig::default())
        .build()
        .unwrap();

    engine
        .startup(startup_params())
        .expect("for_testing should still allow ephemeral startup");
}

#[test]
fn successful_startup_clears_failure_counter() {
    let mut engine = auth_hardened_engine(2);
    let (session, _) = engine.startup(startup_params()).expect("startup");

    engine
        .execute_sql(&session, "CREATE ROLE resetme LOGIN PASSWORD 'secret'")
        .expect("create role");

    let err = engine
        .startup(startup_with_password("resetme", "wrong"))
        .expect_err("wrong password should fail");
    assert_eq!(
        err.sqlstate(),
        SqlState::InvalidAuthorizationSpecification
    );

    let (role_session, _) = engine
        .startup(startup_with_password("resetme", "secret"))
        .expect("correct password should succeed");
    engine
        .terminate(role_session)
        .expect("terminate role session");

    let err = engine
        .startup(startup_with_password("resetme", "wrong"))
        .expect_err("wrong password should still fail normally");
    assert_eq!(
        err.sqlstate(),
        SqlState::InvalidAuthorizationSpecification
    );

    let (role_session, _) = engine
        .startup(startup_with_password("resetme", "secret"))
        .expect("success should have reset failures");
    engine
        .terminate(role_session)
        .expect("terminate role session");
}

#[test]
fn durable_lockout_survives_engine_restart() {
    let state_path = "survives-restart.state".to_owned();
    let mut engine = durable_lockout_engine(2, state_path.clone(), Store::new());
    let (session, _) = engine.startup(startup_params()).expect("startup");

    engine
        .execute_sql(&session, "CREATE ROLE durable LOGIN PASSWORD 'secret'")
        .expect("create role");

    for _ in 0..2 {
        let err = engine
            .startup(startup_with_password("durable", "wrong"))
            .expect_err("wrong password should fail");
        assert_eq!(
            err.sqlstate(),
            SqlState::InvalidAuthorizationSpecification
        );
    }
    let store = engine.into_store();

    let mut restarted = durable_lockout_engine(2, state_path, store);
    let err = restarted
        .startup(startup_with_password("durable", "wrong"))
        .expect_err("lockout should survive restart");
    assert_eq!(
        err.sqlstate(),
        SqlState::TooManyAuthenticationFailures
    );
}

#[test]
fn durable_lockout_reset_persists_after_success() {
    let state_path = "reset-after-success.state".to_owned();
    let mut engine = durable_lockout_engine(2, state_path.clone(), Store::new());
    let (session, _) = engine.startup(startup_params()).expect("startup");

    engine
        .execute_sql(
            &session,
            "CREATE ROLE durable_reset LOGIN PASSWORD 'secret'",
        )
        .expect("create role");

    let err = engine
        .startup(startup_with_password("durable_reset", "wrong"))
        .expect_err("wrong password should fail");
    assert_eq!(
        err.sqlstate(),
        SqlState::InvalidAuthorizationSpecification
    );

    let (role_session, _) = engine
        .startup(startup_with_password("durable_reset", "secret"))
        .expect("correct password should succeed");
    engine
        .terminate(role_session)
        .expect("terminate role session");
    let store = engine.into_store();

    let mut restarted = durable_lockout_engine(2, state_path, store);
    let err = restarted
        .startup(startup_with_password("durable_reset", "wrong"))
        .expect_err("wrong password should still fail normally after reset");
    assert_eq!(
        err.sqlstate(),
        SqlState::InvalidAuthorizationSpecification
    );
}
