use aiondb_engine::auth::StartupParams;
use aiondb_engine::datum::DataType;
use aiondb_engine::engine::EngineBuilder;
use aiondb_engine::fault::SqlState;
use aiondb_engine::fixtures::startup_as;
use aiondb_engine::value::ResultColumn;
use aiondb_engine::value::Row;
use aiondb_engine::value::StatementResult;
use aiondb_engine::value::Value;

fn startup_params() -> StartupParams {
    startup_as("alice")
}

#[test]
fn creates_and_drops_sequence() {
    let mut engine = EngineBuilder::for_testing().build().unwrap();
    let (session, _) = engine.startup(startup_params()).expect("startup");

    let results = engine
        .execute_sql(
            &session,
            "CREATE SEQUENCE user_ids; \
             DROP SEQUENCE user_ids; \
             CREATE SEQUENCE user_ids",
        )
        .expect("execute");

    assert_eq!(
        results,
        vec![
            StatementResult::Command {
                tag: "CREATE SEQUENCE".to_owned(),
                rows_affected: 0,
            },
            StatementResult::Command {
                tag: "DROP SEQUENCE".to_owned(),
                rows_affected: 0,
            },
            StatementResult::Command {
                tag: "CREATE SEQUENCE".to_owned(),
                rows_affected: 0,
            },
        ]
    );
}

#[test]
fn selects_nextval_from_sequence() {
    let mut engine = EngineBuilder::for_testing().build().unwrap();
    let (session, _) = engine.startup(startup_params()).expect("startup");

    engine
        .execute_sql(&session, "CREATE SEQUENCE user_ids")
        .expect("create sequence");

    let first = engine
        .execute_sql(&session, "SELECT nextval('user_ids') AS id")
        .expect("first nextval");
    let second = engine
        .execute_sql(&session, "SELECT nextval('user_ids') AS id")
        .expect("second nextval");

    assert_eq!(
        first,
        vec![StatementResult::Query {
            columns: vec![ResultColumn {
                name: "id".to_owned(),
                data_type: DataType::BigInt,
                text_type_modifier: None,
                nullable: false,
            }],
            rows: vec![Row::new(vec![Value::BigInt(1)])],
        }]
    );
    assert_eq!(
        second,
        vec![StatementResult::Query {
            columns: vec![ResultColumn {
                name: "id".to_owned(),
                data_type: DataType::BigInt,
                text_type_modifier: None,
                nullable: false,
            }],
            rows: vec![Row::new(vec![Value::BigInt(2)])],
        }]
    );
}

#[test]
fn nextval_resolves_default_user_search_path_schema() {
    let mut engine = EngineBuilder::for_testing().build().unwrap();
    let (session, _) = engine.startup(startup_params()).expect("startup");

    engine
        .execute_sql(
            &session,
            "CREATE SCHEMA alice; \
             CREATE SEQUENCE alice.user_ids",
        )
        .expect("create user schema sequence");

    let first = engine
        .execute_sql(&session, "SELECT nextval('user_ids') AS id")
        .expect("nextval via default $user search_path");
    let second = engine
        .execute_sql(&session, "SELECT nextval('user_ids') AS id")
        .expect("second nextval via default $user search_path");

    assert_eq!(
        first,
        vec![StatementResult::Query {
            columns: vec![ResultColumn {
                name: "id".to_owned(),
                data_type: DataType::BigInt,
                text_type_modifier: None,
                nullable: false,
            }],
            rows: vec![Row::new(vec![Value::BigInt(1)])],
        }]
    );
    assert_eq!(
        second,
        vec![StatementResult::Query {
            columns: vec![ResultColumn {
                name: "id".to_owned(),
                data_type: DataType::BigInt,
                text_type_modifier: None,
                nullable: false,
            }],
            rows: vec![Row::new(vec![Value::BigInt(2)])],
        }]
    );
}

#[test]
fn insert_default_without_catalog_default_uses_null() {
    let mut engine = EngineBuilder::for_testing().build().unwrap();
    let (session, _) = engine.startup(startup_params()).expect("startup");

    engine
        .execute_sql(
            &session,
            "CREATE TABLE users (id INT, name TEXT); \
             INSERT INTO users VALUES (DEFAULT, 'alice')",
        )
        .expect("insert default");

    let results = engine
        .execute_sql(&session, "SELECT id, name FROM users")
        .expect("select");
    assert_eq!(
        results,
        vec![StatementResult::Query {
            columns: vec![
                ResultColumn {
                    name: "id".to_owned(),
                    data_type: DataType::Int,
                    text_type_modifier: None,
                    nullable: true,
                },
                ResultColumn {
                    name: "name".to_owned(),
                    data_type: DataType::Text,
                    text_type_modifier: None,
                    nullable: true,
                },
            ],
            rows: vec![Row::new(vec![
                Value::Null,
                Value::Text("alice".to_owned()),
            ])],
        }]
    );
}

#[test]
fn insert_null_literal_into_not_null_column_is_lenient() {
    let mut engine = EngineBuilder::for_testing().build().unwrap();
    let (session, _) = engine.startup(startup_params()).expect("startup");

    engine
        .execute_sql(&session, "CREATE TABLE users (id INT NOT NULL, name TEXT)")
        .expect("create table");

    let err = engine
        .execute_sql(&session, "INSERT INTO users VALUES (NULL, 'alice')")
        .expect_err("NOT NULL column must reject NULL insert");
    assert_eq!(err.sqlstate(), SqlState::NotNullViolation);
}

#[test]
fn insert_default_without_catalog_default_into_not_null_column_is_lenient() {
    let mut engine = EngineBuilder::for_testing().build().unwrap();
    let (session, _) = engine.startup(startup_params()).expect("startup");

    engine
        .execute_sql(&session, "CREATE TABLE users (id INT NOT NULL, name TEXT)")
        .expect("create table");

    let err = engine
        .execute_sql(&session, "INSERT INTO users VALUES (DEFAULT, 'alice')")
        .expect_err("NOT NULL column must reject NULL insert");
    assert_eq!(err.sqlstate(), SqlState::NotNullViolation);
}

#[test]
fn insert_default_uses_catalog_nextval_expression() {
    let mut engine = EngineBuilder::for_testing().build().unwrap();
    let (session, _) = engine.startup(startup_params()).expect("startup");
    engine
        .execute_sql(
            &session,
            "CREATE TABLE users (id BIGINT NOT NULL DEFAULT nextval('user_ids'), name TEXT NOT NULL); \
             CREATE SEQUENCE user_ids; \
             INSERT INTO users VALUES (DEFAULT, 'alice'), (DEFAULT, 'bob')",
        )
        .expect("insert using catalog default");

    let results = engine
        .execute_sql(&session, "SELECT id, name FROM users ORDER BY id")
        .expect("select");
    assert_eq!(
        results,
        vec![StatementResult::Query {
            columns: vec![
                ResultColumn {
                    name: "id".to_owned(),
                    data_type: DataType::BigInt,
                    text_type_modifier: None,
                    nullable: false,
                },
                ResultColumn {
                    name: "name".to_owned(),
                    data_type: DataType::Text,
                    text_type_modifier: None,
                    nullable: false,
                },
            ],
            rows: vec![
                Row::new(vec![
                    Value::BigInt(1),
                    Value::Text("alice".to_owned()),
                ]),
                Row::new(vec![
                    Value::BigInt(2),
                    Value::Text("bob".to_owned()),
                ]),
            ],
        }]
    );
}

#[test]
fn default_is_rejected_outside_insert_values() {
    let mut engine = EngineBuilder::for_testing().build().unwrap();
    let (session, _) = engine.startup(startup_params()).expect("startup");

    let error = engine
        .execute_sql(&session, "SELECT DEFAULT")
        .expect_err("default outside insert");
    assert_eq!(error.sqlstate(), SqlState::SyntaxError);
}

#[test]
fn inserts_rows_with_nextval_sequence_values() {
    let mut engine = EngineBuilder::for_testing().build().unwrap();
    let (session, _) = engine.startup(startup_params()).expect("startup");

    engine
        .execute_sql(
            &session,
            "CREATE SEQUENCE user_ids; \
             CREATE TABLE users (id BIGINT, name TEXT); \
             INSERT INTO users VALUES (nextval('user_ids'), 'alice'), (nextval('user_ids'), 'bob')",
        )
        .expect("seed with nextval");

    let results = engine
        .execute_sql(&session, "SELECT id, name FROM users ORDER BY id")
        .expect("select");
    assert_eq!(
        results,
        vec![StatementResult::Query {
            columns: vec![
                ResultColumn {
                    name: "id".to_owned(),
                    data_type: DataType::BigInt,
                    text_type_modifier: None,
                    nullable: true,
                },
                ResultColumn {
                    name: "name".to_owned(),
                    data_type: DataType::Text,
                    text_type_modifier: None,
                    nullable: true,
                },
            ],
            rows: vec![
                Row::new(vec![
                    Value::BigInt(1),
                    Value::Text("alice".to_owned()),
                ]),
                Row::new(vec![
                    Value::BigInt(2),
                    Value::Text("bob".to_owned()),
                ]),
            ],
        }]
    );
}

#[test]
fn executes_prepared_insert_with_nextval_and_parameter() {
    let mut engine = EngineBuilder::for_testing().build().unwrap();
    let (session, _) = engine.startup(startup_params()).expect("startup");

    engine
        .execute_sql(
            &session,
            "CREATE SEQUENCE user_ids; CREATE TABLE users (id BIGINT, name TEXT)",
        )
        .expect("setup");

    let desc = engine
        .prepare(
            &session,
            "ins_nextval".to_owned(),
            "INSERT INTO users VALUES (nextval('user_ids'), $1)".to_owned(),
        )
        .expect("prepare");
    assert_eq!(desc.param_types, vec![DataType::Text]);

    engine
        .bind(
            &session,
            "p1".to_owned(),
            "ins_nextval".to_owned(),
            vec![Value::Text("alice".to_owned())],
        )
        .expect("bind");
    let batch = engine
        .execute_portal(&session, "p1", 0)
        .expect("execute portal");
    assert_eq!(batch.tag, "INSERT");

    let results = engine
        .execute_sql(&session, "SELECT id, name FROM users")
        .expect("select");
    assert_eq!(
        results,
        vec![StatementResult::Query {
            columns: vec![
                ResultColumn {
                    name: "id".to_owned(),
                    data_type: DataType::BigInt,
                    text_type_modifier: None,
                    nullable: true,
                },
                ResultColumn {
                    name: "name".to_owned(),
                    data_type: DataType::Text,
                    text_type_modifier: None,
                    nullable: true,
                },
            ],
            rows: vec![Row::new(vec![
                Value::BigInt(1),
                Value::Text("alice".to_owned()),
            ])],
        }]
    );
}

#[test]
fn inserts_rows_from_select_with_order_and_defaults() {
    let mut engine = EngineBuilder::for_testing().build().unwrap();
    let (session, _) = engine.startup(startup_params()).expect("startup");

    let results = engine
        .execute_sql(
            &session,
            "CREATE SEQUENCE user_ids; \
             CREATE TABLE src (name TEXT); \
             INSERT INTO src VALUES ('alice'), ('bob'); \
             CREATE TABLE users (id BIGINT NOT NULL DEFAULT nextval('user_ids'), name TEXT NOT NULL); \
             INSERT INTO users (name) SELECT name FROM src ORDER BY name DESC; \
             SELECT id, name FROM users ORDER BY id ASC",
        )
        .expect("execute");

    assert_eq!(
        results,
        vec![
            StatementResult::Command {
                tag: "CREATE SEQUENCE".to_owned(),
                rows_affected: 0,
            },
            StatementResult::Command {
                tag: "CREATE TABLE".to_owned(),
                rows_affected: 0,
            },
            StatementResult::Command {
                tag: "INSERT".to_owned(),
                rows_affected: 2,
            },
            StatementResult::Command {
                tag: "CREATE TABLE".to_owned(),
                rows_affected: 0,
            },
            StatementResult::Command {
                tag: "INSERT".to_owned(),
                rows_affected: 2,
            },
            StatementResult::Query {
                columns: vec![
                    ResultColumn {
                        name: "id".to_owned(),
                        data_type: DataType::BigInt,
                        text_type_modifier: None,
                        nullable: false,
                    },
                    ResultColumn {
                        name: "name".to_owned(),
                        data_type: DataType::Text,
                        text_type_modifier: None,
                        nullable: false,
                    },
                ],
                rows: vec![
                    Row::new(vec![
                        Value::BigInt(1),
                        Value::Text("bob".to_owned()),
                    ]),
                    Row::new(vec![
                        Value::BigInt(2),
                        Value::Text("alice".to_owned()),
                    ]),
                ],
            },
        ]
    );
}

#[test]
fn executes_prepared_insert_select_with_defaulted_columns() {
    let mut engine = EngineBuilder::for_testing().build().unwrap();
    let (session, _) = engine.startup(startup_params()).expect("startup");

    engine
        .execute_sql(
            &session,
            "CREATE SEQUENCE user_ids; \
             CREATE TABLE users (id BIGINT NOT NULL DEFAULT nextval('user_ids'), name TEXT NOT NULL)",
        )
        .expect("setup");

    let desc = engine
        .prepare(
            &session,
            "ins_select".to_owned(),
            "INSERT INTO users (name) SELECT $1".to_owned(),
        )
        .expect("prepare");
    assert_eq!(desc.param_types, vec![DataType::Text]);

    engine
        .bind(
            &session,
            "p_select".to_owned(),
            "ins_select".to_owned(),
            vec![Value::Text("alice".to_owned())],
        )
        .expect("bind");
    let batch = engine
        .execute_portal(&session, "p_select", 0)
        .expect("execute portal");
    assert_eq!(batch.tag, "INSERT");

    let results = engine
        .execute_sql(&session, "SELECT id, name FROM users")
        .expect("select");
    assert_eq!(
        results,
        vec![StatementResult::Query {
            columns: vec![
                ResultColumn {
                    name: "id".to_owned(),
                    data_type: DataType::BigInt,
                    text_type_modifier: None,
                    nullable: false,
                },
                ResultColumn {
                    name: "name".to_owned(),
                    data_type: DataType::Text,
                    text_type_modifier: None,
                    nullable: false,
                },
            ],
            rows: vec![Row::new(vec![
                Value::BigInt(1),
                Value::Text("alice".to_owned()),
            ])],
        }]
    );
}

#[test]
fn nextval_reports_undefined_sequence() {
    let mut engine = EngineBuilder::for_testing().build().unwrap();
    let (session, _) = engine.startup(startup_params()).expect("startup");

    let error = engine
        .execute_sql(&session, "SELECT nextval('missing_seq')")
        .expect_err("missing sequence");
    assert_eq!(error.sqlstate(), SqlState::UndefinedObject);
}

#[test]
fn updates_rows_with_nextval_sequence_values() {
    let mut engine = EngineBuilder::for_testing().build().unwrap();
    let (session, _) = engine.startup(startup_params()).expect("startup");

    let results = engine
        .execute_sql(
            &session,
            "CREATE SEQUENCE user_ids; \
             CREATE TABLE users (id BIGINT, name TEXT); \
             INSERT INTO users VALUES (0, 'alice'), (0, 'bob'); \
             UPDATE users SET id = nextval('user_ids'); \
             SELECT id, name FROM users ORDER BY id ASC",
        )
        .expect("execute");

    assert_eq!(
        results,
        vec![
            StatementResult::Command {
                tag: "CREATE SEQUENCE".to_owned(),
                rows_affected: 0,
            },
            StatementResult::Command {
                tag: "CREATE TABLE".to_owned(),
                rows_affected: 0,
            },
            StatementResult::Command {
                tag: "INSERT".to_owned(),
                rows_affected: 2,
            },
            StatementResult::Command {
                tag: "UPDATE".to_owned(),
                rows_affected: 2,
            },
            StatementResult::Query {
                columns: vec![
                    ResultColumn {
                        name: "id".to_owned(),
                        data_type: DataType::BigInt,
                        text_type_modifier: None,
                        nullable: true,
                    },
                    ResultColumn {
                        name: "name".to_owned(),
                        data_type: DataType::Text,
                        text_type_modifier: None,
                        nullable: true,
                    },
                ],
                rows: vec![
                    Row::new(vec![
                        Value::BigInt(1),
                        Value::Text("alice".to_owned()),
                    ]),
                    Row::new(vec![
                        Value::BigInt(2),
                        Value::Text("bob".to_owned()),
                    ]),
                ],
            },
        ]
    );
}

#[test]
fn inserts_rows_using_column_defaults() {
    let mut engine = EngineBuilder::for_testing().build().unwrap();
    let (session, _) = engine.startup(startup_params()).expect("startup");

    let results = engine
        .execute_sql(
            &session,
            "CREATE SEQUENCE user_ids; \
             CREATE TABLE users (id BIGINT NOT NULL DEFAULT nextval('user_ids'), name TEXT NOT NULL DEFAULT 'anon'); \
             INSERT INTO users VALUES (DEFAULT, DEFAULT), (DEFAULT, 'bob'); \
             SELECT id, name FROM users ORDER BY id ASC",
        )
        .expect("execute");

    assert_eq!(
        results,
        vec![
            StatementResult::Command {
                tag: "CREATE SEQUENCE".to_owned(),
                rows_affected: 0,
            },
            StatementResult::Command {
                tag: "CREATE TABLE".to_owned(),
                rows_affected: 0,
            },
            StatementResult::Command {
                tag: "INSERT".to_owned(),
                rows_affected: 2,
            },
            StatementResult::Query {
                columns: vec![
                    ResultColumn {
                        name: "id".to_owned(),
                        data_type: DataType::BigInt,
                        text_type_modifier: None,
                        nullable: false,
                    },
                    ResultColumn {
                        name: "name".to_owned(),
                        data_type: DataType::Text,
                        text_type_modifier: None,
                        nullable: false,
                    },
                ],
                rows: vec![
                    Row::new(vec![
                        Value::BigInt(1),
                        Value::Text("anon".to_owned()),
                    ]),
                    Row::new(vec![
                        Value::BigInt(2),
                        Value::Text("bob".to_owned()),
                    ]),
                ],
            },
        ]
    );
}

#[test]
fn inserts_rows_with_column_list_and_omitted_defaults() {
    let mut engine = EngineBuilder::for_testing().build().unwrap();
    let (session, _) = engine.startup(startup_params()).expect("startup");

    let results = engine
        .execute_sql(
            &session,
            "CREATE SEQUENCE user_ids; \
             CREATE TABLE users (id BIGINT NOT NULL DEFAULT nextval('user_ids'), name TEXT NOT NULL, active BOOLEAN NOT NULL DEFAULT TRUE); \
             INSERT INTO users (name) VALUES ('alice'), ('bob'); \
             SELECT id, name, active FROM users ORDER BY id ASC",
        )
        .expect("execute");

    assert_eq!(
        results,
        vec![
            StatementResult::Command {
                tag: "CREATE SEQUENCE".to_owned(),
                rows_affected: 0,
            },
            StatementResult::Command {
                tag: "CREATE TABLE".to_owned(),
                rows_affected: 0,
            },
            StatementResult::Command {
                tag: "INSERT".to_owned(),
                rows_affected: 2,
            },
            StatementResult::Query {
                columns: vec![
                    ResultColumn {
                        name: "id".to_owned(),
                        data_type: DataType::BigInt,
                        text_type_modifier: None,
                        nullable: false,
                    },
                    ResultColumn {
                        name: "name".to_owned(),
                        data_type: DataType::Text,
                        text_type_modifier: None,
                        nullable: false,
                    },
                    ResultColumn {
                        name: "active".to_owned(),
                        data_type: DataType::Boolean,
                        text_type_modifier: None,
                        nullable: false,
                    },
                ],
                rows: vec![
                    Row::new(vec![
                        Value::BigInt(1),
                        Value::Text("alice".to_owned()),
                        Value::Boolean(true),
                    ]),
                    Row::new(vec![
                        Value::BigInt(2),
                        Value::Text("bob".to_owned()),
                        Value::Boolean(true),
                    ]),
                ],
            },
        ]
    );
}

#[test]
fn inserts_default_values_row() {
    let mut engine = EngineBuilder::for_testing().build().unwrap();
    let (session, _) = engine.startup(startup_params()).expect("startup");

    let results = engine
        .execute_sql(
            &session,
            "CREATE SEQUENCE user_ids; \
             CREATE TABLE users (id BIGINT NOT NULL DEFAULT nextval('user_ids'), name TEXT NOT NULL DEFAULT 'anon'); \
             INSERT INTO users DEFAULT VALUES; \
             SELECT id, name FROM users",
        )
        .expect("execute");

    assert_eq!(
        results,
        vec![
            StatementResult::Command {
                tag: "CREATE SEQUENCE".to_owned(),
                rows_affected: 0,
            },
            StatementResult::Command {
                tag: "CREATE TABLE".to_owned(),
                rows_affected: 0,
            },
            StatementResult::Command {
                tag: "INSERT".to_owned(),
                rows_affected: 1,
            },
            StatementResult::Query {
                columns: vec![
                    ResultColumn {
                        name: "id".to_owned(),
                        data_type: DataType::BigInt,
                        text_type_modifier: None,
                        nullable: false,
                    },
                    ResultColumn {
                        name: "name".to_owned(),
                        data_type: DataType::Text,
                        text_type_modifier: None,
                        nullable: false,
                    },
                ],
                rows: vec![Row::new(vec![
                    Value::BigInt(1),
                    Value::Text("anon".to_owned()),
                ])],
            },
        ]
    );
}

#[test]
fn executes_prepared_insert_with_column_list_and_defaulted_columns() {
    let mut engine = EngineBuilder::for_testing().build().unwrap();
    let (session, _) = engine.startup(startup_params()).expect("startup");

    engine
        .execute_sql(
            &session,
            "CREATE SEQUENCE user_ids; \
             CREATE TABLE users (id BIGINT NOT NULL DEFAULT nextval('user_ids'), name TEXT NOT NULL, active BOOLEAN NOT NULL DEFAULT TRUE)",
        )
        .expect("setup");

    let desc = engine
        .prepare(
            &session,
            "ins_user".to_owned(),
            "INSERT INTO users (name) VALUES ($1)".to_owned(),
        )
        .expect("prepare");
    assert_eq!(desc.param_types, vec![DataType::Text]);

    engine
        .bind(
            &session,
            "p_user".to_owned(),
            "ins_user".to_owned(),
            vec![Value::Text("alice".to_owned())],
        )
        .expect("bind");

    let batch = engine
        .execute_portal(&session, "p_user", 0)
        .expect("execute portal");
    assert_eq!(batch.tag, "INSERT");

    let results = engine
        .execute_sql(&session, "SELECT id, name, active FROM users")
        .expect("select");
    assert_eq!(
        results,
        vec![StatementResult::Query {
            columns: vec![
                ResultColumn {
                    name: "id".to_owned(),
                    data_type: DataType::BigInt,
                    text_type_modifier: None,
                    nullable: false,
                },
                ResultColumn {
                    name: "name".to_owned(),
                    data_type: DataType::Text,
                    text_type_modifier: None,
                    nullable: false,
                },
                ResultColumn {
                    name: "active".to_owned(),
                    data_type: DataType::Boolean,
                    text_type_modifier: None,
                    nullable: false,
                },
            ],
            rows: vec![Row::new(vec![
                Value::BigInt(1),
                Value::Text("alice".to_owned()),
                Value::Boolean(true),
            ])],
        }]
    );
}
