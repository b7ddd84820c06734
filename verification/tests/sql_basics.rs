use aiondb_engine::ast::IsolationLevel;
use aiondb_engine::auth::StartupParams;
use aiondb_engine::datum::DataType;
use aiondb_engine::engine::Engine;
use aiondb_engine::engine::EngineBuilder;
use aiondb_engine::engine::SessionHandle;
use aiondb_engine::fault::SqlState;
use aiondb_engine::fixtures::startup_as;
use aiondb_engine::harness;
use aiondb_engine::value::ResultColumn;
use aiondb_engine::value::Row;
use aiondb_engine::value::StatementResult;
use aiondb_engine::value::Value;

fn startup_params() -> StartupParams {
    startup_as("alice")
}

fn query_rows(engine: &mut Engine, session: &SessionHandle, sql: &str) -> Vec<Row> {
    harness::query_rows(engine, session, sql).expect("query rows")
}

#[test]
fn executes_multiple_transaction_statements() {
    let mut engine = EngineBuilder::for_testing().build().unwrap();
    let (session, _) = engine.startup(startup_params()).expect("startup");

    let results = engine
        .execute_sql(&session, "BEGIN; COMMIT;")
        .expect("execute");
    assert_eq!(
        results,
        vec![
            StatementResult::Command {
                tag: "BEGIN".to_owned(),
                rows_affected: 0,
            },
            StatementResult::Command {
                tag: "COMMIT".to_owned(),
                rows_affected: 0,
            },
        ]
    );
}

#[test]
fn begin_inside_active_transaction_emits_notice_and_begin() {
    let mut engine = EngineBuilder::for_testing().build().unwrap();
    let (session, _) = engine.startup(startup_params()).expect("startup");

    engine.execute_sql(&session, "BEGIN").expect("begin");
    let results = engine
        .execute_sql(&session, "BEGIN")
        .expect("second begin should succeed with notice");

    assert_eq!(results.len(), 2);
    assert!(matches!(
        &results[0],
        StatementResult::Notice { message }
            if message == "there is already a transaction in progress"
    ));
    assert!(matches!(
        &results[1],
        StatementResult::Command { tag, rows_affected } if tag == "BEGIN" && *rows_affected == 0
    ));
}

#[test]
fn commit_outside_transaction_emits_notice_and_commit() {
    let mut engine = EngineBuilder::for_testing().build().unwrap();
    let (session, _) = engine.startup(startup_params()).expect("startup");

    let results = engine
        .execute_sql(&session, "COMMIT")
        .expect("commit outside transaction should succeed with notice");

    assert_eq!(results.len(), 2);
    assert!(matches!(
        &results[0],
        StatementResult::Notice { message }
            if message == "there is no transaction in progress"
    ));
    assert!(matches!(
        &results[1],
        StatementResult::Command { tag, rows_affected } if tag == "COMMIT" && *rows_affected == 0
    ));
}

#[test]
fn rollback_outside_transaction_emits_notice_and_rollback() {
    let mut engine = EngineBuilder::for_testing().build().unwrap();
    let (session, _) = engine.startup(startup_params()).expect("startup");

    let results = engine
        .execute_sql(&session, "ROLLBACK")
        .expect("rollback outside transaction should succeed with notice");

    assert_eq!(results.len(), 2);
    assert!(matches!(
        &results[0],
        StatementResult::Notice { message }
            if message == "there is no transaction in progress"
    ));
    assert!(matches!(
        &results[1],
        StatementResult::Command { tag, rows_affected } if tag == "ROLLBACK" && *rows_affected == 0
    ));
}

#[test]
fn set_local_outside_transaction_emits_notice_and_does_not_change_setting() {
    let mut engine = EngineBuilder::for_testing().build().unwrap();
    let (session, _) = engine.startup(startup_params()).expect("startup");
    let before_results = engine
        .execute_sql(&session, "SHOW application_name")
        .expect("show application_name before SET LOCAL");
    let StatementResult::Query {
        rows: before_rows, ..
    } = &before_results[0]
    else {
        panic!("expected query result");
    };
    let before_value = before_rows[0].values[0].clone();

    let results = engine
        .execute_sql(&session, "SET LOCAL application_name = local_app")
        .expect("set local outside transaction should succeed with notice");

    assert_eq!(results.len(), 2);
    assert!(matches!(
        &results[0],
        StatementResult::Notice { message }
            if message == "SET LOCAL can only be used in transaction blocks"
    ));
    assert!(matches!(
        &results[1],
        StatementResult::Command { tag, rows_affected } if tag == "SET" && *rows_affected == 0
    ));

    let show_results = engine
        .execute_sql(&session, "SHOW application_name")
        .expect("show application_name");
    let StatementResult::Query { rows, .. } = &show_results[0] else {
        panic!("expected query result");
    };
    assert_eq!(rows.len(), 1);
    assert_eq!(rows[0].values[0], before_value);
}

#[test]
fn create_table_inherits_emits_merge_notice_via_search_path() {
    let mut engine = EngineBuilder::for_testing().build().unwrap();
    let (session, _) = engine.startup(startup_params()).expect("startup");

    engine
        .execute_sql(
            &session,
            "CREATE SCHEMA analytics; \
             SET search_path TO analytics, public; \
             CREATE TABLE parent_items (id INT, name TEXT)",
        )
        .expect("setup parent table");

    let results = engine
        .execute_sql(
            &session,
            "CREATE TABLE child_items (name TEXT) INHERITS (parent_items)",
        )
        .expect("create child table with inherits");

    assert!(matches!(
        &results[0],
        StatementResult::Notice { message }
            if message == "merging column \"name\" with inherited definition"
    ));
    assert!(matches!(
        &results[1],
        StatementResult::Command { tag, rows_affected }
            if tag == "CREATE TABLE" && *rows_affected == 0
    ));
}

#[test]
fn respects_transaction_mode_from_parser() {
    let mut engine = EngineBuilder::for_testing().build().unwrap();
    let (session, _) = engine.startup(startup_params()).expect("startup");

    engine
        .execute_sql(
            &session,
            "START TRANSACTION ISOLATION LEVEL SNAPSHOT ISOLATION",
        )
        .expect("begin");

    let isolation = engine
        .active_isolation(&session)
        .expect("session")
        .expect("active txn");
    assert_eq!(isolation, IsolationLevel::SnapshotIsolation);
}

#[test]
fn respects_serializable_transaction_mode_from_parser() {
    let mut engine = EngineBuilder::for_testing().build().unwrap();
    let (session, _) = engine.startup(startup_params()).expect("startup");

    engine
        .execute_sql(&session, "START TRANSACTION ISOLATION LEVEL SERIALIZABLE")
        .expect("begin");

    let isolation = engine
        .active_isolation(&session)
        .expect("session")
        .expect("active txn");
    assert_eq!(isolation, IsolationLevel::Serializable);
}

#[test]
fn set_transaction_updates_current_transaction_characteristics() {
    let mut engine = EngineBuilder::for_testing().build().unwrap();
    let (session, _) = engine.startup(startup_params()).expect("startup");

    engine.execute_sql(&session, "BEGIN").expect("begin");
    engine
        .execute_sql(
            &session,
            "SET TRANSACTION ISOLATION LEVEL SERIALIZABLE, READ ONLY, DEFERRABLE",
        )
        .expect("set transaction");

    let show_isolation = engine
        .execute_sql(&session, "SHOW transaction_isolation")
        .expect("show isolation");
    assert!(matches!(
        &show_isolation[0],
        StatementResult::Query { rows, .. } if rows[0].values[0] == Value::Text("serializable".into())
    ));

    let show_read_only = engine
        .execute_sql(&session, "SHOW transaction_read_only")
        .expect("show read only");
    assert!(matches!(
        &show_read_only[0],
        StatementResult::Query { rows, .. } if rows[0].values[0] == Value::Text("on".into())
    ));

    let show_deferrable = engine
        .execute_sql(&session, "SHOW transaction_deferrable")
        .expect("show deferrable");
    assert!(matches!(
        &show_deferrable[0],
        StatementResult::Query { rows, .. } if rows[0].values[0] == Value::Text("on".into())
    ));

    let isolation = engine
        .active_isolation(&session)
        .expect("session")
        .expect("active txn");
    assert_eq!(isolation, IsolationLevel::Serializable);
}

#[test]
fn set_session_characteristics_updates_future_transactions() {
    let mut engine = EngineBuilder::for_testing().build().unwrap();
    let (session, _) = engine.startup(startup_params()).expect("startup");

    engine
        .execute_sql(
            &session,
            "SET SESSION CHARACTERISTICS AS TRANSACTION ISOLATION LEVEL SNAPSHOT ISOLATION, READ ONLY",
        )
        .expect("set session characteristics");

    let show_isolation = engine
        .execute_sql(&session, "SHOW transaction_isolation")
        .expect("show isolation");
    assert!(matches!(
        &show_isolation[0],
        StatementResult::Query { rows, .. } if rows[0].values[0] == Value::Text("snapshot isolation".into())
    ));

    engine.execute_sql(&session, "BEGIN").expect("begin");
    {
        let isolation = engine
            .active_isolation(&session)
            .expect("session")
            .expect("active txn");
        assert_eq!(isolation, IsolationLevel::SnapshotIsolation);
    }

    let show_read_only = engine
        .execute_sql(&session, "SHOW transaction_read_only")
        .expect("show read only");
    assert!(matches!(
        &show_read_only[0],
        StatementResult::Query { rows, .. } if rows[0].values[0] == Value::Text("on".into())
    ));
}

#[test]
fn reset_transaction_variables_restore_defaults() {
    let mut engine = EngineBuilder::for_testing().build().unwrap();
    let (session, _) = engine.startup(startup_params()).expect("startup");

    engine
        .execute_sql(
            &session,
            "SET SESSION CHARACTERISTICS AS TRANSACTION ISOLATION LEVEL SERIALIZABLE, READ ONLY, DEFERRABLE",
        )
        .expect("set non-default transaction characteristics");

    engine
        .execute_sql(&session, "RESET TRANSACTION ISOLATION LEVEL")
        .expect("reset transaction isolation");
    engine
        .execute_sql(&session, "RESET TRANSACTION READ ONLY")
        .expect("reset transaction read only");
    engine
        .execute_sql(&session, "RESET TRANSACTION DEFERRABLE")
        .expect("reset transaction deferrable");

    let show_isolation = engine
        .execute_sql(&session, "SHOW transaction_isolation")
        .expect("show isolation");
    assert!(matches!(
        &show_isolation[0],
        StatementResult::Query { rows, .. } if rows[0].values[0] == Value::Text("read committed".into())
    ));

    let show_read_only = engine
        .execute_sql(&session, "SHOW transaction_read_only")
        .expect("show read only");
    assert!(matches!(
        &show_read_only[0],
        StatementResult::Query { rows, .. } if rows[0].values[0] == Value::Text("off".into())
    ));

    let show_deferrable = engine
        .execute_sql(&session, "SHOW transaction_deferrable")
        .expect("show deferrable");
    assert!(matches!(
        &show_deferrable[0],
        StatementResult::Query { rows, .. } if rows[0].values[0] == Value::Text("off".into())
    ));
}

#[test]
fn set_transaction_read_only_blocks_writes() {
    let mut engine = EngineBuilder::for_testing().build().unwrap();
    let (session, _) = engine.startup(startup_params()).expect("startup");

    engine
        .execute_sql(&session, "CREATE TABLE tx_read_only_guard (id INT)")
        .expect("create table");

    engine.execute_sql(&session, "BEGIN").expect("begin");
    engine
        .execute_sql(&session, "SET TRANSACTION READ ONLY")
        .expect("set read only");

    let error = engine
        .execute_sql(&session, "INSERT INTO tx_read_only_guard VALUES (1)")
        .expect_err("insert must fail in read-only transaction");
    assert_eq!(
        error.sqlstate(),
        SqlState::ObjectNotInPrerequisiteState
    );
    assert!(
        error
            .report()
            .message
            .contains("cannot execute INSERT in a read-only transaction"),
        "unexpected error message: {}",
        error.report().message
    );

    let commit = engine
        .execute_sql(&session, "COMMIT")
        .expect("failed transaction commit should roll back");
    assert!(matches!(
        &commit[0],
        StatementResult::Command { tag, .. } if tag == "ROLLBACK"
    ));

    let rows = query_rows(&mut engine, &session, "SELECT id FROM tx_read_only_guard");
    assert!(rows.is_empty(), "read-only txn must not stage writes");
}

#[test]
fn session_characteristics_read_only_applies_to_implicit_transactions() {
    let mut engine = EngineBuilder::for_testing().build().unwrap();
    let (session, _) = engine.startup(startup_params()).expect("startup");

    engine
        .execute_sql(&session, "CREATE TABLE tx_read_only_implicit (id INT)")
        .expect("create table");
    engine
        .execute_sql(
            &session,
            "SET SESSION CHARACTERISTICS AS TRANSACTION READ ONLY",
        )
        .expect("set default read only");

    let error = engine
        .execute_sql(&session, "INSERT INTO tx_read_only_implicit VALUES (1)")
        .expect_err("implicit transaction should honor default read only");
    assert_eq!(
        error.sqlstate(),
        SqlState::ObjectNotInPrerequisiteState
    );

    engine
        .execute_sql(&session, "RESET TRANSACTION READ ONLY")
        .expect("reset default read only");
    engine
        .execute_sql(&session, "INSERT INTO tx_read_only_implicit VALUES (2)")
        .expect("insert should work after reset");

    let rows = query_rows(
        &mut engine,
        &session,
        "SELECT id FROM tx_read_only_implicit ORDER BY id",
    );
    assert_eq!(rows, vec![Row::new(vec![Value::Int(2)])]);
}

#[test]
fn prepares_and_describes_select_literals() {
    let mut engine = EngineBuilder::for_testing().build().unwrap();
    let (session, _) = engine.startup(startup_params()).expect("startup");

    let desc = engine
        .prepare(
            &session,
            "s1".to_owned(),
            "SELECT 1 AS one, 'x', TRUE, NULL".to_owned(),
        )
        .expect("prepare");
    assert_eq!(desc.result_columns.len(), 4);
    assert_eq!(desc.result_columns[0].name, "one");
    assert_eq!(desc.result_columns[0].data_type, DataType::Int);
    assert_eq!(desc.result_columns[1].name, "?column?");
    assert_eq!(
        desc.result_columns[1].data_type,
        DataType::Text
    );
    assert_eq!(
        desc.result_columns[2].data_type,
        DataType::Boolean
    );
    assert!(desc.result_columns[3].nullable);
}

#[test]
fn executes_select_literals_via_pipeline() {
    let mut engine = EngineBuilder::for_testing().build().unwrap();
    let (session, _) = engine.startup(startup_params()).expect("startup");

    let results = engine
        .execute_sql(&session, "SELECT 1 AS one, 'x', TRUE, NULL")
        .expect("execute");
    assert_eq!(
        results,
        vec![StatementResult::Query {
            columns: vec![
                ResultColumn {
                    name: "one".to_owned(),
                    data_type: DataType::Int,
                    text_type_modifier: None,
                    nullable: false,
                },
                ResultColumn {
                    name: "?column?".to_owned(),
                    data_type: DataType::Text,
                    text_type_modifier: None,
                    nullable: false,
                },
                ResultColumn {
                    name: "?column?".to_owned(),
                    data_type: DataType::Boolean,
                    text_type_modifier: None,
                    nullable: false,
                },
                ResultColumn {
                    name: "?column?".to_owned(),
                    data_type: DataType::Text,
                    text_type_modifier: None,
                    nullable: true,
                },
            ],
            rows: vec![Row::new(vec![
                Value::Int(1),
                Value::Text("x".to_owned()),
                Value::Boolean(true),
                Value::Null,
            ])],
        }]
    );
}

#[test]
fn creates_table_and_selects_from_empty_relation() {
    let mut engine = EngineBuilder::for_testing().build().unwrap();
    let (session, _) = engine.startup(startup_params()).expect("startup");

    let create_results = engine
        .execute_sql(&session, "CREATE TABLE users (id INT, name TEXT)")
        .expect("create table");
    assert_eq!(
        create_results,
        vec![StatementResult::Command {
            tag: "CREATE TABLE".to_owned(),
            rows_affected: 0,
        }]
    );

    let query_results = engine
        .execute_sql(&session, "SELECT id, name FROM users")
        .expect("select");
    assert_eq!(
        query_results,
        vec![StatementResult::Query {
            columns: vec![
                ResultColumn {
                    name: "id".to_owned(),
                    data_type: DataType::Int,
                    text_type_modifier: None,
                    nullable: true,
                },
                ResultColumn {
                    name: "name".to_owned(),
                    data_type: DataType::Text,
                    text_type_modifier: None,
                    nullable: true,
                },
            ],
            rows: Vec::new(),
        }]
    );
}

#[test]
fn inserts_and_reads_rows_from_table_storage() {
    let mut engine = EngineBuilder::for_testing().build().unwrap();
    let (session, _) = engine.startup(startup_params()).expect("startup");

    let results = engine
        .execute_sql(
            &session,
            "CREATE TABLE users (id INT, name TEXT); \
             INSERT INTO users VALUES (1, 'alice'), (2, 'bob'); \
             SELECT id, name FROM users",
        )
        .expect("execute");

    assert_eq!(
        results,
        vec![
            StatementResult::Command {
                tag: "CREATE TABLE".to_owned(),
                rows_affected: 0,
            },
            StatementResult::Command {
                tag: "INSERT".to_owned(),
                rows_affected: 2,
            },
            StatementResult::Query {
                columns: vec![
                    ResultColumn {
                        name: "id".to_owned(),
                        data_type: DataType::Int,
                        text_type_modifier: None,
                        nullable: true,
                    },
                    ResultColumn {
                        name: "name".to_owned(),
                        data_type: DataType::Text,
                        text_type_modifier: None,
                        nullable: true,
                    },
                ],
                rows: vec![
                    Row::new(vec![
                        Value::Int(1),
                        Value::Text("alice".to_owned()),
                    ]),
                    Row::new(vec![
                        Value::Int(2),
                        Value::Text("bob".to_owned()),
                    ]),
                ],
            },
        ]
    );
}

#[test]
fn select_distinct_on_keeps_first_row_per_key_by_order() {
    let mut engine = EngineBuilder::for_testing().build().unwrap();
    let (session, _) = engine.startup(startup_params()).expect("startup");

    engine
        .execute_sql(
            &session,
            "CREATE TABLE d_on (grp INT, ts INT, payload TEXT); \
             INSERT INTO d_on VALUES \
                (1, 10, 'a'), \
                (1, 30, 'b'), \
                (1, 20, 'c'), \
                (2, 5,  'x'), \
                (2, 8,  'y'), \
                (3, 1,  'z');",
        )
        .expect("setup");

    let results = engine
        .execute_sql(
            &session,
            "SELECT DISTINCT ON (grp) grp, ts, payload \
             FROM d_on \
             ORDER BY grp, ts DESC, payload",
        )
        .expect("distinct on query");

    let StatementResult::Query { rows, .. } = &results[0] else {
        panic!("expected query result");
    };

    assert_eq!(
        rows,
        &vec![
            Row::new(vec![
                Value::Int(1),
                Value::Int(30),
                Value::Text("b".to_owned()),
            ]),
            Row::new(vec![
                Value::Int(2),
                Value::Int(8),
                Value::Text("y".to_owned()),
            ]),
            Row::new(vec![
                Value::Int(3),
                Value::Int(1),
                Value::Text("z".to_owned()),
            ]),
        ]
    );
}

#[test]
fn selects_rows_with_where_filter() {
    let mut engine = EngineBuilder::for_testing().build().unwrap();
    let (session, _) = engine.startup(startup_params()).expect("startup");

    let results = engine
        .execute_sql(
            &session,
            "CREATE TABLE users (id INT, name TEXT); \
             INSERT INTO users VALUES (1, 'alice'), (2, 'bob'); \
             SELECT id, name FROM users WHERE id = 2",
        )
        .expect("execute");

    assert_eq!(
        results,
        vec![
            StatementResult::Command {
                tag: "CREATE TABLE".to_owned(),
                rows_affected: 0,
            },
            StatementResult::Command {
                tag: "INSERT".to_owned(),
                rows_affected: 2,
            },
            StatementResult::Query {
                columns: vec![
                    ResultColumn {
                        name: "id".to_owned(),
                        data_type: DataType::Int,
                        text_type_modifier: None,
                        nullable: true,
                    },
                    ResultColumn {
                        name: "name".to_owned(),
                        data_type: DataType::Text,
                        text_type_modifier: None,
                        nullable: true,
                    },
                ],
                rows: vec![Row::new(vec![
                    Value::Int(2),
                    Value::Text("bob".to_owned()),
                ])],
            },
        ]
    );
}

#[test]
fn orders_rows_by_multiple_columns() {
    let mut engine = EngineBuilder::for_testing().build().unwrap();
    let (session, _) = engine.startup(startup_params()).expect("startup");

    let results = engine
        .execute_sql(
            &session,
            "CREATE TABLE users (id INT, name TEXT); \
             INSERT INTO users VALUES (2, 'bob'), (1, 'carol'), (3, 'bob'); \
             SELECT id, name FROM users ORDER BY name DESC, id ASC",
        )
        .expect("execute");

    assert_eq!(
        results,
        vec![
            StatementResult::Command {
                tag: "CREATE TABLE".to_owned(),
                rows_affected: 0,
            },
            StatementResult::Command {
                tag: "INSERT".to_owned(),
                rows_affected: 3,
            },
            StatementResult::Query {
                columns: vec![
                    ResultColumn {
                        name: "id".to_owned(),
                        data_type: DataType::Int,
                        text_type_modifier: None,
                        nullable: true,
                    },
                    ResultColumn {
                        name: "name".to_owned(),
                        data_type: DataType::Text,
                        text_type_modifier: None,
                        nullable: true,
                    },
                ],
                rows: vec![
                    Row::new(vec![
                        Value::Int(1),
                        Value::Text("carol".to_owned()),
                    ]),
                    Row::new(vec![
                        Value::Int(2),
                        Value::Text("bob".to_owned()),
                    ]),
                    Row::new(vec![
                        Value::Int(3),
                        Value::Text("bob".to_owned()),
                    ]),
                ],
            },
        ]
    );
}

#[test]
fn orders_rows_by_projection_alias() {
    let mut engine = EngineBuilder::for_testing().build().unwrap();
    let (session, _) = engine.startup(startup_params()).expect("startup");

    let results = engine
        .execute_sql(
            &session,
            "CREATE TABLE users (id INT, name TEXT); \
             INSERT INTO users VALUES (1, 'alice'), (3, 'carol'), (2, 'bob'); \
             SELECT id AS ident, name FROM users ORDER BY ident DESC",
        )
        .expect("execute");

    assert_eq!(
        results,
        vec![
            StatementResult::Command {
                tag: "CREATE TABLE".to_owned(),
                rows_affected: 0,
            },
            StatementResult::Command {
                tag: "INSERT".to_owned(),
                rows_affected: 3,
            },
            StatementResult::Query {
                columns: vec![
                    ResultColumn {
                        name: "ident".to_owned(),
                        data_type: DataType::Int,
                        text_type_modifier: None,
                        nullable: true,
                    },
                    ResultColumn {
                        name: "name".to_owned(),
                        data_type: DataType::Text,
                        text_type_modifier: None,
                        nullable: true,
                    },
                ],
                rows: vec![
                    Row::new(vec![
                        Value::Int(3),
                        Value::Text("carol".to_owned()),
                    ]),
                    Row::new(vec![
                        Value::Int(2),
                        Value::Text("bob".to_owned()),
                    ]),
                    Row::new(vec![
                        Value::Int(1),
                        Value::Text("alice".to_owned()),
                    ]),
                ],
            },
        ]
    );
}

#[test]
fn limits_rows_without_ordering() {
    let mut engine = EngineBuilder::for_testing().build().unwrap();
    let (session, _) = engine.startup(startup_params()).expect("startup");

    let results = engine
        .execute_sql(
            &session,
            "CREATE TABLE users (id INT, name TEXT); \
             INSERT INTO users VALUES (1, 'alice'), (2, 'bob'), (3, 'carol'); \
             SELECT id, name FROM users LIMIT 2",
        )
        .expect("execute");

    assert_eq!(
        results,
        vec![
            StatementResult::Command {
                tag: "CREATE TABLE".to_owned(),
                rows_affected: 0,
            },
            StatementResult::Command {
                tag: "INSERT".to_owned(),
                rows_affected: 3,
            },
            StatementResult::Query {
                columns: vec![
                    ResultColumn {
                        name: "id".to_owned(),
                        data_type: DataType::Int,
                        text_type_modifier: None,
                        nullable: true,
                    },
                    ResultColumn {
                        name: "name".to_owned(),
                        data_type: DataType::Text,
                        text_type_modifier: None,
                        nullable: true,
                    },
                ],
                rows: vec![
                    Row::new(vec![
                        Value::Int(1),
                        Value::Text("alice".to_owned()),
                    ]),
                    Row::new(vec![
                        Value::Int(2),
                        Value::Text("bob".to_owned()),
                    ]),
                ],
            },
        ]
    );
}

#[test]
fn limits_rows_after_ordering() {
    let mut engine = EngineBuilder::for_testing().build().unwrap();
    let (session, _) = engine.startup(startup_params()).expect("startup");

    let results = engine
        .execute_sql(
            &session,
            "CREATE TABLE users (id INT, name TEXT); \
             INSERT INTO users VALUES (1, 'alice'), (3, 'carol'), (2, 'bob'); \
             SELECT id, name FROM users ORDER BY id DESC LIMIT 2",
        )
        .expect("execute");

    assert_eq!(
        results,
        vec![
            StatementResult::Command {
                tag: "CREATE TABLE".to_owned(),
                rows_affected: 0,
            },
            StatementResult::Command {
                tag: "INSERT".to_owned(),
                rows_affected: 3,
            },
            StatementResult::Query {
                columns: vec![
                    ResultColumn {
                        name: "id".to_owned(),
                        data_type: DataType::Int,
                        text_type_modifier: None,
                        nullable: true,
                    },
                    ResultColumn {
                        name: "name".to_owned(),
                        data_type: DataType::Text,
                        text_type_modifier: None,
                        nullable: true,
                    },
                ],
                rows: vec![
                    Row::new(vec![
                        Value::Int(3),
                        Value::Text("carol".to_owned()),
                    ]),
                    Row::new(vec![
                        Value::Int(2),
                        Value::Text("bob".to_owned()),
                    ]),
                ],
            },
        ]
    );
}
