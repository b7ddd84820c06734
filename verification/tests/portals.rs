use aiondb_engine::auth::StartupParams;
use aiondb_engine::datum::DataType;
use aiondb_engine::engine::EngineBuilder;
use aiondb_engine::fault::SqlState;
use aiondb_engine::fixtures::startup_as;
use aiondb_engine::harness::query_rows_as_text;
use aiondb_engine::prepared::PortalBatch;
use aiondb_engine::value::ResultColumn;
use aiondb_engine::value::Row;
use aiondb_engine::value::StatementResult;
use aiondb_engine::value::Value;

fn startup_params() -> StartupParams {
    startup_as("alice")
}

#[test]
fn executes_prepared_select_portal() {
    let mut engine = EngineBuilder::for_testing().build().unwrap();
    let (session, _) = engine.startup(startup_params()).expect("startup");

    engine
        .prepare(
            &session,
            "sel".to_owned(),
            "SELECT 1 AS one, TRUE".to_owned(),
        )
        .expect("prepare");
    engine
        .bind(&session, "p1".to_owned(), "sel".to_owned(), Vec::new())
        .expect("bind");

    let batch = engine
        .execute_portal(&session, "p1", 0)
        .expect("execute portal");
    assert_eq!(
        batch,
        PortalBatch {
            columns: vec![
                ResultColumn {
                    name: "one".to_owned(),
                    data_type: DataType::Int,
                    text_type_modifier: None,
                    nullable: false,
                },
                ResultColumn {
                    name: "?column?".to_owned(),
                    data_type: DataType::Boolean,
                    text_type_modifier: None,
                    nullable: false,
                },
            ],
            rows: vec![Row::new(vec![
                Value::Int(1),
                Value::Boolean(true),
            ])],
            tag: "SELECT 1".to_owned(),
            rows_affected: 0,
            exhausted: true,
        }
    );
}

#[test]
fn prepares_and_executes_parameterized_select_portal() {
    let mut engine = EngineBuilder::for_testing().build().unwrap();
    let (session, _) = engine.startup(startup_params()).expect("startup");

    engine
        .execute_sql(
            &session,
            "CREATE TABLE users (id INT, name TEXT); \
             INSERT INTO users VALUES (1, 'alice'), (2, 'bob')",
        )
        .expect("seed");

    let desc = engine
        .prepare(
            &session,
            "sel_param".to_owned(),
            "SELECT id, name FROM users WHERE id = $1".to_owned(),
        )
        .expect("prepare");
    assert_eq!(desc.param_types, vec![DataType::Int]);

    engine
        .bind(
            &session,
            "p1".to_owned(),
            "sel_param".to_owned(),
            vec![Value::Int(2)],
        )
        .expect("bind");

    let batch = engine
        .execute_portal(&session, "p1", 0)
        .expect("execute portal");
    assert_eq!(
        batch,
        PortalBatch {
            columns: vec![
                ResultColumn {
                    name: "id".to_owned(),
                    data_type: DataType::Int,
                    text_type_modifier: None,
                    nullable: true,
                },
                ResultColumn {
                    name: "name".to_owned(),
                    data_type: DataType::Text,
                    text_type_modifier: None,
                    nullable: true,
                },
            ],
            rows: vec![Row::new(vec![
                Value::Int(2),
                Value::Text("bob".to_owned()),
            ])],
            tag: "SELECT 1".to_owned(),
            rows_affected: 0,
            exhausted: true,
        }
    );
}

#[test]
fn prepared_batch_case_update_after_reinsert_updates_all_rows() {
    let mut engine = EngineBuilder::for_testing().build().unwrap();
    let (session, _) = engine.startup(startup_params()).expect("startup");

    engine
        .execute_sql(
            &session,
            "CREATE TABLE record (id INT PRIMARY KEY, n INTEGER NOT NULL, s TEXT NOT NULL); \
             INSERT INTO record VALUES (1, 10, 'a'), (2, 20, 'b'); \
             DELETE FROM record WHERE id IN (1, 2); \
             INSERT INTO record VALUES (1, 10, 'a'), (2, 20, 'b')",
        )
        .expect("seed");

    engine
        .prepare(
            &session,
            "batch_upd".to_owned(),
            "UPDATE record SET \
                 n = CASE record.id \
                     WHEN $1::INTEGER THEN $3::INTEGER \
                     WHEN $2::INTEGER THEN $4::INTEGER \
                     ELSE n \
                 END, \
                 s = CASE record.id \
                     WHEN $1::INTEGER THEN $5::TEXT \
                     WHEN $2::INTEGER THEN $6::TEXT \
                     ELSE s \
                 END \
             WHERE record.id IN ($1::INTEGER, $2::INTEGER)"
                .to_owned(),
        )
        .expect("prepare");
    let (batch, _) = engine
        .execute_prepared_statement_with_notices(
            &session,
            "batch_upd".to_owned(),
            vec![
                Value::Int(1),
                Value::Int(2),
                Value::Int(11),
                Value::Int(22),
                Value::Text("aa".to_owned()),
                Value::Text("bb".to_owned()),
            ],
            0,
        )
        .expect("execute prepared");
    assert_eq!(batch.tag, "UPDATE");
    assert_eq!(batch.rows_affected, 2);

    assert_eq!(
        query_rows_as_text(
            engine
                .execute_sql(&session, "SELECT id, n, s FROM record ORDER BY id")
                .expect("select")
        ),
        vec![
            vec!["1".to_owned(), "11".to_owned(), "aa".to_owned()],
            vec!["2".to_owned(), "22".to_owned(), "bb".to_owned()],
        ]
    );
}

#[test]
fn prepared_update_inside_explicit_transaction_enrolls_storage_participant() {
    let mut engine = EngineBuilder::for_testing().build().unwrap();
    let (session, _) = engine.startup(startup_params()).expect("startup");

    engine
        .execute_sql(
            &session,
            "CREATE TABLE accounts (id INT PRIMARY KEY, bal INT); \
             INSERT INTO accounts VALUES (1, 10)",
        )
        .expect("seed");

    engine
        .prepare(
            &session,
            "upd_txn".to_owned(),
            "UPDATE accounts SET bal = bal + $1 WHERE id = $2".to_owned(),
        )
        .expect("prepare");

    engine.execute_sql(&session, "BEGIN").expect("begin");
    engine
        .bind(
            &session,
            "p_txn".to_owned(),
            "upd_txn".to_owned(),
            vec![Value::Int(5), Value::Int(1)],
        )
        .expect("bind");
    let batch = engine
        .execute_portal(&session, "p_txn", 0)
        .expect("execute in explicit txn");
    assert!(
        batch.tag.starts_with("UPDATE"),
        "unexpected tag: {}",
        batch.tag
    );
    engine.execute_sql(&session, "COMMIT").expect("commit");

    let rows = engine
        .execute_sql(&session, "SELECT bal FROM accounts WHERE id = 1")
        .expect("verify");
    assert_eq!(query_rows_as_text(rows), vec![vec!["15".to_owned()]]);
}

#[test]
fn execute_prepared_statement_respects_updated_bind_values() {
    let mut engine = EngineBuilder::for_testing().build().unwrap();
    let (session, _) = engine.startup(startup_params()).expect("startup");

    engine
        .execute_sql(
            &session,
            "CREATE TABLE users (id INT, name TEXT); \
             INSERT INTO users VALUES (1, 'alice'), (2, 'bob')",
        )
        .expect("seed");

    engine
        .prepare(
            &session,
            "sel_param_exec".to_owned(),
            "SELECT id, name FROM users WHERE id = $1".to_owned(),
        )
        .expect("prepare");

    let (batch1, notices1) = engine
        .execute_prepared_statement_with_notices(
            &session,
            "sel_param_exec".to_owned(),
            vec![Value::Int(1)],
            usize::MAX,
        )
        .expect("execute prepared with id=1");
    assert!(
        notices1.is_empty(),
        "unexpected notices for id=1: {notices1:?}"
    );
    assert_eq!(
        batch1.rows,
        vec![Row::new(vec![
            Value::Int(1),
            Value::Text("alice".to_owned()),
        ])]
    );

    let (batch2, notices2) = engine
        .execute_prepared_statement_with_notices(
            &session,
            "sel_param_exec".to_owned(),
            vec![Value::Int(2)],
            usize::MAX,
        )
        .expect("execute prepared with id=2");
    assert!(
        notices2.is_empty(),
        "unexpected notices for id=2: {notices2:?}"
    );
    assert_eq!(
        batch2.rows,
        vec![Row::new(vec![
            Value::Int(2),
            Value::Text("bob".to_owned()),
        ])]
    );
}

#[test]
fn executes_parameterized_insert_and_update_portals() {
    let mut engine = EngineBuilder::for_testing().build().unwrap();
    let (session, _) = engine.startup(startup_params()).expect("startup");

    engine
        .execute_sql(&session, "CREATE TABLE users (id INT, name TEXT)")
        .expect("create");

    let insert_desc = engine
        .prepare(
            &session,
            "ins".to_owned(),
            "INSERT INTO users VALUES ($1, $2)".to_owned(),
        )
        .expect("prepare insert");
    assert_eq!(
        insert_desc.param_types,
        vec![DataType::Int, DataType::Text]
    );
    engine
        .bind(
            &session,
            "ins_portal".to_owned(),
            "ins".to_owned(),
            vec![
                Value::Int(1),
                Value::Text("alice".to_owned()),
            ],
        )
        .expect("bind insert");
    let insert_batch = engine
        .execute_portal(&session, "ins_portal", 0)
        .expect("execute insert");
    assert_eq!(insert_batch.tag, "INSERT");
    assert_eq!(insert_batch.rows_affected, 1);

    let update_desc = engine
        .prepare(
            &session,
            "upd".to_owned(),
            "UPDATE users SET name = $1 WHERE id = $2".to_owned(),
        )
        .expect("prepare update");
    assert_eq!(
        update_desc.param_types,
        vec![DataType::Text, DataType::Int]
    );
    engine
        .bind(
            &session,
            "upd_portal".to_owned(),
            "upd".to_owned(),
            vec![
                Value::Text("updated".to_owned()),
                Value::Int(1),
            ],
        )
        .expect("bind update");
    let update_batch = engine
        .execute_portal(&session, "upd_portal", 0)
        .expect("execute update");
    assert_eq!(update_batch.tag, "UPDATE");
    assert_eq!(update_batch.rows_affected, 1);

    let delete_desc = engine
        .prepare(
            &session,
            "del".to_owned(),
            "DELETE FROM users WHERE id = $1".to_owned(),
        )
        .expect("prepare delete");
    assert_eq!(delete_desc.param_types, vec![DataType::Int]);
    engine
        .bind(
            &session,
            "del_portal".to_owned(),
            "del".to_owned(),
            vec![Value::Int(1)],
        )
        .expect("bind delete");
    let delete_batch = engine
        .execute_portal(&session, "del_portal", 0)
        .expect("execute delete");
    assert_eq!(delete_batch.tag, "DELETE");
    assert_eq!(delete_batch.rows_affected, 1);

    let results = engine
        .execute_sql(&session, "SELECT id, name FROM users")
        .expect("select");
    assert_eq!(
        results,
        vec![StatementResult::Query {
            columns: vec![
                ResultColumn {
                    name: "id".to_owned(),
                    data_type: DataType::Int,
                    text_type_modifier: None,
                    nullable: true,
                },
                ResultColumn {
                    name: "name".to_owned(),
                    data_type: DataType::Text,
                    text_type_modifier: None,
                    nullable: true,
                },
            ],
            rows: vec![],
        }]
    );
}

#[test]
fn prepared_insert_null_for_not_null_column_is_lenient() {
    let mut engine = EngineBuilder::for_testing().build().unwrap();
    let (session, _) = engine.startup(startup_params()).expect("startup");

    engine
        .execute_sql(&session, "CREATE TABLE users (id INT NOT NULL, name TEXT)")
        .expect("create");

    let desc = engine
        .prepare(
            &session,
            "ins_not_null".to_owned(),
            "INSERT INTO users VALUES ($1, $2)".to_owned(),
        )
        .expect("prepare insert");
    assert_eq!(
        desc.param_types,
        vec![DataType::Int, DataType::Text]
    );

    engine
        .bind(
            &session,
            "ins_not_null_portal".to_owned(),
            "ins_not_null".to_owned(),
            vec![
                Value::Null,
                Value::Text("alice".to_owned()),
            ],
        )
        .expect("bind insert");

    let err = engine
        .execute_portal(&session, "ins_not_null_portal", 0)
        .expect_err("NOT NULL column must reject NULL insert");
    assert_eq!(err.sqlstate(), SqlState::NotNullViolation);
}

#[test]
fn bind_rejects_wrong_parameter_count() {
    let mut engine = EngineBuilder::for_testing().build().unwrap();
    let (session, _) = engine.startup(startup_params()).expect("startup");

    engine
        .prepare(
            &session,
            "sel_param".to_owned(),
            "SELECT 1 WHERE $1".to_owned(),
        )
        .expect("prepare");

    let error = engine
        .bind(
            &session,
            "p1".to_owned(),
            "sel_param".to_owned(),
            Vec::new(),
        )
        .expect_err("wrong parameter count");
    assert_eq!(
        error.sqlstate(),
        SqlState::InvalidParameterValue
    );
}

#[test]
fn prepares_and_executes_parameterized_exists_subquery_portal() {
    let mut engine = EngineBuilder::for_testing().build().unwrap();
    let (session, _) = engine.startup(startup_params()).expect("startup");

    let desc = engine
        .prepare(
            &session,
            "exists_param".to_owned(),
            "SELECT EXISTS (SELECT 1 WHERE $1 = 1) AS matched".to_owned(),
        )
        .expect("prepare exists");
    assert_eq!(desc.param_types, vec![DataType::Int]);

    engine
        .bind(
            &session,
            "exists_portal".to_owned(),
            "exists_param".to_owned(),
            vec![Value::Int(1)],
        )
        .expect("bind exists");

    let batch = engine
        .execute_portal(&session, "exists_portal", 0)
        .expect("execute exists");
    assert_eq!(
        batch,
        PortalBatch {
            columns: vec![ResultColumn {
                name: "matched".to_owned(),
                data_type: DataType::Boolean,
                text_type_modifier: None,
                nullable: false,
            }],
            rows: vec![Row::new(vec![Value::Boolean(
                true,
            )])],
            tag: "SELECT 1".to_owned(),
            rows_affected: 0,
            exhausted: true,
        }
    );
}

#[test]
fn execute_portal_respects_max_rows() {
    let mut engine = EngineBuilder::for_testing().build().unwrap();
    let (session, _) = engine.startup(startup_params()).expect("startup");

    engine
        .execute_sql(
            &session,
            "CREATE TABLE users (id INT); \
             INSERT INTO users VALUES (1), (2), (3)",
        )
        .expect("seed");
    engine
        .prepare(
            &session,
            "sel".to_owned(),
            "SELECT id FROM users".to_owned(),
        )
        .expect("prepare");
    engine
        .bind(&session, "p1".to_owned(), "sel".to_owned(), Vec::new())
        .expect("bind");

    let first = engine
        .execute_portal(&session, "p1", 1)
        .expect("first batch");
    assert_eq!(
        first,
        PortalBatch {
            columns: vec![ResultColumn {
                name: "id".to_owned(),
                data_type: DataType::Int,
                text_type_modifier: None,
                nullable: true,
            }],
            rows: vec![Row::new(vec![Value::Int(1)])],
            tag: "SELECT".to_owned(),
            rows_affected: 0,
            exhausted: false,
        }
    );

    let second = engine
        .execute_portal(&session, "p1", 1)
        .expect("second batch");
    assert_eq!(
        second.rows,
        vec![Row::new(vec![Value::Int(2)])]
    );
    assert!(!second.exhausted);

    let third = engine
        .execute_portal(&session, "p1", 1)
        .expect("third batch");
    assert_eq!(
        third,
        PortalBatch {
            columns: vec![ResultColumn {
                name: "id".to_owned(),
                data_type: DataType::Int,
                text_type_modifier: None,
                nullable: true,
            }],
            rows: vec![Row::new(vec![Value::Int(3)])],
            tag: "SELECT 3".to_owned(),
            rows_affected: 0,
            exhausted: true,
        }
    );
}

#[test]
fn suspended_dml_returning_portal_does_not_reexecute_side_effects() {
    let mut engine = EngineBuilder::for_testing().build().unwrap();
    let (session, _) = engine.startup(startup_params()).expect("startup");

    engine
        .execute_sql(&session, "CREATE TABLE t_ret_portal (id INT)")
        .expect("create table");
    engine
        .prepare(
            &session,
            "ins_ret".to_owned(),
            "INSERT INTO t_ret_portal VALUES (1), (2) RETURNING id".to_owned(),
        )
        .expect("prepare insert returning");
    engine
        .bind(
            &session,
            "p_ret".to_owned(),
            "ins_ret".to_owned(),
            Vec::new(),
        )
        .expect("bind portal");

    let first = engine
        .execute_portal(&session, "p_ret", 1)
        .expect("first batch");
    assert_eq!(
        first.rows,
        vec![Row::new(vec![Value::Int(1)])]
    );
    assert!(!first.exhausted);

    let second = engine
        .execute_portal(&session, "p_ret", 1)
        .expect("second batch");
    assert_eq!(
        second,
        PortalBatch {
            columns: vec![ResultColumn {
                name: "id".to_owned(),
                data_type: DataType::Int,
                text_type_modifier: None,
                nullable: true,
            }],
            rows: vec![Row::new(vec![Value::Int(2)])],
            tag: "INSERT 0 2".to_owned(),
            rows_affected: 0,
            exhausted: true,
        }
    );

    let count = engine
        .execute_sql(&session, "SELECT COUNT(*) AS count FROM t_ret_portal")
        .expect("count rows after portal execution");
    assert!(matches!(
        count.as_slice(),
        [StatementResult::Query { rows, .. }]
            if rows == &[Row::new(vec![Value::BigInt(2)])]
    ));
}

#[test]
fn parameter_in_returning_requires_prepare() {
    let mut engine = EngineBuilder::for_testing().build().unwrap();
    let (session, _) = engine.startup(startup_params()).expect("startup");

    engine
        .execute_sql(&session, "CREATE TABLE t_param_returning (id INT)")
        .expect("create table");

    let error = engine
        .execute_sql(
            &session,
            "INSERT INTO t_param_returning VALUES (1) RETURNING $1",
        )
        .expect_err("parameterized RETURNING should require prepare");
    assert_eq!(error.sqlstate(), SqlState::UndefinedParameter);
    assert!(
        error
            .report()
            .message
            .contains("parameterized statements must be prepared before execution"),
        "unexpected error: {}",
        error.report().message
    );
}

#[test]
fn prepared_insert_on_conflict_and_returning_bind_params_across_subtrees() {
    let mut engine = EngineBuilder::for_testing().build().unwrap();
    let (session, _) = engine.startup(startup_params()).expect("startup");

    engine
        .execute_sql(
            &session,
            "CREATE TABLE t_conflict_returning (id INT PRIMARY KEY, val TEXT); \
             INSERT INTO t_conflict_returning VALUES (1, 'seed')",
        )
        .expect("seed table");
    engine
        .prepare(
            &session,
            "ins_conflict_ret".to_owned(),
            "INSERT INTO t_conflict_returning VALUES ($1, $2) \
             ON CONFLICT (id) DO UPDATE SET val = $3 WHERE id = $1 \
             RETURNING $4::TEXT AS marker, val"
                .to_owned(),
        )
        .expect("prepare insert on conflict returning");
    engine
        .bind(
            &session,
            "p_conflict_ret".to_owned(),
            "ins_conflict_ret".to_owned(),
            vec![
                Value::Int(1),
                Value::Text("ignored".to_owned()),
                Value::Text("updated".to_owned()),
                Value::Text("ok".to_owned()),
            ],
        )
        .expect("bind portal");

    let batch = engine
        .execute_portal(&session, "p_conflict_ret", 0)
        .expect("execute portal");
    assert_eq!(
        batch,
        PortalBatch {
            columns: vec![
                ResultColumn {
                    name: "marker".to_owned(),
                    data_type: DataType::Text,
                    text_type_modifier: None,
                    nullable: false,
                },
                ResultColumn {
                    name: "val".to_owned(),
                    data_type: DataType::Text,
                    text_type_modifier: None,
                    nullable: true,
                },
            ],
            rows: vec![Row::new(vec![
                Value::Text("ok".to_owned()),
                Value::Text("updated".to_owned()),
            ])],
            tag: "INSERT 0 1".to_owned(),
            rows_affected: 0,
            exhausted: true,
        }
    );

    let row = engine
        .execute_sql(
            &session,
            "SELECT val FROM t_conflict_returning WHERE id = 1",
        )
        .expect("select updated row");
    assert!(matches!(
        row.as_slice(),
        [StatementResult::Query { rows, .. }]
            if rows == &[Row::new(vec![Value::Text(
                "updated".to_owned()
            )])]
    ));
}

#[test]
fn execute_portal_reports_select_zero_for_empty_results() {
    let mut engine = EngineBuilder::for_testing().build().unwrap();
    let (session, _) = engine.startup(startup_params()).expect("startup");

    engine
        .prepare(
            &session,
            "sel_empty".to_owned(),
            "SELECT 1 WHERE FALSE".to_owned(),
        )
        .expect("prepare");
    engine
        .bind(
            &session,
            "p_empty".to_owned(),
            "sel_empty".to_owned(),
            Vec::new(),
        )
        .expect("bind");

    let batch = engine
        .execute_portal(&session, "p_empty", 0)
        .expect("execute empty portal");
    assert_eq!(
        batch,
        PortalBatch {
            columns: vec![ResultColumn {
                name: "?column?".to_owned(),
                data_type: DataType::Int,
                text_type_modifier: None,
                nullable: false,
            }],
            rows: vec![],
            tag: "SELECT 0".to_owned(),
            rows_affected: 0,
            exhausted: true,
        }
    );
}

#[test]
fn null_comparison_in_where_returns_no_rows() {
    let mut engine = EngineBuilder::for_testing().build().unwrap();
    let (session, _) = engine.startup(startup_params()).expect("startup");

    let results = engine
        .execute_sql(&session, "SELECT 1 AS one WHERE NULL = 1")
        .expect("execute");
    assert_eq!(
        results,
        vec![StatementResult::Query {
            columns: vec![ResultColumn {
                name: "one".to_owned(),
                data_type: DataType::Int,
                text_type_modifier: None,
                nullable: false,
            }],
            rows: Vec::new(),
        }]
    );
}

#[test]
fn execute_sql_rejects_parameterized_statements() {
    let mut engine = EngineBuilder::for_testing().build().unwrap();
    let (session, _) = engine.startup(startup_params()).expect("startup");

    let error = engine
        .execute_sql(&session, "SELECT $1")
        .expect_err("parameterized direct execution");
    assert_eq!(error.sqlstate(), SqlState::UndefinedParameter);
}

#[test]
fn execute_sql_supports_compat_cursor_fetch_all() {
    let mut engine = EngineBuilder::for_testing().build().unwrap();
    let (session, _) = engine.startup(startup_params()).expect("startup");

    engine
        .execute_sql(
            &session,
            "CREATE TABLE cursor_items (id INT); \
             INSERT INTO cursor_items VALUES (1), (2)",
        )
        .expect("seed");
    engine.execute_sql(&session, "BEGIN").expect("begin");
    engine
        .execute_sql(
            &session,
            "DECLARE c CURSOR FOR SELECT id FROM cursor_items ORDER BY id",
        )
        .expect("declare");

    let results = engine
        .execute_sql(&session, "FETCH ALL IN c")
        .expect("fetch all");
    assert_eq!(
        results,
        vec![StatementResult::Query {
            columns: vec![ResultColumn {
                name: "id".to_owned(),
                data_type: DataType::Int,
                text_type_modifier: None,
                nullable: true,
            }],
            rows: vec![
                Row::new(vec![Value::Int(1)]),
                Row::new(vec![Value::Int(2)]),
            ],
        }]
    );

    engine.execute_sql(&session, "CLOSE c").expect("close");
    engine.execute_sql(&session, "COMMIT").expect("commit");
}

#[test]
fn exhausted_compat_cursor_fetch_keeps_result_columns() {
    let mut engine = EngineBuilder::for_testing().build().unwrap();
    let (session, _) = engine.startup(startup_params()).expect("startup");

    engine
        .execute_sql(
            &session,
            "CREATE TABLE cursor_page (id INT); \
             INSERT INTO cursor_page VALUES (1)",
        )
        .expect("seed");
    engine.execute_sql(&session, "BEGIN").expect("begin");
    engine
        .execute_sql(
            &session,
            "DECLARE c CURSOR FOR SELECT id FROM cursor_page ORDER BY id",
        )
        .expect("declare");

    let first = engine
        .execute_sql(&session, "FETCH NEXT IN c")
        .expect("first fetch");
    assert_eq!(
        first,
        vec![StatementResult::Query {
            columns: vec![ResultColumn {
                name: "id".to_owned(),
                data_type: DataType::Int,
                text_type_modifier: None,
                nullable: true,
            }],
            rows: vec![Row::new(vec![Value::Int(1)])],
        }]
    );

    let second = engine
        .execute_sql(&session, "FETCH NEXT IN c")
        .expect("empty fetch");
    assert_eq!(
        second,
        vec![StatementResult::Query {
            columns: vec![ResultColumn {
                name: "id".to_owned(),
                data_type: DataType::Int,
                text_type_modifier: None,
                nullable: true,
            }],
            rows: Vec::new(),
        }]
    );

    engine.execute_sql(&session, "CLOSE c").expect("close");
    engine.execute_sql(&session, "COMMIT").expect("commit");
}

#[test]
fn compat_scroll_cursor_fetch_directions_follow_portal_position() {
    let mut engine = EngineBuilder::for_testing().build().unwrap();
    let (session, _) = engine.startup(startup_params()).expect("startup");

    engine
        .execute_sql(
            &session,
            "CREATE TABLE cursor_scroll (id INT); \
             INSERT INTO cursor_scroll VALUES (1), (2), (3)",
        )
        .expect("seed");
    engine.execute_sql(&session, "BEGIN").expect("begin");
    engine
        .execute_sql(
            &session,
            "DECLARE c SCROLL CURSOR FOR SELECT id FROM cursor_scroll ORDER BY id",
        )
        .expect("declare");

    let first = engine
        .execute_sql(&session, "FETCH NEXT c")
        .expect("fetch next");
    assert_eq!(
        first,
        vec![StatementResult::Query {
            columns: vec![ResultColumn {
                name: "id".to_owned(),
                data_type: DataType::Int,
                text_type_modifier: None,
                nullable: true,
            }],
            rows: vec![Row::new(vec![Value::Int(1)])],
        }]
    );

    let second = engine
        .execute_sql(&session, "FETCH NEXT c")
        .expect("fetch next second");
    assert_eq!(
        second,
        vec![StatementResult::Query {
            columns: vec![ResultColumn {
                name: "id".to_owned(),
                data_type: DataType::Int,
                text_type_modifier: None,
                nullable: true,
            }],
            rows: vec![Row::new(vec![Value::Int(2)])],
        }]
    );

    let prior = engine
        .execute_sql(&session, "FETCH PRIOR c")
        .expect("fetch prior");
    assert_eq!(
        prior,
        vec![StatementResult::Query {
            columns: vec![ResultColumn {
                name: "id".to_owned(),
                data_type: DataType::Int,
                text_type_modifier: None,
                nullable: true,
            }],
            rows: vec![Row::new(vec![Value::Int(1)])],
        }]
    );

    let first_again = engine
        .execute_sql(&session, "FETCH FIRST c")
        .expect("fetch first");
    assert_eq!(
        first_again,
        vec![StatementResult::Query {
            columns: vec![ResultColumn {
                name: "id".to_owned(),
                data_type: DataType::Int,
                text_type_modifier: None,
                nullable: true,
            }],
            rows: vec![Row::new(vec![Value::Int(1)])],
        }]
    );

    let last = engine
        .execute_sql(&session, "FETCH LAST c")
        .expect("fetch last");
    assert_eq!(
        last,
        vec![StatementResult::Query {
            columns: vec![ResultColumn {
                name: "id".to_owned(),
                data_type: DataType::Int,
                text_type_modifier: None,
                nullable: true,
            }],
            rows: vec![Row::new(vec![Value::Int(3)])],
        }]
    );

    engine.execute_sql(&session, "CLOSE c").expect("close");
    engine.execute_sql(&session, "COMMIT").expect("commit");
}
