use aiondb_engine::ast::IsolationLevel;
use aiondb_engine::engine::Engine;
use aiondb_engine::engine::EngineBuilder;
use aiondb_engine::engine::SessionHandle;
use aiondb_engine::fixtures;
use aiondb_engine::harness;
use aiondb_engine::symbols::Symbols;
use aiondb_engine::txn::CheckpointInfo;
use aiondb_engine::txn::CountingTransactionManager;
use aiondb_engine::txn::RecordingSavepointStorageTxnParticipant;

fn started() -> (Engine, SessionHandle) {
    let mut engine = EngineBuilder::for_testing().build().unwrap();
    let (session, _) = engine.startup(fixtures::startup_as("alice")).unwrap();
    (engine, session)
}

fn shown(engine: &mut Engine, session: &SessionHandle, name: &str) -> String {
    let rows = harness::query_rows(engine, session, &format!("SHOW {name}")).unwrap();
    harness::text_col(&rows[0], 0)
}

#[test]
fn date_settings_are_applied() {
    let (mut e, s) = started();
    fixtures::apply_date_session_settings(&mut e, &s, "ISO, YMD").unwrap();
    assert_eq!(shown(&mut e, &s, "TimeZone"), "PST8PDT");
    assert_eq!(shown(&mut e, &s, "DateStyle"), "ISO, YMD");
    assert!(fixtures::apply_date_session_settings(&mut e, &s, "garbage").is_err());
}

#[test]
fn horology_settings_are_applied() {
    let (mut e, s) = started();
    fixtures::apply_horology_session_settings(&mut e, &s).unwrap();
    assert_eq!(shown(&mut e, &s, "TimeZone"), "PST8PDT");
    assert_eq!(shown(&mut e, &s, "DateStyle"), "Postgres, MDY");
}

#[test]
fn interval_settings_are_applied() {
    let (mut e, s) = started();
    fixtures::apply_interval_session_settings(&mut e, &s).unwrap();
    assert_eq!(shown(&mut e, &s, "IntervalStyle"), "sql_standard");
}

#[test]
fn the_join_chain_has_one_row() {
    let (mut e, s) = started();
    fixtures::setup_select5_style_join_chain(&mut e, &s).unwrap();
    let sql = "SELECT x22,x52,x59,x17,x29,x43,x53,x58,x38,x50,x54,x61,x14,x12,x27,x39,x36 \
               FROM t61,t17,t43,t59,t36,t58,t12,t14,t22,t53,t52,t39,t54,t38,t50,t27,t29 \
               WHERE a53=b61 AND a54=b43 AND b38=a59 AND b54=a12 AND a12=9 AND b27=a50 \
               AND b29=a36 AND a29=b59 AND a52=b22 AND b50=a58 AND a38=b58 AND a61=b52 \
               AND a22=b36 AND b39=a27 AND b14=a43 AND b53=a14 AND b17=a39";
    let rows = harness::query_rows(&mut e, &s, sql).unwrap();
    assert_eq!(rows.len(), 1);
    assert_eq!(rows[0].values.len(), 17);
}

#[test]
fn a_statement_sees_what_its_transaction_sees() {
    let mut manager = CountingTransactionManager::default();
    manager.begin(IsolationLevel::ReadCommitted);
    let txn = manager.begin(IsolationLevel::ReadCommitted);
    assert_eq!(txn.id.get(), 2);
    assert_eq!(txn.start_ts, 1);
    let snapshot = manager.statement_snapshot(&txn);
    assert_eq!(snapshot.least.get(), 2);
    assert_eq!(snapshot.next.get(), 3);
    assert!(snapshot.running.is_empty());
    assert_eq!(manager.commit(txn.id).commit_ts, 2);
    manager.rollback(txn.id);
    assert_eq!(manager.counts(), (2, 1, 1));
}

#[test]
fn a_checkpoint_has_nothing_to_do() {
    let storage = RecordingSavepointStorageTxnParticipant::default();
    assert_eq!(
        storage.checkpoint().unwrap(),
        CheckpointInfo {
            checkpoint_lsn: 0,
            dirty_pages_flushed: 0,
        }
    );
}

#[test]
fn a_text_is_entered_once() {
    let mut symbols = Symbols::new();
    let before = symbols.len();
    let word: Vec<char> = "fresh".chars().collect();
    assert_eq!(symbols.find(&word), None);
    let number = symbols.enter(word.clone());
    assert_eq!(symbols.enter(word.clone()), number);
    assert_eq!(symbols.find(&word), Some(number));
    assert_eq!(symbols.text(number), "fresh");
    assert_eq!(symbols.len(), before + 1);
}
